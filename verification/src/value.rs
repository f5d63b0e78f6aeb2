//! Values as they pass through binding: what a prompt answers, and the
//! tree that the answers are assembled into.

use vstd::prelude::*;
use edgedb_protocol::value::Value;
use crate::capability::Capability;
use crate::descriptor::{ShapeElement, TupleElement};
use crate::text::{decimal, index_name};

verus! {

/// `edgedb_protocol::value::Value`, a value as the protocol encodes it.
/// Binding never looks inside one: it hands on what a prompt returned.
#[verifier::external_type_specification]
#[verifier::external_body]
pub struct ExValue(Value);

/// What a prompt came back with.
#[derive(Debug, PartialEq)]
pub enum Input {
    /// Text that was not parsed. No prompt for a variable returns it.
    Text(String),
    /// The value that the user entered.
    Value(Value),
    /// The user interrupted the prompt.
    Interrupt,
    /// Input ended before a value was entered.
    Eof,
}

/// A question to put to the user.
#[derive(Debug, Clone, PartialEq, Eq)]
pub struct Prompt {
    pub name: String,
    pub capability: Capability,
    pub optional: bool,
}

/// A prompt with its name as a sequence of characters.
pub struct PromptView {
    pub name: Seq<char>,
    pub capability: Capability,
    pub optional: bool,
}

impl View for Prompt {
    type V = PromptView;

    open spec fn view(&self) -> PromptView {
        PromptView { name: self.name@, capability: self.capability, optional: self.optional }
    }
}

/// Which of the composite shapes a bound value has.
#[derive(Debug, Clone, Copy, PartialEq, Eq, Structural)]
pub enum ShapeKind {
    Nothing,
    Tuple,
    NamedTuple,
    Object,
}

/// The value bound to a query's parameters.
#[derive(Debug, PartialEq)]
#[allow(inconsistent_fields)]
pub enum BoundValue {
    /// The query takes no input.
    Nothing,
    /// Positional parameters, in order.
    Tuple(Vec<Value>),
    /// Named parameters with the elements that name them.
    NamedTuple { shape: Vec<TupleElement>, fields: Vec<Value> },
    /// An object: `shape` lists every element, and `fields` holds, element
    /// by element, its value or its absence.
    Object { shape: Vec<ShapeElement>, fields: Vec<Option<Value>> },
}

/// A bound value with its lists as sequences.
#[allow(inconsistent_fields)]
pub enum Bound {
    Nothing,
    Tuple(Seq<Value>),
    NamedTuple { shape: Seq<TupleElement>, fields: Seq<Value> },
    Object { shape: Seq<ShapeElement>, fields: Seq<Option<Value>> },
}

impl View for BoundValue {
    type V = Bound;

    open spec fn view(&self) -> Bound {
        match *self {
            BoundValue::Nothing => Bound::Nothing,
            BoundValue::Tuple(fields) => Bound::Tuple(fields@),
            BoundValue::NamedTuple { shape, fields } => Bound::NamedTuple {
                shape: shape@,
                fields: fields@,
            },
            BoundValue::Object { shape, fields } => Bound::Object { shape: shape@, fields: fields@ },
        }
    }
}

impl Bound {
    /// The shape tag.
    pub open spec fn kind(self) -> ShapeKind {
        match self {
            Bound::Nothing => ShapeKind::Nothing,
            Bound::Tuple(_) => ShapeKind::Tuple,
            Bound::NamedTuple { .. } => ShapeKind::NamedTuple,
            Bound::Object { .. } => ShapeKind::Object,
        }
    }

    /// The names of the fields in the order of the shape; a positional
    /// field is named by its index.
    pub open spec fn field_names(self) -> Seq<Seq<char>> {
        match self {
            Bound::Nothing => Seq::empty(),
            Bound::Tuple(fields) => Seq::new(fields.len(), |i: int| decimal(i as nat)),
            Bound::NamedTuple { shape, fields } => Seq::new(shape.len(), |i: int| shape[i].name@),
            Bound::Object { shape, fields } => Seq::new(shape.len(), |i: int| shape[i].name@),
        }
    }
}

impl BoundValue {
    pub fn kind(&self) -> (kind: ShapeKind)
        ensures
            kind == self@.kind(),
    {
        match self {
            BoundValue::Nothing => ShapeKind::Nothing,
            BoundValue::Tuple(_) => ShapeKind::Tuple,
            BoundValue::NamedTuple { .. } => ShapeKind::NamedTuple,
            BoundValue::Object { .. } => ShapeKind::Object,
        }
    }

    pub fn field_names(&self) -> (names: Vec<String>)
        ensures
            names@.len() == self@.field_names().len(),
            forall|i: int| 0 <= i < names@.len() ==> names@[i]@ == self@.field_names()[i],
    {
        let mut names: Vec<String> = Vec::new();
        match self {
            BoundValue::Nothing => {},
            BoundValue::Tuple(fields) => {
                let mut i: usize = 0;
                while i < fields.len()
                    invariant
                        i <= fields@.len(),
                        names@.len() == i,
                        forall|j: int| 0 <= j < i ==> names@[j]@ == decimal(j as nat),
                    decreases fields@.len() - i,
                {
                    names.push(index_name(i));
                    i += 1;
                }
            },
            BoundValue::NamedTuple { shape, fields: _ } => {
                let mut i: usize = 0;
                while i < shape.len()
                    invariant
                        i <= shape@.len(),
                        names@.len() == i,
                        forall|j: int| 0 <= j < i ==> names@[j]@ == shape@[j].name@,
                    decreases shape@.len() - i,
                {
                    names.push(shape[i].name.clone());
                    i += 1;
                }
            },
            BoundValue::Object { shape, fields: _ } => {
                let mut i: usize = 0;
                while i < shape.len()
                    invariant
                        i <= shape@.len(),
                        names@.len() == i,
                        forall|j: int| 0 <= j < i ==> names@[j]@ == shape@[j].name@,
                    decreases shape@.len() - i,
                {
                    names.push(shape[i].name.clone());
                    i += 1;
                }
            },
        }
        names
    }
}

} // verus!
