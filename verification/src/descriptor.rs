//! The input type descriptor: a table of nodes addressed by position.

use vstd::prelude::*;
use crate::protocol::ProtocolVersion;

verus! {

/// The identifier that marks a root tuple as the parameterless one.
pub const EMPTY_TUPLE_ID: u128 = 0xFF;

/// Position of a node in its table.
#[derive(Debug, Clone, Copy, PartialEq, Eq, Structural)]
pub struct TypePos(pub u16);

/// How many values an object-shape element may hold.
#[derive(Debug, Clone, Copy, PartialEq, Eq, Structural)]
pub enum Cardinality {
    NoResult,
    AtMostOne,
    One,
    Many,
    AtLeastOne,
}

impl Cardinality {
    /// The cardinalities that admit no value at all.
    pub open spec fn optional(self) -> bool {
        self is NoResult || self is AtMostOne || self is Many
    }

    pub fn is_optional(&self) -> (yes: bool)
        ensures
            yes == self.optional(),
    {
        match self {
            Cardinality::NoResult => true,
            Cardinality::AtMostOne => true,
            Cardinality::One => false,
            Cardinality::Many => true,
            Cardinality::AtLeastOne => false,
        }
    }
}

/// One element of an object shape.
#[derive(Debug, PartialEq, Eq)]
pub struct ShapeElement {
    pub flag_implicit: bool,
    pub flag_link_property: bool,
    pub flag_link: bool,
    pub cardinality: Option<Cardinality>,
    pub name: String,
    pub type_pos: TypePos,
}

/// One element of a named tuple.
#[derive(Debug, PartialEq, Eq)]
pub struct TupleElement {
    pub name: String,
    pub type_pos: TypePos,
}

/// A node of the table. The last five kinds never describe query input;
/// they are kept so that a table is represented position for position.
#[derive(Debug, Clone, PartialEq, Eq)]
#[allow(inconsistent_fields)]
pub enum Descriptor {
    ObjectShape { elements: Vec<ShapeElement> },
    BaseScalar { id: u128 },
    Scalar { base_type_pos: TypePos },
    Tuple { id: u128, element_types: Vec<TypePos> },
    NamedTuple { elements: Vec<TupleElement> },
    /// `dimensions` is stored as received and never consulted.
    Array { type_pos: TypePos, dimensions: Vec<Option<u32>> },
    SetOf,
    Range,
    Enumeration,
    InputShape,
    TypeAnnotation,
}

/// The descriptor table of one query.
#[derive(Debug, Clone, PartialEq, Eq)]
pub struct InputTypedesc {
    pub proto: ProtocolVersion,
    pub array: Vec<Descriptor>,
    pub root_pos: Option<TypePos>,
}

impl Clone for ShapeElement {
    fn clone(&self) -> (copy: Self)
        ensures
            copy == *self,
    {
        ShapeElement {
            flag_implicit: self.flag_implicit,
            flag_link_property: self.flag_link_property,
            flag_link: self.flag_link,
            cardinality: self.cardinality,
            name: self.name.clone(),
            type_pos: self.type_pos,
        }
    }
}

impl Clone for TupleElement {
    fn clone(&self) -> (copy: Self)
        ensures
            copy == *self,
    {
        TupleElement { name: self.name.clone(), type_pos: self.type_pos }
    }
}

/// A copy of the elements of a named tuple.
pub(crate) fn copy_tuple_shape(elements: &Vec<TupleElement>) -> (copy: Vec<TupleElement>)
    ensures
        copy@ == elements@,
{
    let mut copy: Vec<TupleElement> = Vec::new();
    let mut i: usize = 0;
    while i < elements.len()
        invariant
            i <= elements@.len(),
            copy@ == elements@.take(i as int),
        decreases elements@.len() - i,
    {
        copy.push(elements[i].clone());
        assert(copy@ =~= elements@.take(i + 1));
        i += 1;
    }
    assert(elements@.take(i as int) =~= elements@);
    copy
}

/// A copy of the elements of an object shape.
pub(crate) fn copy_shape(elements: &Vec<ShapeElement>) -> (copy: Vec<ShapeElement>)
    ensures
        copy@ == elements@,
{
    let mut copy: Vec<ShapeElement> = Vec::new();
    let mut i: usize = 0;
    while i < elements.len()
        invariant
            i <= elements@.len(),
            copy@ == elements@.take(i as int),
        decreases elements@.len() - i,
    {
        copy.push(elements[i].clone());
        assert(copy@ =~= elements@.take(i + 1));
        i += 1;
    }
    assert(elements@.take(i as int) =~= elements@);
    copy
}

impl ShapeElement {
    /// Whether the element may be left without a value: its cardinality
    /// says so, and an element without cardinality is required.
    pub open spec fn optional(self) -> bool {
        match self.cardinality {
            Some(cardinality) => cardinality.optional(),
            None => false,
        }
    }

    pub fn is_optional(&self) -> (yes: bool)
        ensures
            yes == self.optional(),
    {
        match self.cardinality {
            Some(cardinality) => cardinality.is_optional(),
            None => false,
        }
    }
}

impl InputTypedesc {
    /// The node at `pos`, if the table reaches that far.
    pub open spec fn node(self, pos: TypePos) -> Option<Descriptor> {
        if (pos.0 as int) < self.array@.len() {
            Some(self.array@[pos.0 as int])
        } else {
            None
        }
    }

    /// The root node: none where the table names no root, and none where
    /// the named position lies outside the table.
    pub open spec fn root_node(self) -> Option<Descriptor> {
        match self.root_pos {
            Some(pos) => self.node(pos),
            None => None,
        }
    }

    /// The table describes a query without parameters by the marker tuple.
    pub open spec fn empty_tuple(self) -> bool {
        match self.root_node() {
            Some(Descriptor::Tuple { id, element_types }) => id == EMPTY_TUPLE_ID
                && element_types@.len() == 0,
            _ => false,
        }
    }

    pub fn proto(&self) -> (version: &ProtocolVersion)
        ensures
            *version == self.proto,
    {
        &self.proto
    }

    pub fn descriptors(&self) -> (nodes: &Vec<Descriptor>)
        ensures
            *nodes == self.array,
    {
        &self.array
    }

    pub fn get(&self, type_pos: TypePos) -> (found: Option<&Descriptor>)
        ensures
            match found {
                Some(node) => self.node(type_pos) == Some(*node),
                None => self.node(type_pos).is_none(),
            },
    {
        let index: usize = type_pos.0 as usize;
        if index < self.array.len() {
            Some(&self.array[index])
        } else {
            None
        }
    }

    pub fn root(&self) -> (found: Option<&Descriptor>)
        ensures
            match found {
                Some(node) => self.root_node() == Some(*node),
                None => self.root_node().is_none(),
            },
    {
        match self.root_pos {
            Some(pos) => self.get(pos),
            None => None,
        }
    }

    pub fn is_empty_tuple(&self) -> (yes: bool)
        ensures
            yes == self.empty_tuple(),
    {
        match self.root() {
            Some(Descriptor::Tuple { id, element_types }) => *id == EMPTY_TUPLE_ID
                && element_types.len() == 0,
            _ => false,
        }
    }
}

} // verus!
