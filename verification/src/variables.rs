//! Binding itself: which fields a table asks for, what each response does
//! to the value under construction, and the value that results.
//!
//! Prompting is not done here. [`begin`] and [`Binder::answer`] say what to
//! do next, one prompt at a time, and the caller puts the question to the
//! user; [`input_variables`] runs the same steps over responses that are
//! already at hand.

use vstd::prelude::*;
use edgedb_protocol::value::Value;
use crate::capability::make_variable_input;
use crate::descriptor::{copy_shape, copy_tuple_shape, Descriptor, InputTypedesc, TypePos};
use crate::error::{BindError, Canceled};
use crate::text::{decimal, index_name};
use crate::value::{Bound, BoundValue, Input, Prompt, PromptView};

verus! {

/// One field that a table asks for.
pub struct Field {
    pub name: Seq<char>,
    pub type_pos: TypePos,
    pub optional: bool,
}

impl InputTypedesc {
    /// The root is of a kind that this protocol generation binds field by
    /// field: a tuple or a named tuple in the legacy generations, an object
    /// shape in the shaped ones.
    pub open spec fn asks(self) -> bool {
        !self.empty_tuple() && match self.root_node() {
            Some(Descriptor::Tuple { .. }) => self.proto.legacy(),
            Some(Descriptor::NamedTuple { .. }) => self.proto.legacy(),
            Some(Descriptor::ObjectShape { .. }) => self.proto.shaped(),
            _ => false,
        }
    }

    /// What binding yields before any prompt, where it needs none: the
    /// empty tuple, nothing for a table without root, or the refusal of a
    /// root that the generation does not bind.
    pub open spec fn immediate(self) -> Option<Result<Bound, BindError>> {
        if self.empty_tuple() {
            Some(Ok(Bound::Tuple(Seq::empty())))
        } else if self.root_node().is_none() {
            Some(Ok(Bound::Nothing))
        } else if self.asks() {
            None
        } else {
            Some(Err(BindError::UnknownRoot { pos: self.root_pos.unwrap() }))
        }
    }

    /// The fields in declared order. A positional field is named by its
    /// index and required, a named one is required, and an element of an
    /// object shape is as optional as its cardinality says.
    pub open spec fn fields(self) -> Seq<Field> {
        if !self.asks() {
            Seq::empty()
        } else {
            match self.root_node() {
                Some(Descriptor::Tuple { id, element_types }) => Seq::new(
                    element_types@.len(),
                    |i: int|
                        Field {
                            name: decimal(i as nat),
                            type_pos: element_types@[i],
                            optional: false,
                        },
                ),
                Some(Descriptor::NamedTuple { elements }) => Seq::new(
                    elements@.len(),
                    |i: int|
                        Field {
                            name: elements@[i].name@,
                            type_pos: elements@[i].type_pos,
                            optional: false,
                        },
                ),
                Some(Descriptor::ObjectShape { elements }) => Seq::new(
                    elements@.len(),
                    |i: int|
                        Field {
                            name: elements@[i].name@,
                            type_pos: elements@[i].type_pos,
                            optional: elements@[i].optional(),
                        },
                ),
                _ => Seq::empty(),
            }
        }
    }

    /// The prompt for the field `index`, where its type resolves.
    pub open spec fn prompt(self, index: int) -> PromptView
        recommends
            0 <= index < self.fields().len(),
            self.capability(self.fields()[index].type_pos).is_ok(),
    {
        PromptView {
            name: self.fields()[index].name,
            capability: self.capability(self.fields()[index].type_pos).unwrap(),
            optional: self.fields()[index].optional,
        }
    }

    /// The value made of one entry per field: a tuple of the values, a
    /// named tuple of them under the root's elements, or an object under
    /// the root's elements in which an entry may be absent.
    pub open spec fn assemble(self, values: Seq<Option<Value>>) -> Bound
        recommends
            self.asks(),
            values.len() == self.fields().len(),
    {
        match self.root_node() {
            Some(Descriptor::Tuple { id, element_types }) => Bound::Tuple(present(values)),
            Some(Descriptor::NamedTuple { elements }) => Bound::NamedTuple {
                shape: elements@,
                fields: present(values),
            },
            Some(Descriptor::ObjectShape { elements }) => Bound::Object {
                shape: elements@,
                fields: values,
            },
            _ => Bound::Nothing,
        }
    }

    /// What the response to the prompt for the field `index` comes to; a
    /// field whose type does not resolve fails before it is asked for.
    pub open spec fn field_outcome(self, index: int, response: Input) -> Result<
        Option<Value>,
        BindError,
    >
        recommends
            0 <= index < self.fields().len(),
    {
        match self.capability(self.fields()[index].type_pos) {
            Err(error) => Err(error),
            Ok(_) => item_outcome(index, self.fields()[index].optional, response),
        }
    }

    /// The first field from `from` on that fails under `answers`, or the
    /// number of fields if none does.
    pub open spec fn first_failure(self, answers: Seq<Input>, from: int) -> int
        decreases self.fields().len() - from,
    {
        if from < 0 || from >= self.fields().len() {
            self.fields().len() as int
        } else if self.field_outcome(from, answer_at(answers, from)).is_err() {
            from
        } else {
            self.first_failure(answers, from + 1)
        }
    }

    /// The result of binding when the prompts are answered by `answers`,
    /// one after the other: the error of the first field that fails, and
    /// else the value assembled from every field's entry.
    pub open spec fn outcome(self, answers: Seq<Input>) -> Result<Bound, BindError> {
        match self.immediate() {
            Some(result) => result,
            None => {
                let failed = self.first_failure(answers, 0);
                if failed < self.fields().len() {
                    Err(self.field_outcome(failed, answer_at(answers, failed)).unwrap_err())
                } else {
                    Ok(
                        self.assemble(
                            Seq::new(
                                self.fields().len(),
                                |i: int| self.field_outcome(i, answer_at(answers, i)).unwrap(),
                            ),
                        ),
                    )
                }
            },
        }
    }

    /// The prompts put to the user under `answers`: one for each field up
    /// to the first that fails, that one included if it failed on its
    /// response and not before.
    pub open spec fn prompts(self, answers: Seq<Input>) -> Seq<PromptView> {
        let failed = self.first_failure(answers, 0);
        let asked = if failed < self.fields().len() && self.capability(
            self.fields()[failed].type_pos,
        ).is_ok() {
            failed + 1
        } else {
            failed
        };
        Seq::new(asked as nat, |i: int| self.prompt(i))
    }
}

/// The values of a list in which none is absent.
pub open spec fn present(values: Seq<Option<Value>>) -> Seq<Value> {
    Seq::new(values.len(), |i: int| values[i].unwrap())
}

/// The response that the prompt `index` gets from `answers`; input has
/// ended where the answers have run out.
pub open spec fn answer_at(answers: Seq<Input>, index: int) -> Input {
    if 0 <= index < answers.len() {
        answers[index]
    } else {
        Input::Eof
    }
}

/// What a response to the prompt for the field `index` comes to: its
/// value, no value where input ended on an optional field, a missing
/// field where it ended on a required one, a cancellation on an
/// interrupt. Unparsed text is no response to such a prompt.
pub open spec fn item_outcome(index: int, optional: bool, response: Input) -> Result<
    Option<Value>,
    BindError,
>
    recommends
        !(response is Text),
{
    match response {
        Input::Value(value) => Ok(Some(value)),
        Input::Interrupt => Err(BindError::Canceled(Canceled)),
        Input::Eof => if optional {
            Ok(None)
        } else {
            Err(BindError::MissingRequired { index: index as usize })
        },
        Input::Text(_) => arbitrary(),
    }
}

/// Decides what the response to the prompt for the field `index` comes to.
pub fn input_item(index: usize, optional: bool, response: Input) -> (item: Result<
    Option<Value>,
    BindError,
>)
    requires
        !(response is Text),
    ensures
        item == item_outcome(index as int, optional, response),
{
    match response {
        Input::Value(value) => Ok(Some(value)),
        Input::Interrupt => Err(BindError::Canceled(Canceled)),
        Input::Eof => if optional {
            Ok(None)
        } else {
            Err(BindError::MissingRequired { index })
        },
        Input::Text(_) => unreached(),
    }
}

/// What to do next.
pub enum Step<'a> {
    /// Put the prompt to the user and hand the response to the binder.
    Ask(Binder<'a>, Prompt),
    /// Every field has its entry: this is the value.
    Done(BoundValue),
    /// Binding has failed, and nothing of what was entered is kept.
    Fail(BindError),
}

/// [`Step`] as a matter of specification.
pub enum Next {
    Ask(PromptView),
    Done(Bound),
    Fail(BindError),
}

impl InputTypedesc {
    /// What follows once the entries `collected` are in: the value when
    /// they are complete, and else the prompt for the next field, or the
    /// error that its type resolves to.
    pub open spec fn next(self, collected: Seq<Option<Value>>) -> Next {
        match self.immediate() {
            Some(Ok(bound)) => Next::Done(bound),
            Some(Err(error)) => Next::Fail(error),
            None => if collected.len() >= self.fields().len() {
                Next::Done(self.assemble(collected))
            } else {
                match self.capability(self.fields()[collected.len() as int].type_pos) {
                    Ok(_) => Next::Ask(self.prompt(collected.len() as int)),
                    Err(error) => Next::Fail(error),
                }
            },
        }
    }
}

impl<'a> Step<'a> {
    /// This step is what follows in `all` once `collected` is in.
    pub open spec fn follows(self, all: InputTypedesc, collected: Seq<Option<Value>>) -> bool {
        match self {
            Step::Ask(binder, prompt) => all.next(collected) == Next::Ask(prompt@)
                && binder.table() == all && binder.collected() == collected,
            Step::Done(value) => all.next(collected) == Next::Done(value@),
            Step::Fail(error) => all.next(collected) == Next::Fail(error),
        }
    }
}

/// A binding under way: the table, and the entries of the fields answered
/// so far. The prompt for the next field is out.
pub struct Binder<'a> {
    desc: &'a InputTypedesc,
    values: Vec<Option<Value>>,
}

impl<'a> Binder<'a> {
    #[verifier::type_invariant]
    spec fn inv(self) -> bool {
        &&& self.desc.asks()
        &&& self.values@.len() < self.desc.fields().len()
        &&& entries_fit(*self.desc, self.values@)
    }

    /// The table that is being bound.
    pub closed spec fn table(self) -> InputTypedesc {
        *self.desc
    }

    /// The entries of the fields answered so far.
    pub closed spec fn collected(self) -> Seq<Option<Value>> {
        self.values@
    }

    /// The index of the field whose prompt is out.
    pub fn pending(&self) -> (index: usize)
        ensures
            index == self.collected().len(),
            index < self.table().fields().len(),
    {
        proof {
            use_type_invariant(self);
        }
        self.values.len()
    }

    /// Takes the response to the prompt that is out. A failing response
    /// ends the binding; any other adds its entry and leads to the next
    /// step.
    pub fn answer(self, response: Input) -> (step: Step<'a>)
        requires
            !(response is Text),
        ensures
            match item_outcome(
                self.collected().len() as int,
                self.table().fields()[self.collected().len() as int].optional,
                response,
            ) {
                Ok(entry) => step.follows(self.table(), self.collected().push(entry)),
                Err(error) => step matches Step::Fail(failed) && failed == error,
            },
    {
        proof {
            use_type_invariant(&self);
        }
        let Binder { desc, values } = self;
        let mut values = values;
        let index = values.len();
        let optional = field_optional(desc, index);
        match input_item(index, optional, response) {
            Ok(entry) => {
                values.push(entry);
                advance(desc, values)
            },
            Err(error) => Step::Fail(error),
        }
    }
}

/// Every entry that is absent belongs to an optional field.
pub open spec fn entries_fit(all: InputTypedesc, entries: Seq<Option<Value>>) -> bool {
    forall|i: int|
        0 <= i < entries.len() && i < all.fields().len() ==> (#[trigger] entries[i]).is_some()
            || all.fields()[i].optional
}

/// The first step of binding `desc`.
pub fn begin(desc: &InputTypedesc) -> (step: Step<'_>)
    ensures
        step.follows(*desc, Seq::empty()),
{
    if desc.is_empty_tuple() {
        return Step::Done(BoundValue::Tuple(Vec::new()));
    }
    let accepted = match desc.root() {
        None => {
            return Step::Done(BoundValue::Nothing);
        },
        Some(Descriptor::Tuple { .. }) => desc.proto().is_at_most(0, 11),
        Some(Descriptor::NamedTuple { .. }) => desc.proto().is_at_most(0, 11),
        Some(Descriptor::ObjectShape { .. }) => desc.proto().is_at_least(0, 12),
        Some(_) => false,
    };
    if accepted {
        advance(desc, Vec::new())
    } else {
        match desc.root_pos {
            Some(pos) => Step::Fail(BindError::UnknownRoot { pos }),
            None => unreached(),
        }
    }
}

/// What binding came to, with the prompts that were put on the way.
#[derive(Debug, PartialEq)]
pub struct Transcript {
    pub prompts: Vec<Prompt>,
    pub result: Result<BoundValue, BindError>,
}

/// Binds the parameters that `desc` describes, taking the response to
/// each prompt from `answers` in turn; where the answers run out, input
/// has ended. Answers that no prompt asked for are left unused.
pub fn input_variables(desc: &InputTypedesc, answers: Vec<Input>) -> (transcript: Transcript)
    requires
        forall|i: int| 0 <= i < answers@.len() ==> !((#[trigger] answers@[i]) is Text),
    ensures
        match transcript.result {
            Ok(value) => desc.outcome(answers@) == Ok::<Bound, BindError>(value@),
            Err(error) => desc.outcome(answers@) == Err::<Bound, BindError>(error),
        },
        transcript.prompts@.len() == desc.prompts(answers@).len(),
        forall|i: int|
            0 <= i < transcript.prompts@.len() ==> (#[trigger] transcript.prompts@[i])@
                == desc.prompts(answers@)[i],
{
    let ghost given = answers@;
    let ghost mut collected: Seq<Option<Value>> = Seq::empty();
    let mut rest = reversed(answers);
    let mut prompts: Vec<Prompt> = Vec::new();
    let mut step = begin(desc);
    loop
        invariant
            given == answers@,
            forall|i: int| 0 <= i < given.len() ==> !((#[trigger] given[i]) is Text),
            step.follows(*desc, collected),
            collected.len() <= desc.fields().len(),
            prompts@.len() == collected.len(),
            forall|i: int| 0 <= i < prompts@.len() ==> (#[trigger] prompts@[i])@ == desc.prompt(i),
            forall|i: int|
                0 <= i < collected.len() ==> #[trigger] desc.field_outcome(i, answer_at(given, i))
                    == Ok::<Option<Value>, BindError>(collected[i]),
            rest@.len() == if collected.len() <= given.len() {
                given.len() - collected.len()
            } else {
                0
            },
            rest@ == given.reverse().take(rest@.len() as int),
        decreases desc.fields().len() - collected.len(),
    {
        match step {
            Step::Done(value) => {
                proof {
                    if desc.immediate().is_none() {
                        lemma_first_failure(*desc, given, 0, collected.len() as int);
                        assert(collected =~= Seq::new(
                            desc.fields().len(),
                            |i: int| desc.field_outcome(i, answer_at(given, i)).unwrap(),
                        ));
                    }
                }
                return Transcript { prompts, result: Ok(value) };
            },
            Step::Fail(error) => {
                proof {
                    if desc.immediate().is_none() {
                        lemma_first_failure(*desc, given, 0, collected.len() as int);
                    }
                }
                return Transcript { prompts, result: Err(error) };
            },
            Step::Ask(binder, prompt) => {
                let ghost index = collected.len() as int;
                prompts.push(prompt);
                let response = match rest.pop() {
                    Some(response) => response,
                    None => Input::Eof,
                };
                assert(response == answer_at(given, index));
                step = binder.answer(response);
                if let Step::Fail(error) = &step {
                    proof {
                        let item = item_outcome(index, desc.fields()[index].optional, response);
                        if item.is_err() {
                            lemma_first_failure(*desc, given, 0, index);
                        } else {
                            let entries = collected.push(item.unwrap());
                            lemma_first_failure(*desc, given, 0, index + 1);
                        }
                    }
                    return Transcript { prompts, result: Err(*error) };
                }
                proof {
                    let entry = item_outcome(
                        index,
                        desc.fields()[index].optional,
                        response,
                    ).unwrap();
                    collected = collected.push(entry);
                }
            },
        }
    }
}

/// Where the fields from `from` up to `to` succeed and `to` is the end or
/// fails, `to` is the first failure from `from` on.
pub proof fn lemma_first_failure(all: InputTypedesc, answers: Seq<Input>, from: int, to: int)
    requires
        0 <= from <= to <= all.fields().len(),
        forall|i: int|
            from <= i < to ==> (#[trigger] all.field_outcome(i, answer_at(answers, i))).is_ok(),
        to == all.fields().len() || all.field_outcome(to, answer_at(answers, to)).is_err(),
    ensures
        all.first_failure(answers, from) == to,
    decreases to - from,
{
    if from < to {
        lemma_first_failure(all, answers, from + 1, to);
    }
}

fn field_count(desc: &InputTypedesc) -> (count: usize)
    requires
        desc.asks(),
    ensures
        count == desc.fields().len(),
{
    match desc.root() {
        Some(Descriptor::Tuple { id: _, element_types }) => element_types.len(),
        Some(Descriptor::NamedTuple { elements }) => elements.len(),
        Some(Descriptor::ObjectShape { elements }) => elements.len(),
        _ => unreached(),
    }
}

fn field_optional(desc: &InputTypedesc, index: usize) -> (optional: bool)
    requires
        desc.asks(),
        index < desc.fields().len(),
    ensures
        optional == desc.fields()[index as int].optional,
{
    match desc.root() {
        Some(Descriptor::ObjectShape { elements }) => elements[index].is_optional(),
        _ => false,
    }
}

fn field_type(desc: &InputTypedesc, index: usize) -> (type_pos: TypePos)
    requires
        desc.asks(),
        index < desc.fields().len(),
    ensures
        type_pos == desc.fields()[index as int].type_pos,
{
    match desc.root() {
        Some(Descriptor::Tuple { id: _, element_types }) => element_types[index],
        Some(Descriptor::NamedTuple { elements }) => elements[index].type_pos,
        Some(Descriptor::ObjectShape { elements }) => elements[index].type_pos,
        _ => unreached(),
    }
}

fn field_name(desc: &InputTypedesc, index: usize) -> (name: String)
    requires
        desc.asks(),
        index < desc.fields().len(),
    ensures
        name@ == desc.fields()[index as int].name,
{
    match desc.root() {
        Some(Descriptor::Tuple { .. }) => index_name(index),
        Some(Descriptor::NamedTuple { elements }) => elements[index].name.clone(),
        Some(Descriptor::ObjectShape { elements }) => elements[index].name.clone(),
        _ => unreached(),
    }
}

/// The step that follows once `values` are in.
fn advance(desc: &InputTypedesc, values: Vec<Option<Value>>) -> (step: Step<'_>)
    requires
        desc.asks(),
        values@.len() <= desc.fields().len(),
        entries_fit(*desc, values@),
    ensures
        step.follows(*desc, values@),
{
    let index = values.len();
    if index == field_count(desc) {
        Step::Done(assemble(desc, values))
    } else {
        match make_variable_input(field_type(desc, index), desc) {
            Ok(capability) => {
                let prompt = Prompt {
                    name: field_name(desc, index),
                    capability,
                    optional: field_optional(desc, index),
                };
                Step::Ask(Binder { desc, values }, prompt)
            },
            Err(error) => Step::Fail(error),
        }
    }
}

/// Packs one entry per field into the value that the root calls for: a
/// tuple, a named tuple with its elements, or an object with its elements
/// in which the entries of skipped fields stay absent.
pub fn assemble(desc: &InputTypedesc, values: Vec<Option<Value>>) -> (value: BoundValue)
    requires
        desc.asks(),
        values@.len() == desc.fields().len(),
        entries_fit(*desc, values@),
    ensures
        value@ == desc.assemble(values@),
{
    match desc.root() {
        Some(Descriptor::Tuple { .. }) => BoundValue::Tuple(all_present(values)),
        Some(Descriptor::NamedTuple { elements }) => BoundValue::NamedTuple {
            shape: copy_tuple_shape(elements),
            fields: all_present(values),
        },
        Some(Descriptor::ObjectShape { elements }) => BoundValue::Object {
            shape: copy_shape(elements),
            fields: values,
        },
        _ => unreached(),
    }
}

/// The list turned round.
fn reversed<T>(list: Vec<T>) -> (turned: Vec<T>)
    ensures
        turned@ == list@.reverse(),
{
    let ghost whole = list@;
    let mut list = list;
    let mut turned: Vec<T> = Vec::new();
    while list.len() > 0
        invariant
            list@.len() + turned@.len() == whole.len(),
            list@ == whole.take(list@.len() as int),
            forall|i: int| 0 <= i < turned@.len() ==> turned@[i] == whole[whole.len() - 1 - i],
        decreases list@.len(),
    {
        match list.pop() {
            Some(item) => turned.push(item),
            None => {},
        }
    }
    assert(turned@ =~= whole.reverse());
    turned
}

/// The values of a list in which none is absent, in their order.
fn all_present(values: Vec<Option<Value>>) -> (plain: Vec<Value>)
    requires
        forall|i: int| 0 <= i < values@.len() ==> (#[trigger] values@[i]).is_some(),
    ensures
        plain@ == present(values@),
{
    let ghost whole = values@;
    let mut rest = reversed(values);
    let mut plain: Vec<Value> = Vec::new();
    while rest.len() > 0
        invariant
            rest@.len() + plain@.len() == whole.len(),
            rest@ == whole.reverse().take(rest@.len() as int),
            forall|i: int| 0 <= i < whole.len() ==> (#[trigger] whole[i]).is_some(),
            forall|i: int| 0 <= i < plain@.len() ==> plain@[i] == whole[i].unwrap(),
        decreases rest@.len(),
    {
        match rest.pop() {
            Some(Some(value)) => plain.push(value),
            _ => {
                assert(false);
            },
        }
    }
    assert(plain@ =~= present(whole));
    plain
}

} // verus!
