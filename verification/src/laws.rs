//! What holds of every binding, proved from the definitions in
//! [`crate::variables`].

use vstd::prelude::*;
use edgedb_protocol::value::Value;
use crate::descriptor::{Descriptor, InputTypedesc, ShapeElement, TupleElement, TypePos};
use crate::error::{BindError, Canceled};
use crate::text::decimal;
use crate::value::{Bound, Input, PromptView, ShapeKind};
use crate::variables::{answer_at, lemma_first_failure, present, Next};

verus! {

/// The values that `answers` give to the first `count` prompts.
pub open spec fn entered(answers: Seq<Input>, count: nat) -> Seq<Value> {
    Seq::new(count, |i: int| answer_at(answers, i)->Value_0)
}

/// A table without root takes no input: nothing is asked, and the value
/// is `Nothing`, whatever answers stand ready.
pub proof fn lemma_no_root_binds_nothing(all: InputTypedesc, answers: Seq<Input>)
    requires
        all.root_pos.is_none(),
    ensures
        all.outcome(answers) == Ok::<Bound, BindError>(Bound::Nothing),
        all.prompts(answers) == Seq::<PromptView>::empty(),
        all.next(Seq::empty()) == Next::Done(Bound::Nothing),
{
    assert(all.prompts(answers) =~= Seq::<PromptView>::empty());
}

/// A table marked as the empty tuple binds the empty tuple and asks
/// nothing, under every protocol generation and whatever its other nodes.
pub proof fn lemma_empty_tuple_binds_empty(all: InputTypedesc, answers: Seq<Input>)
    requires
        all.empty_tuple(),
    ensures
        all.outcome(answers) == Ok::<Bound, BindError>(Bound::Tuple(Seq::empty())),
        all.prompts(answers) == Seq::<PromptView>::empty(),
        all.next(Seq::empty()) == Next::Done(Bound::Tuple(Seq::empty())),
{
    assert(all.prompts(answers) =~= Seq::<PromptView>::empty());
}

/// Where every field resolves and is answered by a value, every field is
/// asked for, in declared order, and none fails.
pub proof fn lemma_all_entered(all: InputTypedesc, answers: Seq<Input>)
    requires
        all.asks(),
        forall|i: int|
            0 <= i < all.fields().len() ==> (#[trigger] all.capability(
                all.fields()[i].type_pos,
            )).is_ok(),
        forall|i: int| 0 <= i < all.fields().len() ==> (#[trigger] answer_at(answers, i)) is Value,
    ensures
        all.first_failure(answers, 0) == all.fields().len(),
        all.prompts(answers) == Seq::new(all.fields().len(), |i: int| all.prompt(i)),
        all.outcome(answers) == Ok::<Bound, BindError>(
            all.assemble(
                Seq::new(all.fields().len(), |i: int| Some(answer_at(answers, i)->Value_0)),
            ),
        ),
{
    let count = all.fields().len();
    assert forall|i: int| 0 <= i < count implies (#[trigger] all.field_outcome(
        i,
        answer_at(answers, i),
    )) == Ok::<Option<Value>, BindError>(Some(answer_at(answers, i)->Value_0)) by {
        assert(all.capability(all.fields()[i].type_pos).is_ok());
        assert(answer_at(answers, i) is Value);
    }
    lemma_first_failure(all, answers, 0, count as int);
    assert(all.prompts(answers) =~= Seq::new(count, |i: int| all.prompt(i)));
    assert(Seq::new(count, |i: int| all.field_outcome(i, answer_at(answers, i)).unwrap())
        =~= Seq::new(count, |i: int| Some(answer_at(answers, i)->Value_0)));
}

/// A positional tuple of `n` elements under a legacy generation: where
/// every element resolves and is answered by a value, exactly `n` prompts
/// are put, in ascending order, named `"0"` to `n - 1` in decimal and
/// required, and the value is the tuple of the `n` values in that order.
pub proof fn lemma_legacy_tuple(
    all: InputTypedesc,
    answers: Seq<Input>,
    id: u128,
    element_types: Vec<TypePos>,
)
    requires
        all.proto.legacy(),
        all.root_node() == Some(Descriptor::Tuple { id, element_types }),
        forall|i: int|
            0 <= i < element_types@.len() ==> (#[trigger] all.capability(element_types@[i])).is_ok(),
        forall|i: int| 0 <= i < element_types@.len() ==> (#[trigger] answer_at(answers, i)) is Value,
    ensures
        all.prompts(answers).len() == element_types@.len(),
        forall|i: int|
            0 <= i < element_types@.len() ==> (#[trigger] all.prompts(answers)[i]) == (PromptView {
                name: decimal(i as nat),
                capability: all.capability(element_types@[i]).unwrap(),
                optional: false,
            }),
        all.outcome(answers) == Ok::<Bound, BindError>(
            Bound::Tuple(entered(answers, element_types@.len())),
        ),
{
    let count = element_types@.len();
    if all.empty_tuple() {
        assert(all.prompts(answers) =~= Seq::<PromptView>::empty());
        assert(entered(answers, count) =~= Seq::<Value>::empty());
    } else {
        assert(all.fields().len() == count);
        assert forall|i: int| 0 <= i < all.fields().len() implies (#[trigger] all.capability(
            all.fields()[i].type_pos,
        )).is_ok() by {
            assert(all.capability(element_types@[i]).is_ok());
        }
        lemma_all_entered(all, answers);
        assert(present(Seq::new(count, |i: int| Some(answer_at(answers, i)->Value_0))) =~= entered(
            answers,
            count,
        ));
    }
}

/// A named tuple under a legacy generation: where every element resolves
/// and is answered by a value, one prompt is put per element, in declared
/// order, under the element's name and required, and the value is the
/// named tuple of the values under the elements as declared.
pub proof fn lemma_legacy_named_tuple(
    all: InputTypedesc,
    answers: Seq<Input>,
    elements: Vec<TupleElement>,
)
    requires
        all.proto.legacy(),
        all.root_node() == Some(Descriptor::NamedTuple { elements }),
        forall|i: int|
            0 <= i < elements@.len() ==> (#[trigger] all.capability(elements@[i].type_pos)).is_ok(),
        forall|i: int| 0 <= i < elements@.len() ==> (#[trigger] answer_at(answers, i)) is Value,
    ensures
        all.prompts(answers).len() == elements@.len(),
        forall|i: int|
            0 <= i < elements@.len() ==> (#[trigger] all.prompts(answers)[i]) == (PromptView {
                name: elements@[i].name@,
                capability: all.capability(elements@[i].type_pos).unwrap(),
                optional: false,
            }),
        all.outcome(answers) == Ok::<Bound, BindError>(
            Bound::NamedTuple { shape: elements@, fields: entered(answers, elements@.len()) },
        ),
{
    let count = elements@.len();
    assert(all.fields().len() == count);
    assert forall|i: int| 0 <= i < all.fields().len() implies (#[trigger] all.capability(
        all.fields()[i].type_pos,
    )).is_ok() by {
        assert(all.capability(elements@[i].type_pos).is_ok());
    }
    lemma_all_entered(all, answers);
    assert(present(Seq::new(count, |i: int| Some(answer_at(answers, i)->Value_0))) =~= entered(
        answers,
        count,
    ));
}

/// An object shape under a shaped generation, when binding succeeds: the
/// value is an object under the elements as declared, whichever of them
/// were skipped; it has one entry per element; the entry of a required
/// element is never absent; and an entry is absent exactly where input
/// ended on its prompt, which only an optional element admits.
pub proof fn lemma_object_shape(
    all: InputTypedesc,
    answers: Seq<Input>,
    elements: Vec<ShapeElement>,
    bound: Bound,
)
    requires
        all.proto.shaped(),
        all.root_node() == Some(Descriptor::ObjectShape { elements }),
        forall|i: int| 0 <= i < answers.len() ==> !((#[trigger] answers[i]) is Text),
        all.outcome(answers) == Ok::<Bound, BindError>(bound),
    ensures
        bound matches Bound::Object { shape, fields } && {
            &&& shape == elements@
            &&& fields.len() == elements@.len()
            &&& forall|i: int|
                0 <= i < fields.len() && !elements@[i].optional() ==> (#[trigger] fields[i]).is_some()
            &&& forall|i: int|
                0 <= i < fields.len() ==> ((#[trigger] fields[i]).is_none() <==> answer_at(
                    answers,
                    i,
                ) is Eof)
        },
{
    let count = all.fields().len();
    assert(count == elements@.len());
    lemma_first_failure_is_first(all, answers, 0);
    assert forall|i: int| 0 <= i < count implies !(answer_at(answers, i) is Text) by {
        if i < answers.len() {
            assert(!(answers[i] is Text));
        }
    }
}

/// The first failure from `from` on lies between `from` and the number
/// of fields; every field before it succeeds, and it fails itself unless
/// it is the end.
pub proof fn lemma_first_failure_is_first(all: InputTypedesc, answers: Seq<Input>, from: int)
    requires
        0 <= from <= all.fields().len(),
    ensures
        from <= all.first_failure(answers, from) <= all.fields().len(),
        forall|i: int|
            from <= i < all.first_failure(answers, from) ==> (#[trigger] all.field_outcome(
                i,
                answer_at(answers, i),
            )).is_ok(),
        all.first_failure(answers, from) < all.fields().len() ==> all.field_outcome(
            all.first_failure(answers, from),
            answer_at(answers, all.first_failure(answers, from)),
        ).is_err(),
    decreases all.fields().len() - from,
{
    if from < all.fields().len() && all.field_outcome(from, answer_at(answers, from)).is_ok() {
        lemma_first_failure_is_first(all, answers, from + 1);
    }
}

/// An interrupt ends the binding as canceled, whatever was entered before
/// it: where the fields before `at` succeed and the prompt for `at` is
/// interrupted, the outcome is the cancellation and holds no value, and
/// the prompt for `at` is the last one put.
pub proof fn lemma_interrupt_cancels(all: InputTypedesc, answers: Seq<Input>, at: int)
    requires
        0 <= at < all.fields().len(),
        forall|i: int|
            0 <= i < at ==> (#[trigger] all.field_outcome(i, answer_at(answers, i))).is_ok(),
        all.capability(all.fields()[at].type_pos).is_ok(),
        answer_at(answers, at) is Interrupt,
    ensures
        all.outcome(answers) == Err::<Bound, BindError>(BindError::Canceled(Canceled)),
        all.prompts(answers).len() == at + 1,
{
    lemma_first_failure(all, answers, 0, at);
}

/// Input that ends on a required field is an error that names the field,
/// not a value with a gap.
pub proof fn lemma_missing_required(all: InputTypedesc, answers: Seq<Input>, at: int)
    requires
        0 <= at < all.fields().len(),
        forall|i: int|
            0 <= i < at ==> (#[trigger] all.field_outcome(i, answer_at(answers, i))).is_ok(),
        all.capability(all.fields()[at].type_pos).is_ok(),
        !all.fields()[at].optional,
        answer_at(answers, at) is Eof,
    ensures
        all.outcome(answers) == Err::<Bound, BindError>(
            BindError::MissingRequired { index: at as usize },
        ),
{
    lemma_first_failure(all, answers, 0, at);
}

impl InputTypedesc {
    /// The shape that the table declares for its input.
    pub open spec fn declared_kind(self) -> ShapeKind {
        match self.root_node() {
            None => ShapeKind::Nothing,
            Some(Descriptor::Tuple { .. }) => ShapeKind::Tuple,
            Some(Descriptor::NamedTuple { .. }) => ShapeKind::NamedTuple,
            _ => ShapeKind::Object,
        }
    }

    /// The names of the declared fields, in declared order.
    pub open spec fn declared_names(self) -> Seq<Seq<char>> {
        Seq::new(self.fields().len(), |i: int| self.fields()[i].name)
    }
}

/// A bound value tells the shape it was bound for: its shape tag is the
/// kind of the root, and its field names are the declared names in
/// declared order.
pub proof fn lemma_bound_value_keeps_shape(all: InputTypedesc, answers: Seq<Input>, bound: Bound)
    requires
        all.outcome(answers) == Ok::<Bound, BindError>(bound),
    ensures
        bound.kind() == all.declared_kind(),
        bound.field_names() == all.declared_names(),
{
    if all.immediate().is_none() {
        lemma_first_failure_is_first(all, answers, 0);
    }
    assert(bound.field_names() =~= all.declared_names());
}

} // verus!
