//! Why the limit on the nesting of arrays loses nothing: a walk that is
//! cut off at the number of nodes has passed through one array twice, and
//! would go round for ever.

use vstd::prelude::*;
use vstd::set_lib::{lemma_int_range, lemma_len_subset, set_int_range};
use crate::capability::{lemma_resolve_stable, resolve, Capability};
use crate::descriptor::{Descriptor, InputTypedesc, TypePos};
use crate::error::BindError;

verus! {

/// The resolution was cut off for nesting too deep.
pub open spec fn cut_off(made: Result<Capability, BindError>) -> bool {
    made matches Err(BindError::NestingTooDeep { .. })
}

/// The array behind the leaf at `pos`, if there is one: the node itself,
/// or the base of a scalar.
pub open spec fn array_of(all: InputTypedesc, pos: TypePos) -> Option<TypePos> {
    match all.node(pos) {
        Some(Descriptor::Array { .. }) => Some(pos),
        Some(Descriptor::Scalar { base_type_pos }) => match all.node(base_type_pos) {
            Some(Descriptor::Array { .. }) => Some(base_type_pos),
            _ => None,
        },
        _ => None,
    }
}

/// The position of the elements of the array at `array`.
pub open spec fn element_of(all: InputTypedesc, array: TypePos) -> TypePos
    recommends
        all.node(array) matches Some(Descriptor::Array { .. }),
{
    match all.node(array) {
        Some(Descriptor::Array { type_pos, dimensions }) => type_pos,
        _ => array,
    }
}

/// The position reached from `pos` through `count` arrays, each entered
/// for its elements; none if the walk meets something else before.
pub open spec fn walk(all: InputTypedesc, pos: TypePos, count: nat) -> Option<TypePos>
    decreases count,
{
    if count == 0 {
        Some(pos)
    } else {
        match array_of(all, pos) {
            Some(array) => walk(all, element_of(all, array), (count - 1) as nat),
            None => None,
        }
    }
}

/// The array that the walk from `pos` enters after `count` others.
pub open spec fn entered_array(all: InputTypedesc, pos: TypePos, count: nat) -> TypePos
    recommends
        walk(all, pos, count + 1).is_some(),
{
    array_of(all, walk(all, pos, count).unwrap()).unwrap()
}

/// Resolution is cut off at `depth` exactly where the walk gets through
/// more than `depth` arrays.
pub proof fn lemma_cut_off_is_a_long_walk(all: InputTypedesc, pos: TypePos, depth: nat)
    ensures
        cut_off(resolve(all, pos, depth)) <==> walk(all, pos, depth + 1).is_some(),
    decreases depth,
{
    reveal_with_fuel(resolve, 1);
    reveal_with_fuel(walk, 2);
    match array_of(all, pos) {
        Some(array) => {
            if depth > 0 {
                lemma_cut_off_is_a_long_walk(all, element_of(all, array), (depth - 1) as nat);
            }
        },
        None => {},
    }
}

/// A walk of `first + then` arrays is a walk of `first` and, from where
/// that ends, one of `then`.
pub proof fn lemma_walk_in_two(all: InputTypedesc, pos: TypePos, first: nat, then: nat)
    ensures
        walk(all, pos, first + then) == match walk(all, pos, first) {
            Some(middle) => walk(all, middle, then),
            None => None,
        },
    decreases first,
{
    if first > 0 {
        match array_of(all, pos) {
            Some(array) => {
                lemma_walk_in_two(all, element_of(all, array), (first - 1) as nat, then);
                assert((first - 1) as nat + then == (first + then - 1) as nat);
            },
            None => {},
        }
    }
}

/// The walk that gets through `count` arrays enters, for each `i` before
/// `count`, an array of the table, and goes on from its elements.
pub proof fn lemma_walk_enters(all: InputTypedesc, pos: TypePos, count: nat, i: nat)
    requires
        walk(all, pos, count).is_some(),
        i < count,
    ensures
        walk(all, pos, i).is_some(),
        array_of(all, walk(all, pos, i).unwrap()).is_some(),
        entered_array(all, pos, i).0 < all.array@.len(),
        walk(all, pos, i + 1) == Some(element_of(all, entered_array(all, pos, i))),
{
    reveal_with_fuel(walk, 2);
    lemma_walk_in_two(all, pos, i, (count - i) as nat);
    lemma_walk_in_two(all, pos, i, 1);
}

/// Of more numbers than `bound`, all below `bound`, two are equal.
pub proof fn lemma_two_are_equal(numbers: Seq<int>, bound: nat)
    requires
        numbers.len() > bound,
        forall|i: int| 0 <= i < numbers.len() ==> 0 <= #[trigger] numbers[i] < bound,
    ensures
        exists|i: int, j: int| 0 <= i < j < numbers.len() && numbers[i] == numbers[j],
{
    if numbers.no_duplicates() {
        numbers.unique_seq_to_set();
        lemma_int_range(0, bound as int);
        assert(numbers.to_set().subset_of(set_int_range(0, bound as int))) by {
            assert forall|n: int| numbers.to_set().contains(n) implies set_int_range(
                0,
                bound as int,
            ).contains(n) by {
                let i = choose|i: int| 0 <= i < numbers.len() && numbers[i] == n;
                assert(0 <= numbers[i] < bound);
            }
        }
        lemma_len_subset(numbers.to_set(), set_int_range(0, bound as int));
    } else {
        let (i, j) = choose|i: int, j: int|
            0 <= i < numbers.len() && 0 <= j < numbers.len() && i != j && numbers[i] == numbers[j];
        if i < j {
            assert(0 <= i < j < numbers.len() && numbers[i] == numbers[j]);
        } else {
            assert(0 <= j < i < numbers.len() && numbers[j] == numbers[i]);
        }
    }
}

/// A walk that comes to the same place after `early` arrays and after
/// `late` gets through any number of arrays.
pub proof fn lemma_walk_goes_round(
    all: InputTypedesc,
    pos: TypePos,
    early: nat,
    late: nat,
    count: nat,
)
    requires
        early < late,
        walk(all, pos, late).is_some(),
        walk(all, pos, early) == walk(all, pos, late),
    ensures
        walk(all, pos, count).is_some(),
    decreases count,
{
    if count <= late {
        lemma_walk_in_two(all, pos, count, (late - count) as nat);
    } else {
        let more = (count - late) as nat;
        lemma_walk_in_two(all, pos, late, more);
        lemma_walk_in_two(all, pos, early, more);
        lemma_walk_goes_round(all, pos, early, late, early + more);
    }
}

/// The limit loses nothing: where resolution is cut off at the number of
/// nodes, it is cut off at every depth.
pub proof fn lemma_cut_off_at_every_depth(all: InputTypedesc, pos: TypePos, depth: nat)
    requires
        cut_off(all.capability(pos)),
    ensures
        cut_off(resolve(all, pos, depth)),
{
    let nodes = all.array@.len();
    lemma_cut_off_is_a_long_walk(all, pos, nodes);
    let arrays = Seq::new(nodes + 1, |i: int| entered_array(all, pos, i as nat).0 as int);
    assert forall|i: int| 0 <= i < arrays.len() implies 0 <= #[trigger] arrays[i] < nodes by {
        lemma_walk_enters(all, pos, nodes + 1, i as nat);
    }
    lemma_two_are_equal(arrays, nodes);
    let (i, j) = choose|i: int, j: int| 0 <= i < j < arrays.len() && arrays[i] == arrays[j];
    lemma_walk_enters(all, pos, nodes + 1, i as nat);
    lemma_walk_enters(all, pos, nodes + 1, j as nat);
    assert(entered_array(all, pos, i as nat) == entered_array(all, pos, j as nat));
    lemma_walk_goes_round(all, pos, (i + 1) as nat, (j + 1) as nat, depth + 1);
    lemma_cut_off_is_a_long_walk(all, pos, depth);
}

/// The capability of a position is what resolution comes to at any depth
/// at which it is not cut off.
pub proof fn lemma_capability_at_any_depth(all: InputTypedesc, pos: TypePos, depth: nat)
    ensures
        cut_off(resolve(all, pos, depth)) || resolve(all, pos, depth) == all.capability(pos),
{
    let nodes = all.array@.len();
    if !cut_off(resolve(all, pos, depth)) {
        if depth <= nodes {
            lemma_resolve_stable(all, pos, depth, nodes);
        } else {
            if cut_off(all.capability(pos)) {
                lemma_cut_off_at_every_depth(all, pos, depth);
            }
            lemma_resolve_stable(all, pos, nodes, depth);
        }
    }
}

} // verus!
