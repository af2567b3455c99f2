//! Gathering and sorting.

use vstd::prelude::*;

verus! {

/// What a rule finds in each of `items`, in order.
pub open spec fn gathered<T, U>(items: Seq<T>, rule: spec_fn(T) -> Seq<U>) -> Seq<U>
    decreases items.len(),
{
    if items.len() == 0 {
        Seq::empty()
    } else {
        gathered(items.drop_last(), rule) + rule(items.last())
    }
}

pub(crate) proof fn lemma_gathered_one_more<T, U>(
    items: Seq<T>,
    rule: spec_fn(T) -> Seq<U>,
    i: int,
)
    requires
        0 <= i < items.len(),
    ensures
        gathered(items.take(i + 1), rule) == gathered(items.take(i), rule) + rule(items[i]),
{
    assert(items.take(i + 1).drop_last() =~= items.take(i));
    assert(items.take(i + 1).last() == items[i]);
}

/// How many of `items` satisfy a condition.
pub open spec fn count<T>(items: Seq<T>, condition: spec_fn(T) -> bool) -> nat
    decreases items.len(),
{
    if items.len() == 0 {
        0
    } else {
        count(items.drop_last(), condition) + (if condition(items.last()) { 1nat } else { 0nat })
    }
}

pub(crate) proof fn lemma_count_one_more<T>(items: Seq<T>, condition: spec_fn(T) -> bool, i: int)
    requires
        0 <= i < items.len(),
    ensures
        count(items.take(i + 1), condition) == count(items.take(i), condition) + (if condition(
            items[i],
        ) {
            1nat
        } else {
            0nat
        }),
        count(items.take(i), condition) <= i,
    decreases i,
{
    assert(items.take(i + 1).drop_last() =~= items.take(i));
    assert(items.take(i + 1).last() == items[i]);
    if i > 0 {
        lemma_count_one_more(items, condition, i - 1);
    }
}

/// Values that are ordered by a number.
pub trait Ranked: Copy {
    /// Where the value stands.
    spec fn rank(self) -> int;

    /// Values at the same place are the same.
    proof fn rank_tells_apart(a: Self, b: Self)
        requires
            a.rank() == b.rank(),
        ensures
            a == b,
    ;

    /// Whether this stands before `other`.
    fn is_before(self, other: Self) -> (result: bool)
        ensures
            result == (self.rank() < other.rank()),
    ;
}

impl Ranked for u32 {
    open spec fn rank(self) -> int {
        self as int
    }

    proof fn rank_tells_apart(a: Self, b: Self) {
    }

    fn is_before(self, other: Self) -> (result: bool) {
        self < other
    }
}

impl Ranked for u64 {
    open spec fn rank(self) -> int {
        self as int
    }

    proof fn rank_tells_apart(a: Self, b: Self) {
    }

    fn is_before(self, other: Self) -> (result: bool) {
        self < other
    }
}

/// The order of ranked values.
pub open spec fn by_rank<T: Ranked>() -> spec_fn(T, T) -> bool {
    |a: T, b: T| a.rank() <= b.rank()
}

/// The same values in ascending order.
pub open spec fn ascending<T: Ranked>(values: Seq<T>) -> Seq<T> {
    values.sort_by(by_rank())
}

proof fn lemma_by_rank_is_total<T: Ranked>()
    ensures
        vstd::relations::total_ordering(by_rank::<T>()),
{
    let leq = by_rank::<T>();
    assert forall|a: T, b: T| #[trigger] leq(a, b) && #[trigger] leq(b, a) implies a == b by {
        T::rank_tells_apart(a, b);
    }
    assert(vstd::relations::antisymmetric(leq));
    assert(vstd::relations::reflexive(leq));
    assert(vstd::relations::transitive(leq));
    assert(vstd::relations::strongly_connected(leq));
}

/// Sorting keeps the length, and puts no value before a smaller one.
pub proof fn lemma_ascending<T: Ranked>(values: Seq<T>)
    ensures
        ascending(values).len() == values.len(),
        ascending(values).to_multiset() == values.to_multiset(),
        forall|i: int, j: int|
            0 <= i < j < values.len() ==> (#[trigger] ascending(values)[i]).rank() <= (
            #[trigger] ascending(values)[j]).rank(),
{
    lemma_by_rank_is_total::<T>();
    let leq = by_rank::<T>();
    values.lemma_sort_by_ensures(leq);
    vstd::seq_lib::to_multiset_len(values);
    vstd::seq_lib::to_multiset_len(ascending(values));
    assert forall|i: int, j: int| 0 <= i < j < values.len() implies (#[trigger] ascending(
        values,
    )[i]).rank() <= (#[trigger] ascending(values)[j]).rank() by {
        assert(leq(ascending(values)[i], ascending(values)[j]));
    }
}

/// The same values in ascending order.
pub fn sorted<T: Ranked>(values: &Vec<T>) -> (result: Vec<T>)
    ensures
        result@ == ascending(values@),
        result.len() == values.len(),
{
    let mut out: Vec<T> = Vec::new();
    let mut i: usize = 0;
    let ghost leq = by_rank::<T>();
    assert(values@.take(0) =~= Seq::<T>::empty());
    while i < values.len()
        invariant
            i <= values.len(),
            leq == by_rank::<T>(),
            vstd::relations::sorted_by(out@, leq),
            out@.to_multiset() == values@.take(i as int).to_multiset(),
        decreases values.len() - i,
    {
        let value: T = values[i];
        let ghost before = out@;
        let mut at: usize = out.len();
        while at > 0 && value.is_before(out[at - 1])
            invariant
                at <= out.len(),
                out@ == before,
                forall|j: int|
                    at <= j < out@.len() ==> value.rank() < (#[trigger] out@[j]).rank(),
            decreases at,
        {
            at -= 1;
        }
        out.insert(at, value);
        proof {
            vstd::seq_lib::to_multiset_insert(before, at as int, value);
            vstd::seq_lib::to_multiset_build(values@.take(i as int), value);
            assert(values@.take(i + 1) =~= values@.take(i as int).push(value));
            assert(out@ == before.insert(at as int, value));
            assert forall|a: int, b: int| 0 <= a < b < out@.len() implies #[trigger] leq(
                out@[a],
                out@[b],
            ) by {
                let a0 = if a < at { a } else { a - 1 };
                let b0 = if b < at { b } else { b - 1 };
                if a != at {
                    assert(out@[a] == before[a0]);
                }
                if b != at {
                    assert(out@[b] == before[b0]);
                }
                if a != at && b != at {
                    assert(leq(before[a0], before[b0]));
                } else if b == at {
                    if a < at - 1 {
                        assert(leq(before[a], before[at - 1]));
                    }
                }
            }
        }
        i += 1;
    }
    proof {
        assert(values@.take(i as int) =~= values@);
        lemma_by_rank_is_total::<T>();
        values@.lemma_sort_by_ensures(leq);
        vstd::seq_lib::lemma_sorted_unique(out@, values@.sort_by(leq), leq);
        lemma_ascending(values@);
    }
    out
}

/// What items weigh together.
pub open spec fn weight_of<T>(items: Seq<T>, weight: spec_fn(T) -> int) -> int
    decreases items.len(),
{
    if items.len() == 0 {
        0
    } else {
        weight_of(items.drop_last(), weight) + weight(items.last())
    }
}

proof fn lemma_weight_without<T>(items: Seq<T>, weight: spec_fn(T) -> int, i: int)
    requires
        0 <= i < items.len(),
    ensures
        weight_of(items, weight) == weight_of(items.remove(i), weight) + weight(items[i]),
    decreases items.len(),
{
    if i == items.len() - 1 {
        assert(items.remove(i) =~= items.drop_last());
    } else {
        lemma_weight_without(items.drop_last(), weight, i);
        assert(items.remove(i).drop_last() =~= items.drop_last().remove(i));
    }
}

/// The same items weigh the same in any order.
pub(crate) proof fn lemma_weight_in_any_order<T>(
    items: Seq<T>,
    others: Seq<T>,
    weight: spec_fn(T) -> int,
)
    requires
        items.to_multiset() == others.to_multiset(),
    ensures
        weight_of(items, weight) == weight_of(others, weight),
    decreases others.len(),
{
    broadcast use vstd::seq_lib::group_to_multiset_ensures;

    vstd::seq_lib::to_multiset_len(items);
    vstd::seq_lib::to_multiset_len(others);
    if others.len() > 0 {
        let last = others.last();
        assert(others.contains(last));
        vstd::seq_lib::to_multiset_contains(items, last);
        vstd::seq_lib::to_multiset_contains(others, last);
        let i = items.index_of(last);
        vstd::seq_lib::to_multiset_remove(items, i);
        vstd::seq_lib::to_multiset_remove(others, others.len() - 1);
        assert(others.remove(others.len() - 1) =~= others.drop_last());
        lemma_weight_without(items, weight, i);
        lemma_weight_in_any_order(items.remove(i), others.drop_last(), weight);
    }
}

/// How many items satisfy a condition does not depend on their order.
pub(crate) proof fn lemma_count_in_any_order<T>(
    items: Seq<T>,
    others: Seq<T>,
    condition: spec_fn(T) -> bool,
)
    requires
        items.to_multiset() == others.to_multiset(),
    ensures
        count(items, condition) == count(others, condition),
{
    let weight = |item: T|
        if condition(item) {
            1int
        } else {
            0int
        };
    lemma_count_is_a_weight(items, condition);
    lemma_count_is_a_weight(others, condition);
    lemma_weight_in_any_order(items, others, weight);
}

proof fn lemma_count_is_a_weight<T>(items: Seq<T>, condition: spec_fn(T) -> bool)
    ensures
        count(items, condition) == weight_of(
            items,
            |item: T|
                if condition(item) {
                    1int
                } else {
                    0int
                },
        ),
    decreases items.len(),
{
    if items.len() > 0 {
        lemma_count_is_a_weight(items.drop_last(), condition);
    }
}

/// What a rule finds does not depend on the order of the items, but for its own.
pub(crate) proof fn lemma_gathered_in_any_order<T, U>(
    items: Seq<T>,
    others: Seq<T>,
    rule: spec_fn(T) -> Seq<U>,
)
    requires
        items.to_multiset() == others.to_multiset(),
    ensures
        gathered(items, rule).to_multiset() == gathered(others, rule).to_multiset(),
{
    assert forall|value: U|
        gathered(items, rule).to_multiset().count(value) == gathered(
            others,
            rule,
        ).to_multiset().count(value) by {
        lemma_gathered_is_a_weight(items, rule, value);
        lemma_gathered_is_a_weight(others, rule, value);
        lemma_weight_in_any_order(
            items,
            others,
            |item: T| rule(item).to_multiset().count(value) as int,
        );
    }
    assert(gathered(items, rule).to_multiset() =~= gathered(others, rule).to_multiset());
}

proof fn lemma_gathered_is_a_weight<T, U>(items: Seq<T>, rule: spec_fn(T) -> Seq<U>, value: U)
    ensures
        gathered(items, rule).to_multiset().count(value) == weight_of(
            items,
            |item: T| rule(item).to_multiset().count(value) as int,
        ),
    decreases items.len(),
{
    broadcast use vstd::seq_lib::group_to_multiset_ensures;

    if items.len() > 0 {
        let earlier = items.drop_last();
        lemma_gathered_is_a_weight(earlier, rule, value);
        vstd::seq_lib::lemma_multiset_commutative(gathered(earlier, rule), rule(items.last()));
    } else {
        vstd::seq_lib::to_multiset_contains(gathered(items, rule), value);
    }
}

/// The same values in ascending order are the same, in whatever order they were.
pub(crate) proof fn lemma_ascending_in_any_order<T: Ranked>(values: Seq<T>, others: Seq<T>)
    requires
        values.to_multiset() == others.to_multiset(),
    ensures
        ascending(values) == ascending(others),
        values.len() == others.len(),
{
    let leq = by_rank::<T>();
    lemma_by_rank_is_total::<T>();
    values.lemma_sort_by_ensures(leq);
    others.lemma_sort_by_ensures(leq);
    vstd::seq_lib::to_multiset_len(values);
    vstd::seq_lib::to_multiset_len(others);
    vstd::seq_lib::lemma_sorted_unique(ascending(values), ascending(others), leq);
}

} // verus!
