//! What hangs on the order of a document's members, and what does not: the
//! numbers that a sum holds are the same however objects list their entries.

use crate::sum_json::{entry_sum, sum_by_key, Sum};
use crate::value::{one_to_one, Json, Number};
use vstd::multiset::Multiset;
use vstd::prelude::*;

verus! {

/// All that the first `upto` of these multisets hold, taken together.
pub open spec fn union_upto(sets: Seq<Multiset<Number>>, upto: nat) -> Multiset<Number>
    decreases upto,
{
    if upto == 0 || upto > sets.len() {
        Multiset::empty()
    } else {
        union_upto(sets, (upto - 1) as nat).add(sets[upto - 1])
    }
}

/// All that these multisets hold, taken together.
pub open spec fn union_all(sets: Seq<Multiset<Number>>) -> Multiset<Number> {
    union_upto(sets, sets.len())
}

impl Sum {
    /// The numbers that the sum holds, each as often as it is added.
    pub open spec fn numbers(self) -> Multiset<Number>
        decreases self, 0nat,
    {
        match self {
            Sum::Zero => Multiset::empty(),
            Sum::Number(n) => Multiset::singleton(n),
            Sum::Parts(parts) => numbers_upto(parts, parts.len()),
        }
    }
}

/// The numbers that the first `upto` of these parts hold.
pub open spec fn numbers_upto(parts: Seq<Sum>, upto: nat) -> Multiset<Number>
    decreases parts, upto,
{
    if upto == 0 || upto > parts.len() {
        Multiset::empty()
    } else {
        numbers_upto(parts, (upto - 1) as nat).add(parts[upto - 1].numbers())
    }
}

/// The union of the first `upto` multisets hangs on those alone.
proof fn lemma_union_upto_of_a_prefix(
    a: Seq<Multiset<Number>>,
    b: Seq<Multiset<Number>>,
    upto: nat,
)
    requires
        upto <= a.len(),
        upto <= b.len(),
        forall|i: int| 0 <= i < upto ==> a[i] == b[i],
    ensures
        union_upto(a, upto) == union_upto(b, upto),
    decreases upto,
{
    if upto > 0 {
        lemma_union_upto_of_a_prefix(a, b, (upto - 1) as nat);
    }
}

/// One more multiset at the end adds what it holds.
proof fn lemma_union_all_push(sets: Seq<Multiset<Number>>, last: Multiset<Number>)
    ensures
        union_all(sets.push(last)) == union_all(sets).add(last),
{
    lemma_union_upto_of_a_prefix(sets.push(last), sets, sets.len());
}

/// The union of two runs, one after the other, is the union of both unions.
proof fn lemma_union_all_concat(a: Seq<Multiset<Number>>, b: Seq<Multiset<Number>>)
    ensures
        union_all(a + b) == union_all(a).add(union_all(b)),
    decreases b.len(),
{
    if b.len() == 0 {
        assert(a + b =~= a);
        assert(union_all(a).add(Multiset::empty()) =~= union_all(a));
    } else {
        let front = b.drop_last();
        assert(a + b =~= (a + front).push(b.last()));
        assert(b =~= front.push(b.last()));
        lemma_union_all_push(a + front, b.last());
        lemma_union_all_push(front, b.last());
        lemma_union_all_concat(a, front);
        assert(union_all(a).add(union_all(front)).add(b.last()) =~= union_all(a).add(
            union_all(front).add(b.last()),
        ));
    }
}

/// Taking one multiset out takes away what it holds.
proof fn lemma_union_all_remove(sets: Seq<Multiset<Number>>, at: int)
    requires
        0 <= at < sets.len(),
    ensures
        union_all(sets) == union_all(sets.remove(at)).add(sets[at]),
{
    let before = sets.subrange(0, at);
    let after = sets.subrange(at + 1, sets.len() as int);
    assert(sets =~= before.push(sets[at]) + after);
    assert(sets.remove(at) =~= before + after);
    lemma_union_all_concat(before.push(sets[at]), after);
    lemma_union_all_concat(before, after);
    lemma_union_all_push(before, sets[at]);
    assert(union_all(before).add(sets[at]).add(union_all(after)) =~= union_all(before).add(
        union_all(after),
    ).add(sets[at]));
}

/// The union of multisets does not hang on their order: where a one-to-one
/// placing sends each multiset of `a` to an equal one of `b`, both unions
/// hold the same.
pub proof fn lemma_union_all_rearranged(
    a: Seq<Multiset<Number>>,
    b: Seq<Multiset<Number>>,
    place: Seq<int>,
)
    requires
        a.len() == b.len(),
        one_to_one(place, a.len()),
        forall|i: int| 0 <= i < a.len() ==> a[i] == b[#[trigger] place[i]],
    ensures
        union_all(a) == union_all(b),
    decreases a.len(),
{
    if a.len() > 0 {
        let last = a.len() - 1;
        let at = place[last];
        let shorter_a = a.drop_last();
        let shorter_b = b.remove(at);
        let shorter_place = Seq::new(
            last as nat,
            |i: int|
                if place[i] < at {
                    place[i]
                } else {
                    place[i] - 1
                },
        );
        assert forall|i: int| 0 <= i < last implies 0 <= #[trigger] shorter_place[i] < last
            && shorter_a[i] == shorter_b[shorter_place[i]] by {
            assert(place[i] != place[last]);
            assert(a[i] == b[place[i]]);
        }
        assert forall|i: int, j: int| 0 <= i < j < last implies #[trigger] shorter_place[i]
            != #[trigger] shorter_place[j] by {
            assert(place[i] != place[j]);
            assert(place[i] != place[last]);
            assert(place[j] != place[last]);
        }
        lemma_union_all_rearranged(shorter_a, shorter_b, shorter_place);
        assert(a =~= shorter_a.push(a[last]));
        lemma_union_all_push(shorter_a, a[last]);
        lemma_union_all_remove(b, at);
    }
}

/// The multisets that the parts of a sum hold, part by part.
pub open spec fn numbers_of_parts(parts: Seq<Sum>) -> Seq<Multiset<Number>> {
    Seq::new(parts.len(), |i: int| parts[i].numbers())
}

/// The first parts of a sum hold what their multisets hold, taken together.
proof fn lemma_numbers_upto_is_a_union(parts: Seq<Sum>, upto: nat)
    requires
        upto <= parts.len(),
    ensures
        numbers_upto(parts, upto) == union_upto(numbers_of_parts(parts), upto),
    decreases upto,
{
    if upto > 0 {
        lemma_numbers_upto_is_a_union(parts, (upto - 1) as nat);
    }
}

/// A sum of parts holds what its parts hold, taken together.
pub proof fn lemma_numbers_of_a_sum_of_parts(parts: Seq<Sum>)
    ensures
        Sum::Parts(parts).numbers() == union_all(numbers_of_parts(parts)),
{
    lemma_numbers_upto_is_a_union(parts, parts.len());
}

/// Every tree is itself, up to the order of entries.
pub proof fn lemma_same_up_to_entry_order_reflexive(value: Json)
    ensures
        value.same_up_to_entry_order(value),
    decreases value,
{
    match value {
        Json::Array(items) => {
            assert forall|i: int| 0 <= i < items.len() implies (#[trigger] items[i])
                .same_up_to_entry_order(items[i]) by {
                lemma_same_up_to_entry_order_reflexive(items[i]);
            }
        },
        Json::Object(entries) => {
            let place = Seq::new(entries.len(), |i: int| i);
            assert(one_to_one(place, entries.len()));
            assert forall|i: int| 0 <= i < entries.len() implies (#[trigger] entries[i]).0
                == entries[place[i]].0 && entries[i].1.same_up_to_entry_order(
                entries[place[i]].1,
            ) by {
                lemma_same_up_to_entry_order_reflexive(entries[i].1);
            }
        },
        _ => {},
    }
}

/// However the objects of a document list their entries, the same numbers
/// count for a search key, each as often: two trees that are the same up to
/// the order of entries give sums that hold the same numbers.
pub proof fn lemma_entry_order_keeps_the_numbers(search_key: Seq<char>, value: Json, other: Json)
    requires
        value.same_up_to_entry_order(other),
    ensures
        sum_by_key(search_key, value).numbers() == sum_by_key(search_key, other).numbers(),
    decreases value,
{
    match value {
        Json::Array(items) => {
            let others = other->Array_0;
            let parts = sum_by_key(search_key, value)->Parts_0;
            let other_parts = sum_by_key(search_key, other)->Parts_0;
            assert forall|i: int| 0 <= i < items.len() implies numbers_of_parts(parts)[i]
                == numbers_of_parts(other_parts)[i] by {
                assert(items[i].same_up_to_entry_order(others[i]));
                lemma_entry_order_keeps_the_numbers(search_key, items[i], others[i]);
            }
            assert(numbers_of_parts(parts) =~= numbers_of_parts(other_parts));
            lemma_numbers_of_a_sum_of_parts(parts);
            lemma_numbers_of_a_sum_of_parts(other_parts);
        },
        Json::Object(entries) => {
            let others = other->Object_0;
            let place = choose|place: Seq<int>|
                #[trigger] one_to_one(place, entries.len()) && forall|i: int|
                    0 <= i < entries.len() ==> (#[trigger] entries[i]).0 == others[place[i]].0
                        && entries[i].1.same_up_to_entry_order(others[place[i]].1);
            let parts = sum_by_key(search_key, value)->Parts_0;
            let other_parts = sum_by_key(search_key, other)->Parts_0;
            assert forall|i: int| 0 <= i < entries.len() implies numbers_of_parts(parts)[i]
                == numbers_of_parts(other_parts)[#[trigger] place[i]] by {
                let entry = entries[i];
                let placed = others[place[i]];
                assert(entry.0 == placed.0 && entry.1.same_up_to_entry_order(placed.1));
                assert(parts[i] == entry_sum(search_key, entry.0, entry.1));
                assert(other_parts[place[i]] == entry_sum(search_key, placed.0, placed.1));
                lemma_entry_order_keeps_the_numbers(search_key, entry.1, placed.1);
            }
            lemma_union_all_rearranged(
                numbers_of_parts(parts),
                numbers_of_parts(other_parts),
                place,
            );
            lemma_numbers_of_a_sum_of_parts(parts);
            lemma_numbers_of_a_sum_of_parts(other_parts);
        },
        _ => {},
    }
}

/// The elements of an array may come in any order: the same numbers count,
/// each as often.
pub proof fn lemma_array_order_keeps_the_numbers(
    search_key: Seq<char>,
    items: Seq<Json>,
    others: Seq<Json>,
    place: Seq<int>,
)
    requires
        items.len() == others.len(),
        one_to_one(place, items.len()),
        forall|i: int| 0 <= i < items.len() ==> items[i] == others[#[trigger] place[i]],
    ensures
        sum_by_key(search_key, Json::Array(items)).numbers() == sum_by_key(
            search_key,
            Json::Array(others),
        ).numbers(),
{
    let parts = sum_by_key(search_key, Json::Array(items))->Parts_0;
    let other_parts = sum_by_key(search_key, Json::Array(others))->Parts_0;
    assert forall|i: int| 0 <= i < items.len() implies numbers_of_parts(parts)[i]
        == numbers_of_parts(other_parts)[#[trigger] place[i]] by {
        assert(items[i] == others[place[i]]);
    }
    lemma_union_all_rearranged(numbers_of_parts(parts), numbers_of_parts(other_parts), place);
    lemma_numbers_of_a_sum_of_parts(parts);
    lemma_numbers_of_a_sum_of_parts(other_parts);
}

/// How the parts of a sum are grouped changes nothing of the numbers it
/// holds: two sums side by side hold what one sum of all their parts holds.
pub proof fn lemma_grouping_keeps_the_numbers(first: Seq<Sum>, second: Seq<Sum>)
    ensures
        Sum::Parts(seq![Sum::Parts(first), Sum::Parts(second)]).numbers() == Sum::Parts(
            first + second,
        ).numbers(),
        Sum::Parts(first + second).numbers() == Sum::Parts(first).numbers().add(
            Sum::Parts(second).numbers(),
        ),
{
    let pair = seq![Sum::Parts(first), Sum::Parts(second)];
    lemma_numbers_of_a_sum_of_parts(pair);
    lemma_numbers_of_a_sum_of_parts(first);
    lemma_numbers_of_a_sum_of_parts(second);
    lemma_numbers_of_a_sum_of_parts(first + second);
    assert(numbers_of_parts(first + second) =~= numbers_of_parts(first) + numbers_of_parts(
        second,
    ));
    lemma_union_all_concat(numbers_of_parts(first), numbers_of_parts(second));
    let sets = numbers_of_parts(pair);
    assert(sets =~= seq![Sum::Parts(first).numbers()].push(Sum::Parts(second).numbers()));
    lemma_union_all_push(seq![Sum::Parts(first).numbers()], Sum::Parts(second).numbers());
    assert(seq![Sum::Parts(first).numbers()] =~= Seq::<Multiset<Number>>::empty().push(
        Sum::Parts(first).numbers(),
    ));
    lemma_union_all_push(Seq::<Multiset<Number>>::empty(), Sum::Parts(first).numbers());
    assert(Multiset::<Number>::empty().add(Sum::Parts(first).numbers()) =~= Sum::Parts(
        first,
    ).numbers());
}

/// A sum holds no number exactly where it is blank.
pub proof fn lemma_blank_holds_no_number(sum: Sum)
    ensures
        sum.is_blank() <==> sum.numbers() == Multiset::<Number>::empty(),
    decreases sum,
{
    match sum {
        Sum::Zero => {},
        Sum::Number(n) => {
            assert(Multiset::singleton(n).count(n) == 1);
        },
        Sum::Parts(parts) => {
            lemma_blank_upto(parts, parts.len());
        },
    }
}

/// The first parts of a sum hold no number exactly where each of them is
/// blank.
proof fn lemma_blank_upto(parts: Seq<Sum>, upto: nat)
    requires
        upto <= parts.len(),
    ensures
        (forall|i: int| 0 <= i < upto ==> (#[trigger] parts[i]).is_blank()) <==> numbers_upto(
            parts,
            upto,
        ) == Multiset::<Number>::empty(),
    decreases parts, upto,
{
    if upto > 0 {
        let before = numbers_upto(parts, (upto - 1) as nat);
        let last = parts[upto - 1].numbers();
        lemma_blank_upto(parts, (upto - 1) as nat);
        lemma_blank_holds_no_number(parts[upto - 1]);
        if before.add(last) == Multiset::<Number>::empty() {
            assert forall|n: Number| before.count(n) == 0 && last.count(n) == 0 by {
                assert(before.add(last).count(n) == 0);
            }
            assert(before =~= Multiset::empty());
            assert(last =~= Multiset::empty());
        }
        if before == Multiset::<Number>::empty() && last == Multiset::<Number>::empty() {
            assert(before.add(last) =~= Multiset::empty());
        }
    }
}

} // verus!
