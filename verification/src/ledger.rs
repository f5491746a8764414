//! The order in which a ledger of transactions is replayed: by date, and
//! among transactions of the same date, in the order they were entered.
use vstd::prelude::*;
use vstd::set_lib::{lemma_int_range, lemma_subset_equality, set_int_range};
use crate::text::{
    chars_of, lemma_less_total, lemma_less_asymmetric, lemma_less_irreflexive, lemma_not_less_chain, seq_less,
    text_less,
};

verus! {

/// Entry `a` is replayed before entry `b`: its date comes first, or the
/// dates are the same and it was entered first.
pub open spec fn entry_before(dates: Seq<String>, a: int, b: int) -> bool {
    ||| seq_less(dates[a]@, dates[b]@)
    ||| (dates[a]@ == dates[b]@ && a < b)
}

/// `order` lists every entry of `dates` once, in replay order.
pub open spec fn is_chronological_order(dates: Seq<String>, order: Seq<usize>) -> bool {
    &&& order.len() == dates.len()
    &&& forall|i: int| 0 <= i < order.len() ==> #[trigger] order[i] < dates.len()
    &&& forall|i: int, j: int|
        0 <= i < j < order.len() ==> #[trigger] entry_before(
            dates,
            order[i] as int,
            order[j] as int,
        )
}

/// The positions of `dates` in replay order: sorted by date, with entries
/// of the same date kept in the order they were given (a stable sort).
pub fn chronological_order(dates: &Vec<String>) -> (order: Vec<usize>)
    ensures
        is_chronological_order(dates@, order@),
        order@.len() == dates@.len(),
        forall|i: int| 0 <= i < order@.len() ==> #[trigger] order@[i] < dates@.len(),
        forall|i: int, j: int|
            #![trigger order@[i], order@[j]]
            0 <= i < j < order@.len() ==> !seq_less(
                dates@[order@[j] as int]@,
                dates@[order@[i] as int]@,
            ) && (dates@[order@[i] as int]@ == dates@[order@[j] as int]@ ==> order@[i] < order@[j])
                && order@[i] != order@[j],
{
    let n: usize = dates.len();
    let mut keys: Vec<Vec<char>> = Vec::new();
    for k in 0..n
        invariant
            n == dates@.len(),
            keys@.len() == k,
            forall|m: int| 0 <= m < k ==> #[trigger] keys@[m]@ == dates@[m]@,
    {
        keys.push(chars_of(dates[k].as_str()));
    }
    let mut order: Vec<usize> = Vec::new();
    for k in 0..n
        invariant
            n == dates@.len(),
            keys@.len() == n,
            forall|m: int| 0 <= m < n ==> #[trigger] keys@[m]@ == dates@[m]@,
            order@.len() == k,
            forall|i: int| 0 <= i < k ==> #[trigger] order@[i] < k,
            forall|i: int, j: int|
                0 <= i < j < k ==> #[trigger] entry_before(
                    dates@,
                    order@[i] as int,
                    order@[j] as int,
                ),
    {
        let mut p: usize = k;
        while p > 0 && text_less(&keys[k], &keys[order[p - 1]])
            invariant
                0 <= p <= k < n,
                n == dates@.len(),
                keys@.len() == n,
                forall|m: int| 0 <= m < n ==> #[trigger] keys@[m]@ == dates@[m]@,
                order@.len() == k,
                forall|i: int| 0 <= i < k ==> #[trigger] order@[i] < k,
                forall|m: int|
                    p <= m < k ==> seq_less(dates@[k as int]@, dates@[#[trigger] order@[m] as int]@),
            decreases p,
        {
            p = p - 1;
        }
        let ghost old_order = order@;
        let ghost dk = dates@[k as int]@;
        order.insert(p, k);
        proof {
            old_order.insert_ensures(p as int, k);
            assert forall|i: int, j: int| 0 <= i < j < k + 1 implies #[trigger] entry_before(
                dates@,
                order@[i] as int,
                order@[j] as int,
            ) by {
                if j < p {
                    assert(order@[i] == old_order[i] && order@[j] == old_order[j]);
                } else if j == p {
                    let a: int = old_order[p - 1] as int;
                    let b: int = old_order[i] as int;
                    assert(!seq_less(dk, dates@[a]@));
                    if i < p - 1 {
                        assert(entry_before(dates@, b, a));
                        lemma_less_asymmetric(dates@[b]@, dates@[a]@);
                        lemma_less_irreflexive(dates@[a]@);
                        lemma_not_less_chain(dk, dates@[a]@, dates@[b]@);
                    }
                    crate::text::lemma_less_total(dk, dates@[b]@);
                    assert(order@[i] == old_order[i]);
                } else if i == p {
                    assert(order@[j] == old_order[j - 1]);
                } else if i < p {
                    assert(order@[i] == old_order[i] && order@[j] == old_order[j - 1]);
                } else {
                    assert(order@[i] == old_order[i - 1] && order@[j] == old_order[j - 1]);
                }
            }
            assert forall|i: int| 0 <= i < k + 1 implies #[trigger] order@[i] < k + 1 by {
                if i < p {
                    assert(order@[i] == old_order[i]);
                } else if i > p {
                    assert(order@[i] == old_order[i - 1]);
                }
            }
        }
    }
    proof {
        assert forall|i: int, j: int|
            #![trigger order@[i], order@[j]]
            0 <= i < j < order@.len() implies !seq_less(
            dates@[order@[j] as int]@,
            dates@[order@[i] as int]@,
        ) && (dates@[order@[i] as int]@ == dates@[order@[j] as int]@ ==> order@[i] < order@[j])
            && order@[i] != order@[j] by {
            assert(entry_before(dates@, order@[i] as int, order@[j] as int));
            lemma_entry_before_strict(dates@, order@[i] as int, order@[j] as int);
            lemma_less_asymmetric(dates@[order@[i] as int]@, dates@[order@[j] as int]@);
            lemma_less_irreflexive(dates@[order@[i] as int]@);
        }
    }
    order
}


proof fn lemma_entry_before_strict(dates: Seq<String>, a: int, b: int)
    ensures
        !entry_before(dates, a, a),
        entry_before(dates, a, b) ==> !entry_before(dates, b, a),
        a != b ==> entry_before(dates, a, b) || entry_before(dates, b, a),
{
    lemma_less_irreflexive(dates[a]@);
    lemma_less_irreflexive(dates[b]@);
    lemma_less_asymmetric(dates[a]@, dates[b]@);
    lemma_less_total(dates[a]@, dates[b]@);
}

proof fn lemma_order_lists_every_entry(dates: Seq<String>, order: Seq<usize>, x: int)
    requires
        is_chronological_order(dates, order),
        0 <= x < dates.len(),
    ensures
        exists|i: int| 0 <= i < order.len() && order[i] == x,
{
    let s = order.map_values(|v: usize| v as int);
    assert forall|i: int, j: int| 0 <= i < s.len() && 0 <= j < s.len() && i != j implies s[i]
        != s[j] by {
        if i < j {
            assert(entry_before(dates, order[i] as int, order[j] as int));
            lemma_entry_before_strict(dates, order[i] as int, order[j] as int);
        } else {
            assert(entry_before(dates, order[j] as int, order[i] as int));
            lemma_entry_before_strict(dates, order[j] as int, order[i] as int);
        }
    }
    assert(s.no_duplicates());
    s.unique_seq_to_set();
    lemma_int_range(0, dates.len() as int);
    assert forall|v: int| s.to_set().contains(v) implies set_int_range(
        0,
        dates.len() as int,
    ).contains(v) by {
        let i: int = choose|i: int| 0 <= i < s.len() && s[i] == v;
        assert(order[i] < dates.len());
    }
    lemma_subset_equality(s.to_set(), set_int_range(0, dates.len() as int));
    assert(set_int_range(0, dates.len() as int).contains(x));
    assert(s.to_set().contains(x));
    let i: int = choose|i: int| 0 <= i < s.len() && s[i] == x;
    assert(order[i] == x);
}

/// The replay order of a ledger is decided by its dates alone: any two
/// orders that both replay it chronologically are the same.
pub proof fn lemma_chronological_order_unique(dates: Seq<String>, o1: Seq<usize>, o2: Seq<usize>)
    requires
        is_chronological_order(dates, o1),
        is_chronological_order(dates, o2),
    ensures
        o1 == o2,
{
    if exists|i: int| 0 <= i < o1.len() && o1[i] != o2[i] {
        let k: int = choose|i: int| 0 <= i < o1.len() && o1[i] != o2[i];
        let first: int = lemma_first_difference(o1, o2, k);
        let a: int = o1[first] as int;
        let b: int = o2[first] as int;
        lemma_entry_before_strict(dates, a, b);
        lemma_entry_before_strict(dates, b, a);
        if entry_before(dates, a, b) {
            lemma_order_lists_every_entry(dates, o2, a);
            let j: int = choose|j: int| 0 <= j < o2.len() && o2[j] == a;
            if j < first {
                assert(o1[j] == a);
                assert(entry_before(dates, o1[j] as int, o1[first] as int));
            } else {
                assert(entry_before(dates, o2[first] as int, o2[j] as int));
            }
        } else {
            lemma_order_lists_every_entry(dates, o1, b);
            let j: int = choose|j: int| 0 <= j < o1.len() && o1[j] == b;
            if j < first {
                assert(o2[j] == b);
                assert(entry_before(dates, o2[j] as int, o2[first] as int));
            } else {
                assert(entry_before(dates, o1[first] as int, o1[j] as int));
            }
        }
    }
    assert(o1 =~= o2);
}

/// The first position at which two sequences of the same length differ,
/// given one position where they do.
proof fn lemma_first_difference(o1: Seq<usize>, o2: Seq<usize>, k: int) -> (f: int)
    requires
        o1.len() == o2.len(),
        0 <= k < o1.len(),
        o1[k] != o2[k],
    ensures
        0 <= f <= k,
        o1[f] != o2[f],
        forall|j: int| 0 <= j < f ==> o1[j] == o2[j],
    decreases k,
{
    if exists|j: int| 0 <= j < k && o1[j] != o2[j] {
        let j: int = choose|j: int| 0 <= j < k && o1[j] != o2[j];
        lemma_first_difference(o1, o2, j)
    } else {
        k
    }
}

} // verus!
