//! The sorted page index: every page of a run, latest first.

use vstd::prelude::*;
use crate::date::{lemma_date_determined, Date};
use crate::page::{dates_of, Page};

verus! {

/// Whether the page at `a` stands before the page at `b` in the index: a
/// later date comes first, and of two pages of one date the one that was
/// discovered first.
pub open spec fn precedes(dates: Seq<Date>, a: int, b: int) -> bool {
    dates[a].later_than(dates[b]) || (dates[a] == dates[b] && a < b)
}

/// Whether `order` lists the positions of all `dates`, each once, so that
/// every position stands before all that follow it.
pub open spec fn is_sorted_index(dates: Seq<Date>, order: Seq<usize>) -> bool {
    &&& order.len() == dates.len()
    &&& forall|i: int| 0 <= i < order.len() ==> 0 <= #[trigger] order[i] < dates.len()
    &&& forall|k: usize| k < dates.len() ==> order.contains(k)
    &&& forall|i: int, j: int|
        0 <= i < j < order.len() ==> precedes(dates, #[trigger] order[i] as int, #[trigger] order[j] as int)
}

/// The positions of `pages`, ordered by date with the latest first; pages of
/// one date keep the order in which they stand in `pages`.
pub fn sorted_index(pages: &Vec<Page>) -> (order: Vec<usize>)
    ensures
        is_sorted_index(dates_of(pages@), order@),
{
    let ghost dates = dates_of(pages@);
    let mut order: Vec<usize> = Vec::new();
    let mut next: usize = 0;
    while next < pages.len()
        invariant
            next <= pages.len(),
            dates == dates_of(pages@),
            order@.len() == next,
            forall|i: int| 0 <= i < order@.len() ==> 0 <= #[trigger] order@[i] < next,
            forall|k: usize| k < next ==> order@.contains(k),
            forall|i: int, j: int|
                0 <= i < j < order@.len() ==> precedes(
                    dates,
                    #[trigger] order@[i] as int,
                    #[trigger] order@[j] as int,
                ),
        decreases pages.len() - next,
    {
        let date = pages[next].metadata.date;
        let mut at: usize = 0;
        while at < order.len() && !date.is_later_than(&pages[order[at]].metadata.date)
            invariant
                at <= order@.len(),
                next < pages.len(),
                dates == dates_of(pages@),
                date == dates[next as int],
                forall|i: int| 0 <= i < order@.len() ==> 0 <= #[trigger] order@[i] < next,
                forall|i: int|
                    0 <= i < at ==> !date.later_than(dates[#[trigger] order@[i] as int]),
            decreases order@.len() - at,
        {
            at = at + 1;
        }
        let ghost before = order@;
        order.insert(at, next);
        proof {
            assert forall|k: usize| k < next + 1 implies order@.contains(k) by {
                if k < next {
                    assert(before.contains(k));
                    let i = choose|i: int| 0 <= i < before.len() && before[i] == k;
                    if i < at {
                        assert(order@[i] == k);
                    } else {
                        assert(order@[i + 1] == k);
                    }
                } else {
                    assert(order@[at as int] == k);
                }
            }
            assert forall|i: int, j: int| 0 <= i < j < order@.len() implies precedes(
                dates,
                #[trigger] order@[i] as int,
                #[trigger] order@[j] as int,
            ) by {
                let a = order@[i] as int;
                let b = order@[j] as int;
                if j < at {
                    assert(order@[i] == before[i] && order@[j] == before[j]);
                } else if j == at {
                    assert(order@[i] == before[i]);
                    assert(!date.later_than(dates[a]));
                    if !dates[a].later_than(date) {
                        lemma_date_determined(dates[a], date);
                    }
                } else if i < at {
                    assert(order@[i] == before[i] && order@[j] == before[j - 1]);
                } else if i == at {
                    assert(order@[j] == before[j - 1]);
                    assert(date.later_than(dates[before[at as int] as int]));
                    if j - 1 > at {
                        assert(precedes(dates, before[at as int] as int, before[j - 1] as int));
                    }
                } else {
                    assert(order@[i] == before[i - 1] && order@[j] == before[j - 1]);
                }
            }
        }
        next = next + 1;
    }
    order
}

/// Two sorted indexes of the same dates agree below `upto`.
proof fn lemma_agree_below(dates: Seq<Date>, one: Seq<usize>, other: Seq<usize>, upto: int)
    requires
        is_sorted_index(dates, one),
        is_sorted_index(dates, other),
        0 <= upto <= dates.len(),
    ensures
        forall|i: int| 0 <= i < upto ==> one[i] == other[i],
    decreases upto,
{
    if upto > 0 {
        lemma_agree_below(dates, one, other, upto - 1);
        let i = upto - 1;
        let x = one[i];
        let y = other[i];
        if x != y {
            assert(other.contains(x));
            assert(one.contains(y));
            let jx = choose|j: int| 0 <= j < other.len() && other[j] == x;
            let jy = choose|j: int| 0 <= j < one.len() && one[j] == y;
            if !dates[x as int].later_than(dates[y as int]) && !dates[y as int].later_than(
                dates[x as int],
            ) {
                lemma_date_determined(dates[x as int], dates[y as int]);
            }
            if precedes(dates, x as int, y as int) {
                if jx < i {
                    assert(precedes(dates, one[jx] as int, one[i] as int));
                } else {
                    assert(precedes(dates, other[i] as int, other[jx] as int));
                }
            } else {
                assert(precedes(dates, y as int, x as int));
                if jy < i {
                    assert(precedes(dates, other[jy] as int, other[i] as int));
                } else {
                    assert(precedes(dates, one[i] as int, one[jy] as int));
                }
            }
        }
    }
}

/// The dates decide their sorted index: there is only one.
pub proof fn lemma_sorted_index_unique(dates: Seq<Date>, one: Seq<usize>, other: Seq<usize>)
    requires
        is_sorted_index(dates, one),
        is_sorted_index(dates, other),
    ensures
        one == other,
{
    lemma_agree_below(dates, one, other, dates.len() as int);
    assert(one =~= other);
}

/// In a sorted index no date is followed by a later one, and of two pages
/// of one date the one that was discovered first comes first.
pub proof fn lemma_sorted_index_descends(dates: Seq<Date>, order: Seq<usize>, i: int, j: int)
    requires
        is_sorted_index(dates, order),
        0 <= i < j < order.len(),
    ensures
        !dates[order[j] as int].later_than(dates[order[i] as int]),
        dates[order[i] as int] == dates[order[j] as int] ==> order[i] < order[j],
        order[i] != order[j],
{
    assert(precedes(dates, order[i] as int, order[j] as int));
}

} // verus!
