//! Gathering the values that a sequence of optional picks holds.

use vstd::prelude::*;

verus! {

/// The values of `picks`, in order, without the gaps.
pub open spec fn collect_some<T>(picks: Seq<Option<T>>) -> Seq<T>
    decreases picks.len(),
{
    if picks.len() == 0 {
        Seq::<T>::empty()
    } else {
        let before = collect_some(picks.drop_last());
        match picks.last() {
            Some(x) => before.push(x),
            None => before,
        }
    }
}

/// The values of `picks`, each once, in the order of their first occurrence.
pub open spec fn collect_distinct<T>(picks: Seq<Option<T>>) -> Seq<T>
    decreases picks.len(),
{
    if picks.len() == 0 {
        Seq::<T>::empty()
    } else {
        let before = collect_distinct(picks.drop_last());
        match picks.last() {
            Some(x) => if before.contains(x) {
                before
            } else {
                before.push(x)
            },
            None => before,
        }
    }
}

/// The values that `items` hold, place by place.
pub open spec fn values_of<T>(items: Seq<Option<T>>) -> Seq<T> {
    Seq::new(items.len(), |i: int| items[i]->0)
}

/// The values of `items` if none is missing, and `None` if one is.
pub open spec fn all_or_none<T>(items: Seq<Option<T>>) -> Option<Seq<T>> {
    if forall|i: int| 0 <= i < items.len() ==> (#[trigger] items[i]) is Some {
        Some(values_of(items))
    } else {
        None
    }
}

/// Whether `x` stands at exactly one place of `s`.
pub open spec fn occurs_once<T>(s: Seq<T>, x: T) -> bool {
    exists|k: int|
        0 <= k < s.len() && #[trigger] s[k] == x && forall|m: int|
            0 <= m < s.len() && #[trigger] s[m] == x ==> m == k
}

/// Whether no value occurs at two places of `picks`.
pub open spec fn picks_distinct<T>(picks: Seq<Option<T>>) -> bool {
    forall|i: int, j: int|
        0 <= i < j < picks.len() && picks[i] is Some ==> #[trigger] picks[i] != #[trigger] picks[j]
}

/// Gathering keeps exactly the values that were picked.
pub proof fn lemma_collect_some_contains<T>(picks: Seq<Option<T>>, x: T)
    ensures
        collect_some(picks).contains(x) <==> picks.contains(Some(x)),
    decreases picks.len(),
{
    if picks.len() > 0 {
        let front = picks.drop_last();
        let before = collect_some(front);
        lemma_collect_some_contains(front, x);
        if picks.contains(Some(x)) {
            let i = choose|i: int| 0 <= i < picks.len() && picks[i] == Some(x);
            if i < picks.len() - 1 {
                assert(front[i] == Some(x));
                let k = choose|k: int| 0 <= k < before.len() && before[k] == x;
                assert(collect_some(picks)[k] == x);
            } else {
                assert(collect_some(picks).last() == x);
            }
        }
        if collect_some(picks).contains(x) {
            let all = collect_some(picks);
            let k = choose|k: int| 0 <= k < all.len() && all[k] == x;
            if k < before.len() {
                assert(before[k] == x);
                let i = choose|i: int| 0 <= i < front.len() && front[i] == Some(x);
                assert(picks[i] == Some(x));
            } else {
                assert(picks[picks.len() - 1] == Some(x));
            }
        }
    }
}

/// Where no value was picked twice, none is gathered twice.
pub proof fn lemma_collect_some_no_duplicates<T>(picks: Seq<Option<T>>)
    requires
        picks_distinct(picks),
    ensures
        collect_some(picks).no_duplicates(),
    decreases picks.len(),
{
    if picks.len() > 0 {
        let front = picks.drop_last();
        let before = collect_some(front);
        assert(picks_distinct(front)) by {
            assert forall|i: int, j: int|
                0 <= i < j < front.len() && front[i] is Some implies #[trigger] front[i]
                != #[trigger] front[j] by {
                assert(picks[i] != picks[j]);
            }
        }
        lemma_collect_some_no_duplicates(front);
        match picks.last() {
            Some(x) => {
                lemma_collect_some_contains(front, x);
                if front.contains(Some(x)) {
                    let i = choose|i: int| 0 <= i < front.len() && front[i] == Some(x);
                    assert(picks[i] != picks[picks.len() - 1]);
                }
                assert(!before.contains(x));
                assert forall|i: int, j: int|
                    0 <= i < before.len() + 1 && 0 <= j < before.len() + 1 && i
                        != j implies before.push(x)[i] != before.push(x)[j] by {
                    if i < before.len() && j < before.len() {
                    } else if i < before.len() {
                        assert(before[i] != x);
                    } else {
                        assert(before[j] != x);
                    }
                }
            },
            None => {},
        }
    }
}

/// Gathering each value once keeps exactly the values that were picked.
pub proof fn lemma_collect_distinct_contains<T>(picks: Seq<Option<T>>, x: T)
    ensures
        collect_distinct(picks).contains(x) <==> picks.contains(Some(x)),
    decreases picks.len(),
{
    if picks.len() > 0 {
        let front = picks.drop_last();
        let before = collect_distinct(front);
        let all = collect_distinct(picks);
        lemma_collect_distinct_contains(front, x);
        if picks.contains(Some(x)) {
            let i = choose|i: int| 0 <= i < picks.len() && picks[i] == Some(x);
            if i < picks.len() - 1 {
                assert(front[i] == Some(x));
                let k = choose|k: int| 0 <= k < before.len() && before[k] == x;
                assert(all[k] == x);
            } else if !before.contains(x) {
                assert(all.last() == x);
            } else {
                assert(all == before);
            }
        }
        if all.contains(x) {
            let k = choose|k: int| 0 <= k < all.len() && all[k] == x;
            if k < before.len() {
                assert(before[k] == x);
                let i = choose|i: int| 0 <= i < front.len() && front[i] == Some(x);
                assert(picks[i] == Some(x));
            } else {
                assert(picks[picks.len() - 1] == Some(x));
            }
        }
    }
}

/// Gathering each value once yields no value twice.
pub proof fn lemma_collect_distinct_no_duplicates<T>(picks: Seq<Option<T>>)
    ensures
        collect_distinct(picks).no_duplicates(),
    decreases picks.len(),
{
    if picks.len() > 0 {
        let before = collect_distinct(picks.drop_last());
        lemma_collect_distinct_no_duplicates(picks.drop_last());
        match picks.last() {
            Some(x) => {
                if !before.contains(x) {
                    assert forall|i: int, j: int|
                        0 <= i < before.len() + 1 && 0 <= j < before.len() + 1 && i
                            != j implies before.push(x)[i] != before.push(x)[j] by {
                        if i < before.len() && j < before.len() {
                        } else if i < before.len() {
                            assert(before[i] != x);
                        } else {
                            assert(before[j] != x);
                        }
                    }
                }
            },
            None => {},
        }
    }
}

/// A place at which nothing was picked can be left out.
pub proof fn lemma_collect_distinct_without_gap<T>(picks: Seq<Option<T>>, at: int)
    requires
        0 <= at < picks.len(),
        picks[at] is None,
    ensures
        collect_distinct(picks.remove(at)) == collect_distinct(picks),
    decreases picks.len(),
{
    if at == picks.len() - 1 {
        assert(picks.remove(at) =~= picks.drop_last());
    } else {
        lemma_collect_distinct_without_gap(picks.drop_last(), at);
        assert(picks.remove(at).drop_last() =~= picks.drop_last().remove(at));
        assert(picks.remove(at).last() == picks.last());
    }
}

/// A value without duplicates around it that occurs at all occurs once.
pub proof fn lemma_occurs_once<T>(s: Seq<T>, x: T)
    requires
        s.no_duplicates(),
        s.contains(x),
    ensures
        occurs_once(s, x),
{
    let k = choose|k: int| 0 <= k < s.len() && s[k] == x;
    assert(s[k] == x);
}

/// A value that was picked, however often, is gathered exactly once.
pub proof fn lemma_collect_distinct_once<T>(picks: Seq<Option<T>>, x: T)
    requires
        picks.contains(Some(x)),
    ensures
        occurs_once(collect_distinct(picks), x),
{
    lemma_collect_distinct_contains(picks, x);
    lemma_collect_distinct_no_duplicates(picks);
    lemma_occurs_once(collect_distinct(picks), x);
}

/// Where nothing is missing, gathering passes nothing over.
pub proof fn lemma_collect_some_of_all<T>(items: Seq<Option<T>>)
    requires
        all_or_none(items) is Some,
    ensures
        collect_some(items) == values_of(items),
    decreases items.len(),
{
    if items.len() == 0 {
        assert(collect_some(items) =~= values_of(items));
    } else {
        let front = items.drop_last();
        assert forall|i: int| 0 <= i < front.len() implies (#[trigger] front[i]) is Some by {
            assert(items[i] is Some);
        }
        lemma_collect_some_of_all(front);
        assert(items[items.len() - 1] is Some);
        assert(collect_some(items) =~= values_of(items));
    }
}

} // verus!
