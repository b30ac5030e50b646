//! Rankings by count: descending, size-bounded, and stable, so that entries
//! with equal counts stay in the order in which they were discovered.

use crate::sequences::lemma_filter_none;
use vstd::prelude::*;

verus! {

/// Something that carries the count it is ranked by.
pub trait Counted: Sized {
    /// The count, as contracts speak of it.
    spec fn tally(&self) -> u32;

    /// The count.
    fn count(&self) -> (c: u32)
        ensures
            c == self.tally(),
    ;
}

/// Where an entry with count `c` goes in `ranked`, searching from `from`:
/// behind every entry whose count is at least `c`, up to the first entry
/// with a smaller count.
pub open spec fn slot<T: Counted>(ranked: Seq<T>, c: u32, from: int) -> int
    decreases ranked.len() - from,
{
    if 0 <= from < ranked.len() && ranked[from].tally() >= c {
        slot(ranked, c, from + 1)
    } else {
        from
    }
}

/// `ranked` with `item` placed behind the entries that rank at least as
/// high.
pub open spec fn placed<T: Counted>(ranked: Seq<T>, item: T) -> Seq<T> {
    ranked.insert(slot(ranked, item.tally(), 0), item)
}

/// The entries of `items` by descending count; among equal counts, in the
/// order of `items`.
pub open spec fn ranked<T: Counted>(items: Seq<T>) -> Seq<T>
    decreases items.len(),
{
    if items.len() == 0 {
        Seq::empty()
    } else {
        placed(ranked(items.drop_last()), items.last())
    }
}

/// The first `k` entries of the ranking of `items`.
pub open spec fn top<T: Counted>(items: Seq<T>, k: nat) -> Seq<T> {
    let all = ranked(items);
    if k < all.len() {
        all.take(k as int)
    } else {
        all
    }
}

/// Counts never increase from one entry to the next.
pub open spec fn descending<T: Counted>(s: Seq<T>) -> bool {
    forall|i: int, j: int| 0 <= i <= j < s.len() ==> s[i].tally() >= s[j].tally()
}

/// The test for having the count `c`.
pub open spec fn has_count<T: Counted>(c: u32) -> spec_fn(T) -> bool {
    |e: T| e.tally() == c
}

/// The entries of `s` whose count is `c`, in order.
pub open spec fn with_count<T: Counted>(s: Seq<T>, c: u32) -> Seq<T> {
    s.filter(has_count(c))
}

pub proof fn lemma_slot_bounds<T: Counted>(s: Seq<T>, c: u32, from: int)
    requires
        0 <= from <= s.len(),
    ensures
        from <= slot(s, c, from) <= s.len(),
        forall|i: int| from <= i < slot(s, c, from) ==> s[i].tally() >= c,
        slot(s, c, from) < s.len() ==> s[slot(s, c, from)].tally() < c,
    decreases s.len() - from,
{
    if from < s.len() && s[from].tally() >= c {
        lemma_slot_bounds(s, c, from + 1);
    }
}

/// The slot is fixed by the entries in front of it.
proof fn lemma_slot_unique<T: Counted>(s: Seq<T>, c: u32, from: int, p: int)
    requires
        0 <= from <= p <= s.len(),
        forall|i: int| from <= i < p ==> s[i].tally() >= c,
        p < s.len() ==> s[p].tally() < c,
    ensures
        slot(s, c, from) == p,
    decreases p - from,
{
    if from < p {
        lemma_slot_unique(s, c, from + 1, p);
    }
}

pub proof fn lemma_ranked_len<T: Counted>(items: Seq<T>)
    ensures
        ranked(items).len() == items.len(),
    decreases items.len(),
{
    if items.len() > 0 {
        let rest = ranked(items.drop_last());
        lemma_ranked_len(items.drop_last());
        lemma_slot_bounds(rest, items.last().tally(), 0);
    }
}

/// A ranking is bounded by its limit and by the number of entries.
pub proof fn lemma_top_len<T: Counted>(items: Seq<T>, k: nat)
    ensures
        top(items, k).len() <= k,
        top(items, k).len() <= items.len(),
        top(items, k).len() == if k < items.len() {
            k
        } else {
            items.len()
        },
{
    lemma_ranked_len(items);
}

/// Entries of a ranking never increase in count.
pub proof fn lemma_ranked_descending<T: Counted>(items: Seq<T>)
    ensures
        descending(ranked(items)),
    decreases items.len(),
{
    if items.len() > 0 {
        let rest = ranked(items.drop_last());
        let x = items.last();
        let p = slot(rest, x.tally(), 0);
        lemma_ranked_descending(items.drop_last());
        lemma_slot_bounds(rest, x.tally(), 0);
        let out = rest.insert(p, x);
        assert forall|i: int, j: int| 0 <= i <= j < out.len() implies out[i].tally()
            >= out[j].tally() by {
            if j < p {
                assert(out[i] == rest[i] && out[j] == rest[j]);
            } else if j == p {
                if i < p {
                    assert(out[i] == rest[i]);
                }
            } else {
                assert(out[j] == rest[j - 1]);
                if i < p {
                    assert(out[i] == rest[i]);
                } else if i == p {
                    assert(rest[p].tally() < x.tally());
                    assert(rest[p].tally() >= rest[j - 1].tally());
                } else {
                    assert(out[i] == rest[i - 1]);
                }
            }
        }
    }
}

/// The first entries of a ranking never increase in count either.
pub proof fn lemma_top_descending<T: Counted>(items: Seq<T>, k: nat)
    ensures
        descending(top(items, k)),
{
    lemma_ranked_descending(items);
}

/// A ranking keeps, for every count, exactly the entries that have it, in
/// their original order: nothing is lost or added, and ties are not
/// reordered.
pub proof fn lemma_ranked_stable<T: Counted>(items: Seq<T>, c: u32)
    ensures
        with_count(ranked(items), c) == with_count(items, c),
    decreases items.len(),
{
    let pred = has_count::<T>(c);
    if items.len() == 0 {
        assert(ranked(items) =~= items);
    } else {
        let head = items.drop_last();
        let rest = ranked(head);
        let x = items.last();
        let p = slot(rest, x.tally(), 0);
        lemma_ranked_stable(head, c);
        lemma_ranked_descending(head);
        lemma_slot_bounds(rest, x.tally(), 0);
        let front = rest.subrange(0, p);
        let back = rest.subrange(p, rest.len() as int);
        assert(rest =~= front + back);
        assert(rest.insert(p, x) =~= front.push(x) + back);
        Seq::filter_distributes_over_add(front, back, pred);
        Seq::filter_distributes_over_add(front.push(x), back, pred);
        front.lemma_filter_push(x, pred);
        head.lemma_filter_push(x, pred);
        assert(items =~= head.push(x));
        if x.tally() == c {
            assert forall|i: int| 0 <= i < back.len() implies !pred(#[trigger] back[i]) by {
                assert(back[i] == rest[p + i]);
                assert(rest[p].tally() >= rest[p + i].tally());
            }
            lemma_filter_none(back, pred);
            assert(front.filter(pred) + back.filter(pred) =~= front.filter(pred));
            assert(front.push(x).filter(pred) + back.filter(pred) =~= front.filter(pred).push(x));
        } else {
            assert(front.push(x).filter(pred) == front.filter(pred));
        }
    }
}

/// A ranking holds the candidates, each as often as it was a candidate:
/// nothing is lost, added or put in place of another.
pub proof fn lemma_ranked_permutes<T: Counted>(items: Seq<T>)
    ensures
        ranked(items).to_multiset() == items.to_multiset(),
    decreases items.len(),
{
    if items.len() == 0 {
        assert(ranked(items) =~= items);
    } else {
        let head = items.drop_last();
        let rest = ranked(head);
        let x = items.last();
        lemma_ranked_permutes(head);
        lemma_slot_bounds(rest, x.tally(), 0);
        vstd::seq_lib::to_multiset_insert(rest, slot(rest, x.tally(), 0), x);
        vstd::seq_lib::to_multiset_build(head, x);
        assert(items =~= head.push(x));
    }
}

/// Every entry of a ranking is one of the candidates.
pub proof fn lemma_ranked_members<T: Counted>(items: Seq<T>)
    ensures
        forall|i: int| 0 <= i < ranked(items).len() ==> items.contains(#[trigger] ranked(items)[i]),
    decreases items.len(),
{
    if items.len() > 0 {
        let head = items.drop_last();
        let rest = ranked(head);
        let x = items.last();
        let p = slot(rest, x.tally(), 0);
        lemma_ranked_members(head);
        lemma_slot_bounds(rest, x.tally(), 0);
        let out = rest.insert(p, x);
        assert forall|i: int| 0 <= i < out.len() implies items.contains(#[trigger] out[i]) by {
            if i < p {
                assert(out[i] == rest[i]);
                let j = choose|j: int| 0 <= j < head.len() && head[j] == rest[i];
                assert(items[j] == out[i]);
            } else if i == p {
                assert(items[items.len() - 1] == out[i]);
            } else {
                assert(out[i] == rest[i - 1]);
                let j = choose|j: int| 0 <= j < head.len() && head[j] == rest[i - 1];
                assert(items[j] == out[i]);
            }
        }
    }
}

/// Every entry of a bounded ranking is one of the candidates.
pub proof fn lemma_top_members<T: Counted>(items: Seq<T>, k: nat)
    ensures
        forall|i: int| 0 <= i < top(items, k).len() ==> items.contains(#[trigger] top(items, k)[i]),
{
    lemma_ranked_members(items);
}

/// What a bounded ranking leaves out counts no more than anything it
/// keeps: a candidate is in the ranking, or its count is no higher than that
/// of any entry of the ranking.
pub proof fn lemma_top_keeps_the_highest<T: Counted>(items: Seq<T>, k: nat, m: int)
    requires
        0 <= m < items.len(),
    ensures
        top(items, k).contains(items[m]) || forall|i: int|
            0 <= i < top(items, k).len() ==> items[m].tally() <= (#[trigger] top(
                items,
                k,
            )[i]).tally(),
{
    let all = ranked(items);
    lemma_ranked_permutes(items);
    lemma_ranked_descending(items);
    lemma_ranked_len(items);
    vstd::seq_lib::to_multiset_contains(items, items[m]);
    vstd::seq_lib::to_multiset_contains(all, items[m]);
    assert(items.contains(items[m]));
    let p = choose|p: int| 0 <= p < all.len() && all[p] == items[m];
    if p < top(items, k).len() {
        assert(top(items, k)[p] == items[m]);
    } else {
        assert forall|i: int| 0 <= i < top(items, k).len() implies items[m].tally() <= (
        #[trigger] top(items, k)[i]).tally() by {
            assert(top(items, k)[i] == all[i]);
            assert(all[i].tally() >= all[p].tally());
        }
    }
}

/// Among the entries of a bounded ranking, those with one count are the
/// first of the candidates with that count, in the candidates' order: ties
/// keep the order of discovery.
pub proof fn lemma_top_ties_in_order<T: Counted>(items: Seq<T>, k: nat, c: u32)
    ensures
        with_count(top(items, k), c).is_prefix_of(with_count(items, c)),
{
    let all = ranked(items);
    lemma_ranked_stable(items, c);
    lemma_ranked_len(items);
    if k < all.len() {
        let front = all.take(k as int);
        let back = all.skip(k as int);
        assert(all =~= front + back);
        Seq::filter_distributes_over_add(front, back, has_count::<T>(c));
        let kept = front.filter(has_count::<T>(c));
        let whole = kept + back.filter(has_count::<T>(c));
        assert(whole.subrange(0, kept.len() as int) =~= kept);
    } else {
        let kept = with_count(all, c);
        assert(kept.subrange(0, kept.len() as int) =~= kept);
    }
}

/// Adding one item to the candidates changes a bounded ranking only through
/// the bounded ranking itself.
proof fn lemma_top_step<T: Counted>(items: Seq<T>, x: T, k: nat)
    ensures
        top(items.push(x), k) == ({
            let best = top(items, k);
            let q = slot(best, x.tally(), 0);
            if q < k {
                let grown = best.insert(q, x);
                if grown.len() > k {
                    grown.drop_last()
                } else {
                    grown
                }
            } else {
                best
            }
        }),
{
    let all = ranked(items);
    let c = x.tally();
    let p = slot(all, c, 0);
    let best = top(items, k);
    let q = slot(best, c, 0);
    lemma_ranked_len(items);
    lemma_ranked_len(items.push(x));
    lemma_slot_bounds(all, c, 0);
    lemma_slot_bounds(best, c, 0);
    assert(items.push(x).drop_last() =~= items);
    let next = all.insert(p, x);
    assert(ranked(items.push(x)) == next);
    if p < best.len() {
        lemma_slot_unique(best, c, 0, p);
    } else {
        lemma_slot_unique(best, c, 0, best.len() as int);
    }
    if q < k {
        assert(q == p);
        let grown = best.insert(q, x);
        if grown.len() > k {
            assert(top(items.push(x), k) =~= grown.drop_last());
        } else {
            assert(top(items.push(x), k) =~= grown);
        }
    } else {
        assert(top(items.push(x), k) =~= best);
    }
}

/// The `k` highest-ranked entries of `items`: by descending count, ties in
/// the order of `items`.
pub fn top_ranked<T: Counted>(items: Vec<T>, k: usize) -> (best: Vec<T>)
    ensures
        best@ == top(items@, k as nat),
{
    let mut best: Vec<T> = Vec::new();
    let ghost all = items@;
    for item in it: items
        invariant
            it.seq() == all,
            best@ == top(all.take(it.index() as int), k as nat),
    {
        let ghost before = all.take(it.index() as int);
        proof {
            lemma_top_step(before, item, k as nat);
            lemma_top_len(before, k as nat);
            assert(all.take(it.index() + 1) =~= before.push(item));
        }
        let c = item.count();
        let mut q: usize = 0;
        while q < best.len() && best[q].count() >= c
            invariant
                q <= best.len(),
                slot(best@, c, 0) == slot(best@, c, q as int),
            decreases best.len() - q,
        {
            q += 1;
        }
        if q < k {
            best.insert(q, item);
            if best.len() > k {
                best.pop();
            }
        }
    }
    assert(all.take(all.len() as int) =~= all);
    best
}

} // verus!
