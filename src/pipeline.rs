//! The decisions of the concurrent pipeline, apart from its threads: how many
//! workers to run, which lines a reader hands on, what a worker makes of a
//! line, and when the uploader hands a batch of records to the sink.
use vstd::prelude::*;

use crate::entry::{
    blanks_of, entry_at, is_unparsed, lemma_every_line_sorted, outcome_of, records_of, unparsed_of, OutcomeView,
};
use crate::payload::EntryView;
use crate::time::Date;

verus! {

/// The number of worker threads for `available` units of parallelism: one
/// unit is kept for the uploader, and there is always at least one worker.
pub fn worker_count(available: usize) -> (r: usize)
    ensures
        r == if available > 1 {
            available - 1
        } else {
            1
        },
{
    if available > 1 {
        available - 1
    } else {
        1
    }
}

/// Whether a reader hands on the line at `index` (counted from 0): every line
/// where no range is given, else the lines `first..end` of the range.
pub fn line_selected(index: usize, range: Option<(usize, usize)>) -> (r: bool)
    ensures
        r == match range {
            None => true,
            Some((first, end)) => first <= index < end,
        },
{
    match range {
        None => true,
        Some((first, end)) => first <= index && index < end,
    }
}

/// Whether a batch is handed on before the next record joins it: it holds
/// records, and at least as many as the threshold.
pub open spec fn flushes_before(pending_len: nat, threshold: nat) -> bool {
    pending_len > 0 && pending_len >= threshold
}

/// The records that wait to be handed on after `items` have arrived.
pub open spec fn pending_after<T>(t: nat, items: Seq<T>) -> Seq<T>
    decreases items.len(),
{
    if items.len() == 0 {
        Seq::empty()
    } else {
        let p = pending_after(t, items.drop_last());
        if flushes_before(p.len(), t) {
            seq![items.last()]
        } else {
            p.push(items.last())
        }
    }
}

/// The batches handed on while `items` arrive, in order.
pub open spec fn flushed_after<T>(t: nat, items: Seq<T>) -> Seq<Seq<T>>
    decreases items.len(),
{
    if items.len() == 0 {
        Seq::empty()
    } else {
        let p = pending_after(t, items.drop_last());
        let f = flushed_after(t, items.drop_last());
        if flushes_before(p.len(), t) {
            f.push(p)
        } else {
            f
        }
    }
}

/// Every batch handed on for `items`: those flushed while they arrive, then
/// the one final batch.
pub open spec fn batches_of<T>(t: nat, items: Seq<T>) -> Seq<Seq<T>> {
    flushed_after(t, items).push(pending_after(t, items))
}

/// Gathers records and hands them on in batches: a batch leaves once it has
/// reached the threshold and another record arrives, and whatever is left
/// leaves as one final batch.
pub struct Batcher<T> {
    threshold: usize,
    pending: Vec<T>,
    received: Ghost<Seq<T>>,
}

impl<T> Batcher<T> {
    pub closed spec fn threshold(&self) -> nat {
        self.threshold as nat
    }

    /// Every record received so far, in order.
    pub closed spec fn received(&self) -> Seq<T> {
        self.received@
    }

    pub closed spec fn wf(&self) -> bool {
        self.pending@ == pending_after(self.threshold as nat, self.received@)
    }

    /// A batcher that has received nothing.
    pub fn new(threshold: usize) -> (r: Batcher<T>)
        ensures
            r.wf(),
            r.threshold() == threshold,
            r.received() == Seq::<T>::empty(),
    {
        Batcher { threshold, pending: Vec::new(), received: Ghost(Seq::empty()) }
    }

    /// Receives one record; returns the batch that leaves, if one does.
    pub fn push(&mut self, item: T) -> (r: Option<Vec<T>>)
        requires
            old(self).wf(),
        ensures
            final(self).wf(),
            final(self).threshold() == old(self).threshold(),
            final(self).received() == old(self).received().push(item),
            r is Some <==> flushes_before(
                pending_after(old(self).threshold(), old(self).received()).len(),
                old(self).threshold(),
            ),
            r matches Some(b) ==> b@ == pending_after(old(self).threshold(), old(self).received()),
            match r {
                Some(b) => flushed_after(final(self).threshold(), final(self).received())
                    == flushed_after(old(self).threshold(), old(self).received()).push(b@),
                None => flushed_after(final(self).threshold(), final(self).received())
                    == flushed_after(old(self).threshold(), old(self).received()),
            },
    {
        let ghost before = self.received@;
        let ghost after = before.push(item);
        proof {
            assert(after.drop_last() =~= before);
        }
        if self.pending.len() > 0 && self.pending.len() >= self.threshold {
            let mut batch = Vec::new();
            std::mem::swap(&mut batch, &mut self.pending);
            self.pending.push(item);
            self.received = Ghost(after);
            assert(self.pending@ =~= seq![after.last()]);
            Some(batch)
        } else {
            self.pending.push(item);
            self.received = Ghost(after);
            None
        }
    }

    /// Hands on the final batch: every record received and not yet handed
    /// on, which is empty only where no record was received at all.
    pub fn finish(self) -> (r: Vec<T>)
        requires
            self.wf(),
        ensures
            r@ == pending_after(self.threshold(), self.received()),
            batches_of(self.threshold(), self.received()) == flushed_after(
                self.threshold(),
                self.received(),
            ).push(r@),
    {
        self.pending
    }
}

proof fn lemma_pending_nonempty<T>(t: nat, items: Seq<T>)
    ensures
        items.len() > 0 <==> pending_after(t, items).len() > 0,
        pending_after(t, items).len() <= if t > 1 {
            t
        } else {
            1
        },
    decreases items.len(),
{
    if items.len() > 0 {
        lemma_pending_nonempty(t, items.drop_last());
    }
}

proof fn lemma_no_flush_keeps_all<T>(t: nat, items: Seq<T>)
    ensures
        flushed_after(t, items).len() == 0 ==> pending_after(t, items) == items,
    decreases items.len(),
{
    if items.len() > 0 {
        lemma_no_flush_keeps_all(t, items.drop_last());
        assert(items.drop_last().push(items.last()) =~= items);
    }
}

/// More records than one batch holds cannot all wait for the final batch:
/// at least one batch leaves while they arrive.
pub proof fn lemma_batch_leaves_early<T>(t: nat, items: Seq<T>)
    requires
        items.len() > t,
        items.len() > 1,
    ensures
        flushed_after(t, items).len() >= 1,
{
    lemma_no_flush_keeps_all(t, items);
    lemma_pending_nonempty(t, items);
}

/// Batching loses nothing and keeps the order: the batches, one after the
/// other, are the records as they arrived. There is exactly one final batch;
/// it is empty only where no record arrived. Every earlier batch holds at
/// least as many records as the threshold, and at least one.
pub proof fn lemma_batches_keep_records<T>(t: nat, items: Seq<T>)
    ensures
        batches_of(t, items).flatten() == items,
        batches_of(t, items).len() >= 1,
        batches_of(t, items).last() == pending_after(t, items),
        (batches_of(t, items).last().len() == 0) <==> (items.len() == 0),
        batches_of(t, items).last().len() <= if t > 1 {
            t
        } else {
            1
        },
        forall|k: int|
            0 <= k < batches_of(t, items).len() - 1 ==> #[trigger] batches_of(t, items)[k].len()
                >= t && batches_of(t, items)[k].len() > 0,
    decreases items.len(),
{
    lemma_pending_nonempty(t, items);
    let b = batches_of(t, items);
    flushed_after(t, items).lemma_flatten_push(pending_after(t, items));
    if items.len() > 0 {
        let rest = items.drop_last();
        lemma_batches_keep_records(t, rest);
        let p = pending_after(t, rest);
        let f = flushed_after(t, rest);
        f.lemma_flatten_push(p);
        assert(f.flatten() + p == rest);
        if flushes_before(p.len(), t) {
            f.push(p).lemma_flatten_push(seq![items.last()]);
            assert(items =~= rest + seq![items.last()]);
            assert forall|k: int| 0 <= k < b.len() - 1 implies #[trigger] b[k].len() >= t
                && b[k].len() > 0 by {
                if k < f.len() {
                    assert(b[k] == batches_of(t, rest)[k]);
                } else {
                    assert(b[k] == p);
                }
            }
        } else {
            assert(items =~= rest + seq![items.last()]);
            assert(f.flatten() + p.push(items.last()) =~= items);
            assert forall|k: int| 0 <= k < b.len() - 1 implies #[trigger] b[k].len() >= t
                && b[k].len() > 0 by {
                assert(b[k] == batches_of(t, rest)[k]);
            }
        }
    } else {
        assert(b.flatten() =~= Seq::<T>::empty() + Seq::<T>::empty());
    }
}

/// The outcome of each `(line, date)` pair of `work`, in order.
pub open spec fn outcomes(work: Seq<(Seq<char>, Date)>) -> Seq<OutcomeView> {
    work.map_values(|w: (Seq<char>, Date)| outcome_of(w.1, w.0))
}

proof fn lemma_map_permutation<A, B>(a: Seq<A>, b: Seq<A>, f: spec_fn(A) -> B)
    requires
        a.to_multiset() == b.to_multiset(),
    ensures
        a.map_values(f).to_multiset() == b.map_values(f).to_multiset(),
    decreases a.len(),
{
    broadcast use vstd::seq_lib::group_to_multiset_ensures;
    broadcast use vstd::multiset::group_multiset_axioms;

    if a.len() == 0 {
        assert(b.len() == a.to_multiset().len());
        assert(a.map_values(f) =~= Seq::<B>::empty());
        assert(b.map_values(f) =~= Seq::<B>::empty());
    } else {
        let x = a.last();
        let a1 = a.drop_last();
        assert(a1.push(x) =~= a);
        assert(a.to_multiset() =~= a1.to_multiset().insert(x));
        assert(b.to_multiset().count(x) > 0);
        assert(b.contains(x));
        let k = choose|k: int| 0 <= k < b.len() && b[k] == x;
        let b1 = b.remove(k);
        assert(b1.to_multiset() =~= b.to_multiset().remove(x));
        assert(b1.to_multiset() =~= a1.to_multiset());
        lemma_map_permutation(a1, b1, f);
        let ma = a.map_values(f);
        let mb = b.map_values(f);
        assert(ma =~= a1.map_values(f).push(f(x)));
        assert(mb.remove(k) =~= b1.map_values(f));
        assert(mb[k] == f(x));
        assert(mb.remove(k).to_multiset() =~= mb.to_multiset().remove(f(x)));
        assert(mb.contains(f(x)));
        assert(mb.to_multiset().count(f(x)) > 0);
        assert(mb.to_multiset() =~= b1.map_values(f).to_multiset().insert(f(x)));
        assert(ma.to_multiset() =~= a1.map_values(f).to_multiset().insert(f(x)));
    }
}

/// What the workers make of the lines does not depend on how the lines are
/// shared out among them or in what order they are taken: any rearrangement
/// of the same `(line, date)` pairs gives the same outcomes, each as often.
pub proof fn lemma_outcomes_independent_of_order(
    a: Seq<(Seq<char>, Date)>,
    b: Seq<(Seq<char>, Date)>,
)
    requires
        a.to_multiset() == b.to_multiset(),
    ensures
        outcomes(a).to_multiset() == outcomes(b).to_multiset(),
{
    lemma_map_permutation(a, b, |w: (Seq<char>, Date)| outcome_of(w.1, w.0));
}

proof fn lemma_filter_map_add<A, B>(a: Seq<A>, b: Seq<A>, f: spec_fn(A) -> Option<B>)
    ensures
        (a + b).filter_map(f) == a.filter_map(f) + b.filter_map(f),
    decreases b.len(),
{
    if b.len() == 0 {
        assert(a + b =~= a);
        assert(a.filter_map(f) + b.filter_map(f) =~= a.filter_map(f));
    } else {
        lemma_filter_map_add(a, b.drop_last(), f);
        assert((a + b).drop_last() =~= a + b.drop_last());
        assert((a + b).last() == b.last());
        match f(b.last()) {
            Some(y) => {
                assert(a.filter_map(f) + b.drop_last().filter_map(f) + seq![y] =~= a.filter_map(f)
                    + (b.drop_last().filter_map(f) + seq![y]));
            },
            None => {},
        }
    }
}

proof fn lemma_filter_as_filter_map<A>(a: Seq<A>, p: spec_fn(A) -> bool)
    ensures
        a.filter(p) == a.filter_map(|x: A| if p(x) { Some(x) } else { None }),
    decreases a.len(),
{
    reveal(Seq::filter);
    if a.len() > 0 {
        lemma_filter_as_filter_map(a.drop_last(), p);
        if p(a.last()) {
            assert(a.drop_last().filter(p).push(a.last()) =~= a.drop_last().filter(p) + seq![
                a.last(),
            ]);
        }
    }
}

proof fn lemma_filter_map_permutation<A, B>(a: Seq<A>, b: Seq<A>, f: spec_fn(A) -> Option<B>)
    requires
        a.to_multiset() == b.to_multiset(),
    ensures
        a.filter_map(f).to_multiset() == b.filter_map(f).to_multiset(),
    decreases a.len(),
{
    broadcast use vstd::seq_lib::group_to_multiset_ensures;
    broadcast use vstd::multiset::group_multiset_axioms;
    broadcast use vstd::seq_lib::lemma_multiset_commutative;

    if a.len() == 0 {
        assert(b.len() == a.to_multiset().len());
        assert(a =~= b);
    } else {
        let x = a.last();
        let a1 = a.drop_last();
        assert(a1.push(x) =~= a);
        assert(a.to_multiset() =~= a1.to_multiset().insert(x));
        assert(b.to_multiset().count(x) > 0);
        assert(b.contains(x));
        let k = choose|k: int| 0 <= k < b.len() && b[k] == x;
        let b1 = b.remove(k);
        assert(b1.to_multiset() =~= b.to_multiset().remove(x));
        assert(b1.to_multiset() =~= a1.to_multiset());
        lemma_filter_map_permutation(a1, b1, f);
        let b0 = b.subrange(0, k);
        let b2 = b.subrange(k + 1, b.len() as int);
        assert(b =~= b0 + seq![x] + b2);
        assert(b1 =~= b0 + b2);
        assert(a =~= a1 + seq![x]);
        lemma_filter_map_add(a1, seq![x], f);
        lemma_filter_map_add(b0 + seq![x], b2, f);
        lemma_filter_map_add(b0, seq![x], f);
        lemma_filter_map_add(b0, b2, f);
        let fx = seq![x].filter_map(f);
        assert(b.filter_map(f).to_multiset() =~= b0.filter_map(f).to_multiset().add(
            fx.to_multiset(),
        ).add(b2.filter_map(f).to_multiset()));
        assert(b1.filter_map(f).to_multiset() =~= b0.filter_map(f).to_multiset().add(
            b2.filter_map(f).to_multiset(),
        ));
        assert(a.filter_map(f).to_multiset() =~= a1.filter_map(f).to_multiset().add(
            fx.to_multiset(),
        ));
    }
}

proof fn lemma_filter_map_flatten<A, B>(parts: Seq<Seq<A>>, f: spec_fn(A) -> Option<B>)
    ensures
        parts.flatten().filter_map(f) == parts.map_values(|p: Seq<A>| p.filter_map(f)).flatten(),
    decreases parts.len(),
{
    let g = |p: Seq<A>| p.filter_map(f);
    if parts.len() == 0 {
        assert(parts.map_values(g) =~= Seq::<Seq<B>>::empty());
    } else {
        lemma_filter_map_flatten(parts.drop_first(), f);
        lemma_filter_map_add(parts.first(), parts.drop_first().flatten(), f);
        assert(parts.map_values(g).drop_first() =~= parts.drop_first().map_values(g));
        assert(parts.map_values(g).first() == parts.first().filter_map(f));
    }
}

/// The records of each part of `parts`, one part after the other.
pub open spec fn records_by_part(date: Date, parts: Seq<Seq<Seq<char>>>) -> Seq<EntryView> {
    parts.map_values(|p: Seq<Seq<char>>| records_of(date, p)).flatten()
}

/// The unparsed lines of each part of `parts`, one part after the other.
pub open spec fn unparsed_by_part(date: Date, parts: Seq<Seq<Seq<char>>>) -> Seq<Seq<char>> {
    parts.map_values(|p: Seq<Seq<char>>| unparsed_of(date, p)).flatten()
}

/// Sharing the lines of a log out among any number of workers, in any way
/// and in any order, changes only the order of what comes out: the records
/// and the unparsed lines of all the parts together are those of the whole
/// log, each as often.
pub proof fn lemma_split_work_same_results(
    date: Date,
    lines: Seq<Seq<char>>,
    parts: Seq<Seq<Seq<char>>>,
)
    requires
        parts.flatten().to_multiset() == lines.to_multiset(),
    ensures
        records_by_part(date, parts).to_multiset() == records_of(date, lines).to_multiset(),
        unparsed_by_part(date, parts).to_multiset() == unparsed_of(date, lines).to_multiset(),
{
    let f = |s: Seq<char>| entry_at(date, s);
    let p = |s: Seq<char>| is_unparsed(date, s);
    let g = |s: Seq<char>| if p(s) { Some(s) } else { None };
    lemma_filter_map_flatten(parts, f);
    assert(parts.map_values(|q: Seq<Seq<char>>| q.filter_map(f)) =~= parts.map_values(
        |q: Seq<Seq<char>>| records_of(date, q),
    ));
    lemma_filter_map_permutation(parts.flatten(), lines, f);
    lemma_filter_map_flatten(parts, g);
    assert forall|m: int| 0 <= m < parts.len() implies #[trigger] parts[m].filter_map(g)
        == unparsed_of(date, parts[m]) by {
        lemma_filter_as_filter_map(parts[m], p);
    }
    assert(parts.map_values(|q: Seq<Seq<char>>| q.filter_map(g)) =~= parts.map_values(
        |q: Seq<Seq<char>>| unparsed_of(date, q),
    ));
    lemma_filter_map_permutation(parts.flatten(), lines, g);
    lemma_filter_as_filter_map(lines, p);
}

/// The pipeline over the lines of a log, taken by the workers in the order
/// `arrived` (any arrangement of `lines`), with the threshold `t`: every line
/// comes out as exactly one of a record, an unparsed line or an empty line;
/// the batches handed to the sink hold, one after the other, each record of
/// the log exactly once, in the order the records reached the uploader; there
/// is exactly one final batch, empty only where the log holds no record; and
/// where there are more records than one batch holds, a batch leaves before
/// the final one.
pub proof fn lemma_pipeline_delivers(
    date: Date,
    lines: Seq<Seq<char>>,
    arrived: Seq<Seq<char>>,
    t: nat,
)
    requires
        arrived.to_multiset() == lines.to_multiset(),
    ensures
        records_of(date, lines).len() + unparsed_of(date, lines).len() + blanks_of(lines).len()
            == lines.len(),
        batches_of(t, records_of(date, arrived)).flatten().to_multiset() == records_of(
            date,
            lines,
        ).to_multiset(),
        batches_of(t, records_of(date, arrived)).len() >= 1,
        (batches_of(t, records_of(date, arrived)).last().len() == 0) <==> (records_of(
            date,
            lines,
        ).len() == 0),
        records_of(date, lines).len() > t && records_of(date, lines).len() > 1 ==> flushed_after(
            t,
            records_of(date, arrived),
        ).len() >= 1,
{
    broadcast use vstd::seq_lib::group_to_multiset_ensures;

    lemma_every_line_sorted(date, lines);
    let f = |s: Seq<char>| entry_at(date, s);
    lemma_filter_map_permutation(arrived, lines, f);
    assert(records_of(date, arrived).len() == records_of(date, lines).len()) by {
        assert(records_of(date, arrived).to_multiset().len() == records_of(
            date,
            lines,
        ).to_multiset().len());
    }
    lemma_batches_keep_records(t, records_of(date, arrived));
    if records_of(date, lines).len() > t && records_of(date, lines).len() > 1 {
        lemma_batch_leaves_early(t, records_of(date, arrived));
    }
}

} // verus!
