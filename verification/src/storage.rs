//! The durable buffer: records accumulate in memory and leave in batches.
//! A batch detaches atomically when the buffer reaches its threshold, and
//! the caller persists the detached batch; nothing here blocks an append
//! on the writing of an earlier batch, and no record stands in two
//! batches at once.

use vstd::prelude::*;
use vstd::string::StringSliceAdditionalSpecFns;

use crate::record::{record_text, spec_record_text, RecordView, WebhookRecord};
use crate::text::{dec_i64, spec_dec_i64};

verus! {

/// One append against a pending batch: the record joins the batch, and
/// the batch detaches in full the moment it reaches the threshold.
pub open spec fn spec_append_step<T>(pending: Seq<T>, r: T, threshold: nat) -> (Seq<T>, Option<
    Seq<T>,
>) {
    let grown = pending.push(r);
    if grown.len() >= threshold {
        (Seq::empty(), Some(grown))
    } else {
        (grown, None)
    }
}

/// The buffer run over a whole sequence of appends, from an empty buffer:
/// the batches that detached, in order, and what is still pending.
pub open spec fn spec_run<T>(recs: Seq<T>, threshold: nat) -> (Seq<Seq<T>>, Seq<T>)
    decreases recs.len(),
{
    if recs.len() == 0 {
        (Seq::empty(), Seq::empty())
    } else {
        let prev = spec_run(recs.drop_last(), threshold);
        let step = spec_append_step(prev.1, recs.last(), threshold);
        match step.1 {
            Some(batch) => (prev.0.push(batch), step.0),
            None => (prev.0, step.0),
        }
    }
}

/// All detached batches, joined in detachment order.
pub open spec fn spec_concat_batches<T>(batches: Seq<Seq<T>>) -> Seq<T>
    decreases batches.len(),
{
    if batches.len() == 0 {
        Seq::empty()
    } else {
        spec_concat_batches(batches.drop_last()) + batches.last()
    }
}

/// Batch integrity: over any sequence of appends with a positive
/// threshold, the detached batches joined in order, followed by what is
/// still pending, are exactly the appended records in append order. So
/// every record stands in exactly one place, none is lost to a detach
/// and none is duplicated by one, each detached batch holds exactly
/// `threshold` records, and the pending rest stays below the threshold.
pub proof fn lemma_batch_integrity<T>(recs: Seq<T>, threshold: nat)
    requires
        threshold >= 1,
    ensures
        spec_concat_batches(spec_run(recs, threshold).0) + spec_run(recs, threshold).1 == recs,
        spec_concat_batches(spec_run(recs, threshold).0).len() + spec_run(recs, threshold).1.len()
            == recs.len(),
        spec_run(recs, threshold).1.len() < threshold,
        forall|i: int|
            0 <= i < spec_run(recs, threshold).0.len() ==> #[trigger] spec_run(
                recs,
                threshold,
            ).0[i].len() == threshold,
    decreases recs.len(),
{
    if recs.len() == 0 {
        assert(spec_concat_batches(spec_run(recs, threshold).0) + spec_run(recs, threshold).1
            =~= recs);
    } else {
        let rest = recs.drop_last();
        lemma_batch_integrity(rest, threshold);
        let prev = spec_run(rest, threshold);
        let grown = prev.1.push(recs.last());
        assert(spec_concat_batches(prev.0) + prev.1 == rest);
        if grown.len() >= threshold {
            let batches = prev.0.push(grown);
            assert(batches.drop_last() =~= prev.0);
            assert(spec_concat_batches(batches) =~= spec_concat_batches(prev.0) + grown);
            assert(spec_concat_batches(batches) + Seq::<T>::empty() =~= (spec_concat_batches(
                prev.0,
            ) + prev.1).push(recs.last()));
            assert((spec_concat_batches(prev.0) + prev.1).push(recs.last()) =~= recs);
        } else {
            assert(spec_concat_batches(prev.0) + grown =~= (spec_concat_batches(prev.0)
                + prev.1).push(recs.last()));
            assert((spec_concat_batches(prev.0) + prev.1).push(recs.last()) =~= recs);
        }
    }
}

/// The abstract values of a vector of records.
pub open spec fn views_of_records(rs: Seq<WebhookRecord>) -> Seq<RecordView> {
    rs.map_values(|r: WebhookRecord| r@)
}

/// The in-memory store: a pending batch and the threshold at which a
/// full batch detaches for persistence.
pub struct ArrowStorage {
    buffer: Vec<WebhookRecord>,
    max_buffer_size: usize,
}

/// The abstract state of the store.
pub ghost struct StorageView {
    pub pending: Seq<RecordView>,
    pub threshold: nat,
}

impl View for ArrowStorage {
    type V = StorageView;

    closed spec fn view(&self) -> StorageView {
        StorageView {
            pending: views_of_records(self.buffer@),
            threshold: self.max_buffer_size as nat,
        }
    }
}

impl ArrowStorage {
    /// The store is well formed: the threshold is positive and the
    /// pending batch is always strictly below it.
    pub open spec fn wf(&self) -> bool {
        &&& self@.threshold >= 1
        &&& self@.pending.len() < self@.threshold
    }

    /// A store with the default flush threshold of 100 records.
    pub fn new() -> (r: ArrowStorage)
        ensures
            r.wf(),
            r@.threshold == 100,
            r@.pending == Seq::<RecordView>::empty(),
    {
        ArrowStorage { buffer: Vec::new(), max_buffer_size: 100 }
    }

    /// A store with a caller-chosen flush threshold.
    pub fn with_threshold(threshold: usize) -> (r: ArrowStorage)
        requires
            threshold >= 1,
        ensures
            r.wf(),
            r@.threshold == threshold,
            r@.pending == Seq::<RecordView>::empty(),
    {
        ArrowStorage { buffer: Vec::new(), max_buffer_size: threshold }
    }

    /// Append one record. When the pending batch reaches the threshold it
    /// detaches in full and is returned for persistence; ownership of the
    /// detached records leaves the buffer entirely, so a batch that is
    /// later lost on its way to disk can never also be flushed again.
    pub fn store_webhook(&mut self, webhook: WebhookRecord) -> (flushed: Option<
        Vec<WebhookRecord>,
    >)
        requires
            old(self).wf(),
        ensures
            final(self).wf(),
            final(self)@.threshold == old(self)@.threshold,
            final(self)@.pending == spec_append_step(
                old(self)@.pending,
                webhook@,
                old(self)@.threshold,
            ).0,
            match flushed {
                Some(batch) => spec_append_step(
                    old(self)@.pending,
                    webhook@,
                    old(self)@.threshold,
                ).1 == Some(views_of_records(batch@)),
                None => spec_append_step(old(self)@.pending, webhook@, old(self)@.threshold).1
                    is None,
            },
    {
        self.buffer.push(webhook);
        assert(views_of_records(self.buffer@) =~= old(self)@.pending.push(webhook@));
        if self.buffer.len() >= self.max_buffer_size {
            let mut batch: Vec<WebhookRecord> = Vec::new();
            core::mem::swap(&mut batch, &mut self.buffer);
            assert(views_of_records(self.buffer@) =~= Seq::<RecordView>::empty());
            Some(batch)
        } else {
            None
        }
    }

    /// Detach whatever is pending, however little, for the one flush of
    /// the shutdown sequence. The buffer is empty afterwards.
    pub fn shutdown(&mut self) -> (remaining: Vec<WebhookRecord>)
        ensures
            views_of_records(remaining@) == old(self)@.pending,
            final(self)@.pending == Seq::<RecordView>::empty(),
            final(self)@.threshold == old(self)@.threshold,
    {
        let mut batch: Vec<WebhookRecord> = Vec::new();
        core::mem::swap(&mut batch, &mut self.buffer);
        assert(views_of_records(self.buffer@) =~= Seq::<RecordView>::empty());
        batch
    }
}

/// The name of one persisted batch: the fixed stem and the flush time in
/// whole seconds.
pub open spec fn spec_flush_filename(secs: int) -> Seq<u8> {
    "webhooks_".spec_bytes() + spec_dec_i64(secs) + ".json".spec_bytes()
}

/// Render the name under which a batch flushed at `secs` (seconds since
/// the Unix epoch) is persisted.
pub fn flush_filename(secs: i64) -> (r: Vec<u8>)
    ensures
        r@ == spec_flush_filename(secs as int),
{
    let mut out: Vec<u8> = Vec::new();
    out.extend_from_slice("webhooks_".as_bytes());
    let mut digits = dec_i64(secs);
    out.append(&mut digits);
    out.extend_from_slice(".json".as_bytes());
    assert(out@ =~= spec_flush_filename(secs as int));
    out
}

/// The members of the persisted array, in append order, separated by
/// commas.
pub open spec fn spec_batch_inner(rs: Seq<RecordView>) -> Seq<u8>
    decreases rs.len(),
{
    if rs.len() == 0 {
        Seq::empty()
    } else if rs.len() == 1 {
        spec_record_text(rs[0])
    } else {
        spec_batch_inner(rs.drop_last()) + seq![44u8] + spec_record_text(rs.last())
    }
}

/// One persisted unit: the records of a batch as one JSON array, append
/// order preserved.
pub open spec fn spec_flush_content(rs: Seq<RecordView>) -> Seq<u8> {
    seq![91u8] + spec_batch_inner(rs) + seq![93u8]
}

/// Serialize a detached batch as the content of one persisted unit.
pub fn flush_content(batch: &Vec<WebhookRecord>) -> (r: Vec<u8>)
    ensures
        r@ == spec_flush_content(views_of_records(batch@)),
{
    let ghost rviews = views_of_records(batch@);
    let mut out: Vec<u8> = Vec::new();
    out.push(91);
    let mut i: usize = 0;
    while i < batch.len()
        invariant
            i <= batch@.len(),
            rviews == views_of_records(batch@),
            rviews.len() == batch@.len(),
            forall|j: int| 0 <= j < batch@.len() ==> rviews[j] == batch@[j]@,
            out@ == seq![91u8] + spec_batch_inner(rviews.take(i as int)),
        decreases batch@.len() - i,
    {
        assert(rviews.take(i + 1).drop_last() =~= rviews.take(i as int));
        assert(rviews.take(i + 1).last() == rviews[i as int]);
        if i > 0 {
            out.push(44);
        }
        let mut text = record_text(&batch[i]);
        out.append(&mut text);
        proof {
            if i == 0 {
                assert(spec_batch_inner(rviews.take(1)) =~= spec_record_text(rviews[0]));
            }
            assert(out@ =~= seq![91u8] + spec_batch_inner(rviews.take(i + 1)));
        }
        i = i + 1;
    }
    out.push(93);
    proof {
        assert(rviews.take(rviews.len() as int) =~= rviews);
        assert(out@ =~= spec_flush_content(rviews));
    }
    out
}

} // verus!
