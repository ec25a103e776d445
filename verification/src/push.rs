//! The push job's bookkeeping: which rows one attempt takes, and what its
//! log row says.
//!
//! An attempt reads the most recent successful log's `last`, fetches the
//! next batch of rows above it, posts them, and always writes a log row —
//! `last` being the highest row id of the attempted batch — so that progress
//! is observable whether the post succeeded or not. The posting itself is
//! the application's; every decision around it is here, together with a
//! model of the store that the attempt reads and writes.

use vstd::prelude::*;

use crate::cloud::{outcome_status, outcome_text, Response};
use crate::store::{Log, LogKind, LogStatus, Measurement};

verus! {

/// How many rows one attempt fetches at most.
pub const BATCH_LIMIT: usize = 1000;

/// The mathematical shape of a measurement row.
pub struct MeasurementModel {
    pub id: i64,
    pub source: Seq<char>,
    pub timestamp_ms: i64,
    pub data: Seq<char>,
}

impl View for Measurement {
    type V = MeasurementModel;

    open spec fn view(&self) -> MeasurementModel {
        MeasurementModel {
            id: self.id,
            source: self.source@,
            timestamp_ms: self.timestamp_ms,
            data: self.data@,
        }
    }
}

/// The mathematical shape of a log row.
pub struct LogModel {
    pub id: i64,
    pub timestamp_ms: i64,
    pub last: i64,
    pub kind: LogKind,
    pub status: LogStatus,
    pub response: Seq<char>,
}

impl View for Log {
    type V = LogModel;

    open spec fn view(&self) -> LogModel {
        LogModel {
            id: self.id,
            timestamp_ms: self.timestamp_ms,
            last: self.last,
            kind: self.kind,
            status: self.status,
            response: self.response@,
        }
    }
}

pub open spec fn rows_view(rows: Seq<Measurement>) -> Seq<MeasurementModel> {
    rows.map_values(|m: Measurement| m@)
}

pub open spec fn logs_view(logs: Seq<Log>) -> Seq<LogModel> {
    logs.map_values(|l: Log| l@)
}

/// The `last` of the most recent successful log of a kind; zero before any
/// success.
pub open spec fn last_success(logs: Seq<LogModel>, kind: LogKind) -> int
    decreases logs.len(),
{
    if logs.len() == 0 {
        0
    } else if logs.last().kind == kind && logs.last().status == LogStatus::Success {
        logs.last().last as int
    } else {
        last_success(logs.drop_last(), kind)
    }
}

/// The first `limit` rows with id above `from`, in row order.
pub open spec fn batch_model(rows: Seq<MeasurementModel>, from: i64, limit: nat) -> Seq<
    MeasurementModel,
>
    decreases rows.len(),
{
    if rows.len() == 0 || limit == 0 {
        Seq::empty()
    } else if rows[0].id > from {
        seq![rows[0]] + batch_model(rows.skip(1), from, (limit - 1) as nat)
    } else {
        batch_model(rows.skip(1), from, limit)
    }
}

/// Read the watermark: the `last` of the most recent successful log of the
/// kind, zero when none succeeded yet.
pub fn last_successful_log(logs: &Vec<Log>, kind: LogKind) -> (r: i64)
    ensures
        r as int == last_success(logs_view(logs@), kind),
{
    let ghost lv = logs_view(logs@);
    let mut i: usize = logs.len();
    proof {
        assert(lv.take(lv.len() as int) =~= lv);
    }
    while i > 0
        invariant
            i <= lv.len(),
            lv == logs_view(logs@),
            last_success(lv, kind) == last_success(lv.take(i as int), kind),
        decreases i,
    {
        i = i - 1;
        proof {
            assert(lv.take(i as int + 1).drop_last() =~= lv.take(i as int));
            assert(lv.take(i as int + 1).last() == lv[i as int]);
        }
        let log = &logs[i];
        if log.kind == kind && log.status == LogStatus::Success {
            return log.last;
        }
    }
    proof {
        assert(lv.take(0) =~= Seq::<LogModel>::empty());
    }
    0
}

/// An equal measurement row, spelled out so that its meaning is carried.
fn copy_measurement(m: &Measurement) -> (r: Measurement)
    ensures
        r@ == m@,
{
    Measurement {
        id: m.id,
        source: m.source.clone(),
        timestamp_ms: m.timestamp_ms,
        data: m.data.clone(),
    }
}

/// Fetch one attempt's batch: the first `limit` rows with id above `from`,
/// in row order.
pub fn select_batch(rows: &Vec<Measurement>, from: i64, limit: usize) -> (r: Vec<Measurement>)
    ensures
        rows_view(r@) == batch_model(rows_view(rows@), from, limit as nat),
{
    let ghost rv = rows_view(rows@);
    let mut r: Vec<Measurement> = Vec::new();
    let mut i: usize = 0;
    proof {
        assert(rows_view(r@) =~= Seq::<MeasurementModel>::empty());
        assert(rv.skip(0) =~= rv);
        assert(batch_model(rv, from, limit as nat) =~= rows_view(r@) + batch_model(
            rv.skip(0),
            from,
            limit as nat,
        ));
    }
    while i < rows.len() && r.len() < limit
        invariant
            i <= rv.len(),
            rv == rows_view(rows@),
            r@.len() <= limit,
            batch_model(rv, from, limit as nat) == rows_view(r@) + batch_model(
                rv.skip(i as int),
                from,
                (limit - r@.len()) as nat,
            ),
        decreases rv.len() - i,
    {
        proof {
            assert(rv.skip(i as int)[0] == rv[i as int]);
            assert(rv.skip(i as int).skip(1) =~= rv.skip(i as int + 1));
        }
        let ghost r_before = rows_view(r@);
        if rows[i].id > from {
            r.push(copy_measurement(&rows[i]));
            proof {
                assert(rows_view(r@) =~= r_before.push(rv[i as int]));
                assert(rows_view(r@) + batch_model(
                    rv.skip(i as int + 1),
                    from,
                    (limit - r@.len()) as nat,
                ) =~= batch_model(rv, from, limit as nat));
            }
        }
        i = i + 1;
    }
    proof {
        if i == rv.len() {
            assert(rv.skip(rv.len() as int) =~= Seq::<MeasurementModel>::empty());
        } else {
            assert(r@.len() == limit);
        }
        assert(rows_view(r@) =~= batch_model(rv, from, limit as nat));
    }
    r
}

/// The highest row id of a batch, `None` on an empty one; an attempt with an
/// empty batch posts nothing and logs nothing.
pub fn batch_last_id(batch: &Vec<Measurement>) -> (r: Option<i64>)
    ensures
        match r {
            Some(m) => batch@.len() > 0 && (exists|i: int|
                0 <= i < batch@.len() && (#[trigger] batch@[i]).id == m) && (forall|i: int|
                0 <= i < batch@.len() ==> (#[trigger] batch@[i]).id <= m),
            None => batch@.len() == 0,
        },
{
    if batch.len() == 0 {
        return None;
    }
    let mut m: i64 = batch[0].id;
    let mut i: usize = 1;
    while i < batch.len()
        invariant
            1 <= i <= batch@.len(),
            exists|k: int| 0 <= k < i && (#[trigger] batch@[k]).id == m,
            forall|k: int| 0 <= k < i ==> (#[trigger] batch@[k]).id <= m,
        decreases batch@.len() - i,
    {
        if batch[i].id > m {
            m = batch[i].id;
        }
        i = i + 1;
    }
    Some(m)
}

/// The log row one attempt writes: `last` is the batch's highest row id, the
/// status and text judge the post's outcome.
pub fn log_for_outcome(
    now_ms: i64,
    last: i64,
    kind: LogKind,
    outcome: Option<Response>,
) -> (r: Log)
    ensures
        r.id == 0,
        r.timestamp_ms == now_ms,
        r.last == last,
        r.kind == kind,
        r.status == outcome_status(outcome),
        r.response@ == outcome_text(outcome),
{
    let (status, response) = crate::cloud::classify_outcome(outcome);
    Log { id: 0, timestamp_ms: now_ms, last, kind, status, response }
}

/// The push job: fetches measurement batches and logs every attempt.
pub struct Process {
    pub batch_limit: usize,
}

impl Process {
    pub fn new() -> (p: Process)
        ensures
            p.batch_limit == BATCH_LIMIT,
    {
        Process { batch_limit: BATCH_LIMIT }
    }
}

/// Measurement rows in strictly ascending id order.
pub open spec fn ms_sorted(ms: Seq<MeasurementModel>) -> bool {
    forall|i: int, j: int| 0 <= i < j < ms.len() ==> (#[trigger] ms[i]).id < (#[trigger] ms[j]).id
}

/// The push logs' watermarks never go backwards.
pub open spec fn push_lasts_monotone(logs: Seq<LogModel>) -> bool {
    forall|i: int, j: int|
        0 <= i < j < logs.len() && (#[trigger] logs[i]).kind == LogKind::Push
            && (#[trigger] logs[j]).kind == LogKind::Push ==> logs[i].last <= logs[j].last
}

/// The slice of the store the push job reads and writes: measurement rows in
/// id order, and the log rows of every attempt so far.
#[derive(Debug)]
pub struct StoreModel {
    pub measurements: Vec<Measurement>,
    pub logs: Vec<Log>,
}

/// The watermark the next attempt reads.
pub open spec fn store_watermark(s: StoreModel) -> int {
    last_success(logs_view(s.logs@), LogKind::Push)
}

/// The batch the next attempt takes.
pub open spec fn store_pending(s: StoreModel) -> Seq<MeasurementModel> {
    batch_model(rows_view(s.measurements@), store_watermark(s) as i64, BATCH_LIMIT as nat)
}

/// Every push log's watermark is dominated by what the next attempt would
/// log: the pending batch's highest id, or, with nothing pending, the
/// current watermark itself.
pub open spec fn pending_dominates(s: StoreModel) -> bool {
    forall|i: int|
        0 <= i < s.logs@.len() && (#[trigger] s.logs@[i])@.kind == LogKind::Push
            ==> s.logs@[i]@.last as int <= (if store_pending(s).len() > 0 {
            store_pending(s).last().id as int
        } else {
            store_watermark(s)
        })
}

pub open spec fn wf_store(s: StoreModel) -> bool {
    &&& ms_sorted(rows_view(s.measurements@))
    &&& push_lasts_monotone(logs_view(s.logs@))
    &&& pending_dominates(s)
}

/// A batch holds at most `limit` rows.
proof fn lemma_batch_len(ms: Seq<MeasurementModel>, from: i64, limit: nat)
    ensures
        batch_model(ms, from, limit).len() <= limit,
    decreases ms.len(),
{
    if ms.len() > 0 && limit > 0 {
        lemma_batch_len(ms.skip(1), from, (limit - 1) as nat);
        lemma_batch_len(ms.skip(1), from, limit);
    }
}

/// Every batch row comes from the store and lies above the watermark.
proof fn lemma_batch_elements(ms: Seq<MeasurementModel>, from: i64, limit: nat)
    ensures
        forall|k: int|
            0 <= k < batch_model(ms, from, limit).len() ==> (#[trigger] batch_model(
                ms,
                from,
                limit,
            )[k]).id > from && ms.contains(batch_model(ms, from, limit)[k]),
    decreases ms.len(),
{
    if ms.len() > 0 && limit > 0 {
        lemma_batch_elements(ms.skip(1), from, (limit - 1) as nat);
        lemma_batch_elements(ms.skip(1), from, limit);
        assert forall|e: MeasurementModel| ms.skip(1).contains(e) implies ms.contains(e) by {
            let k = choose|k: int| 0 <= k < ms.skip(1).len() && ms.skip(1)[k] == e;
            assert(ms[k + 1] == e);
        }
        let b = batch_model(ms, from, limit);
        if ms[0].id > from {
            let rest = batch_model(ms.skip(1), from, (limit - 1) as nat);
            assert(b == seq![ms[0]] + rest);
            assert forall|k: int| 0 <= k < b.len() implies (#[trigger] b[k]).id > from
                && ms.contains(b[k]) by {
                if k == 0 {
                    assert(b[0] == ms[0]);
                    assert(ms.contains(ms[0]));
                } else {
                    assert(b[k] == rest[k - 1]);
                    assert(ms.skip(1).contains(rest[k - 1]));
                }
            }
        } else {
            let rest = batch_model(ms.skip(1), from, limit);
            assert(b == rest);
            assert forall|k: int| 0 <= k < b.len() implies (#[trigger] b[k]).id > from
                && ms.contains(b[k]) by {
                assert(b[k] == rest[k]);
                assert(ms.skip(1).contains(rest[k]));
            }
        }
    }
}

/// A batch of a sorted store is sorted; its last row carries its highest id.
proof fn lemma_batch_sorted(ms: Seq<MeasurementModel>, from: i64, limit: nat)
    requires
        ms_sorted(ms),
    ensures
        ms_sorted(batch_model(ms, from, limit)),
    decreases ms.len(),
{
    if ms.len() > 0 && limit > 0 {
        assert forall|i: int, j: int| 0 <= i < j < ms.skip(1).len() implies (#[trigger] ms.skip(
            1,
        )[i]).id < (#[trigger] ms.skip(1)[j]).id by {
            assert(ms.skip(1)[i] == ms[i + 1]);
            assert(ms.skip(1)[j] == ms[j + 1]);
        }
        lemma_batch_sorted(ms.skip(1), from, (limit - 1) as nat);
        lemma_batch_sorted(ms.skip(1), from, limit);
        if ms[0].id > from {
            let b = batch_model(ms, from, limit);
            let rest = batch_model(ms.skip(1), from, (limit - 1) as nat);
            lemma_batch_elements(ms.skip(1), from, (limit - 1) as nat);
            assert forall|i: int, j: int| 0 <= i < j < b.len() implies (#[trigger] b[i]).id < (
            #[trigger] b[j]).id by {
                if i == 0 {
                    assert(b[j] == rest[j - 1]);
                    assert(ms.skip(1).contains(rest[j - 1]));
                    let k = choose|k: int|
                        0 <= k < ms.skip(1).len() && ms.skip(1)[k] == rest[j - 1];
                    assert(ms.skip(1)[k] == ms[k + 1]);
                    assert(ms[0].id < ms[k + 1].id);
                } else {
                    assert(b[i] == rest[i - 1]);
                    assert(b[j] == rest[j - 1]);
                }
            }
        }
    }
}

/// The watermark is zero or a log row's own `last`.
proof fn lemma_last_success_bounds(logs: Seq<LogModel>, kind: LogKind)
    ensures
        i64::MIN <= last_success(logs, kind) <= i64::MAX,
    decreases logs.len(),
{
    if logs.len() > 0 {
        lemma_last_success_bounds(logs.drop_last(), kind);
    }
}

/// Appending a log row moves the watermark to its `last` exactly when it is
/// a success of the kind.
proof fn lemma_last_success_push(logs: Seq<LogModel>, n: LogModel, kind: LogKind)
    ensures
        last_success(logs.push(n), kind) == if n.kind == kind && n.status == LogStatus::Success {
            n.last as int
        } else {
            last_success(logs, kind)
        },
{
    assert(logs.push(n).last() == n);
    assert(logs.push(n).drop_last() =~= logs);
}

/// One push attempt against the store model: read the watermark, take the
/// pending batch; an empty batch posts nothing and logs nothing; otherwise
/// the outcome's log row is appended, its `last` the batch's highest row id.
/// The returned batch is the payload the attempt posts. Well-formedness —
/// push watermarks never going backwards among them — survives every
/// attempt.
pub fn push_attempt(store: &mut StoreModel, now_ms: i64, outcome: Option<Response>) -> (batch: Vec<
    Measurement,
>)
    requires
        wf_store(*old(store)),
    ensures
        wf_store(*final(store)),
        final(store).measurements == old(store).measurements,
        rows_view(batch@) == store_pending(*old(store)),
        batch@.len() == 0 ==> final(store).logs == old(store).logs,
        batch@.len() > 0 ==> logs_view(final(store).logs@) == logs_view(old(store).logs@).push(
            LogModel {
                id: 0,
                timestamp_ms: now_ms,
                last: rows_view(batch@).last().id,
                kind: LogKind::Push,
                status: outcome_status(outcome),
                response: outcome_text(outcome),
            },
        ),
        // the logged watermark is the batch's highest row id
        forall|k: int|
            0 <= k < batch@.len() ==> (#[trigger] rows_view(batch@)[k]).id <= rows_view(
                batch@,
            ).last().id,
        push_lasts_monotone(logs_view(final(store).logs@)),
{
    let ghost s0 = *store;
    let from = last_successful_log(&store.logs, LogKind::Push);
    let batch = select_batch(&store.measurements, from, BATCH_LIMIT);
    proof {
        lemma_batch_sorted(rows_view(s0.measurements@), from, BATCH_LIMIT as nat);
    }
    if batch.len() == 0 {
        return batch;
    }
    let last = batch[batch.len() - 1].id;
    proof {
        assert(rows_view(batch@).last() == batch@[batch@.len() - 1]@);
    }
    let log = log_for_outcome(now_ms, last, LogKind::Push, outcome);
    let ghost n = log@;
    store.logs.push(log);
    proof {
        let logs0 = logs_view(s0.logs@);
        let b = store_pending(s0);
        assert(logs_view(store.logs@) =~= logs0.push(n));
        lemma_last_success_push(logs0, n, LogKind::Push);
        lemma_batch_elements(rows_view(s0.measurements@), from, BATCH_LIMIT as nat);
        // the appended watermark dominates every earlier push watermark
        assert(n.last == b.last().id);
        assert forall|i: int|
            0 <= i < store.logs@.len() && (#[trigger] store.logs@[i])@.kind
                == LogKind::Push implies store.logs@[i]@.last as int <= n.last as int by {
            if i < s0.logs@.len() {
                assert(store.logs@[i] == s0.logs@[i]);
            }
        }
        assert forall|i: int, j: int|
            0 <= i < j < logs_view(store.logs@).len() && (#[trigger] logs_view(
                store.logs@,
            )[i]).kind == LogKind::Push && (#[trigger] logs_view(store.logs@)[j]).kind
                == LogKind::Push implies logs_view(store.logs@)[i].last <= logs_view(
            store.logs@,
        )[j].last by {
            if j < s0.logs@.len() {
                assert(logs_view(store.logs@)[i] == logs_view(s0.logs@)[i]);
                assert(logs_view(store.logs@)[j] == logs_view(s0.logs@)[j]);
            } else {
                assert(logs_view(store.logs@)[j] == n);
                assert(store.logs@[i]@ == logs_view(store.logs@)[i]);
            }
        }
        // the pending batch after the attempt still dominates
        let s1 = *store;
        let from1 = store_watermark(s1);
        let b1 = store_pending(s1);
        lemma_batch_elements(rows_view(s1.measurements@), from1 as i64, BATCH_LIMIT as nat);
        if n.status == LogStatus::Success {
            assert(from1 == n.last as int);
            assert forall|i: int|
                0 <= i < s1.logs@.len() && (#[trigger] s1.logs@[i])@.kind
                    == LogKind::Push implies s1.logs@[i]@.last as int <= (if b1.len() > 0 {
                b1.last().id as int
            } else {
                from1
            }) by {
                if b1.len() > 0 {
                    assert(b1[b1.len() - 1].id > from1 as i64);
                }
            }
        } else {
            assert(from1 == store_watermark(s0));
            assert(b1 == b);
        }
    }
    batch
}


/// A batch distributes over concatenation: the second part fills whatever of
/// the limit the first part left.
proof fn lemma_batch_concat(a: Seq<MeasurementModel>, b: Seq<MeasurementModel>, from: i64, limit: nat)
    ensures
        batch_model(a + b, from, limit) == batch_model(a, from, limit) + batch_model(
            b,
            from,
            (limit - batch_model(a, from, limit).len()) as nat,
        ),
    decreases a.len(),
{
    lemma_batch_len(a, from, limit);
    if a.len() == 0 {
        assert(a + b =~= b);
        assert(batch_model(a, from, limit) =~= Seq::<MeasurementModel>::empty());
        assert(batch_model(a, from, limit) + batch_model(b, from, limit) =~= batch_model(
            b,
            from,
            limit,
        ));
    } else if limit == 0 {
        assert(batch_model(a + b, from, limit) =~= Seq::<MeasurementModel>::empty());
        assert(batch_model(a, from, limit) + batch_model(b, from, 0) =~= Seq::<
            MeasurementModel,
        >::empty());
    } else {
        assert((a + b)[0] == a[0]);
        assert((a + b).skip(1) =~= a.skip(1) + b);
        if a[0].id > from {
            lemma_batch_concat(a.skip(1), b, from, (limit - 1) as nat);
            lemma_batch_len(a.skip(1), from, (limit - 1) as nat);
            assert(batch_model(a + b, from, limit) =~= batch_model(a, from, limit) + batch_model(
                b,
                from,
                (limit - batch_model(a, from, limit).len()) as nat,
            ));
        } else {
            lemma_batch_concat(a.skip(1), b, from, limit);
        }
    }
}

/// Record freshly measured rows: their ids continue the ascending order.
/// Well-formedness — and with it the watermark monotonicity — survives.
pub fn append_measurements(store: &mut StoreModel, rows: Vec<Measurement>)
    requires
        wf_store(*old(store)),
        ms_sorted(rows_view(old(store).measurements@) + rows_view(rows@)),
    ensures
        wf_store(*final(store)),
        final(store).logs == old(store).logs,
        rows_view(final(store).measurements@) == rows_view(old(store).measurements@) + rows_view(
            rows@,
        ),
{
    let ghost s0 = *store;
    let ghost ms0 = rows_view(s0.measurements@);
    let ghost new = rows_view(rows@);
    let mut rows = rows;
    store.measurements.append(&mut rows);
    proof {
        let s1 = *store;
        let ms1 = rows_view(s1.measurements@);
        assert(ms1 =~= ms0 + new);
        lemma_last_success_bounds(logs_view(s0.logs@), LogKind::Push);
        let from = store_watermark(s0) as i64;
        assert(from as int == store_watermark(s0));
        assert(store_watermark(s1) == store_watermark(s0));
        let b0 = store_pending(s0);
        lemma_batch_concat(ms0, new, from, BATCH_LIMIT as nat);
        lemma_batch_len(ms0, from, BATCH_LIMIT as nat);
        let extra = batch_model(new, from, (BATCH_LIMIT - b0.len()) as nat);
        assert(store_pending(s1) == b0 + extra);
        lemma_batch_elements(ms0, from, BATCH_LIMIT as nat);
        lemma_batch_elements(new, from, (BATCH_LIMIT - b0.len()) as nat);
        assert forall|i: int|
            0 <= i < s1.logs@.len() && (#[trigger] s1.logs@[i])@.kind
                == LogKind::Push implies s1.logs@[i]@.last as int <= (if store_pending(s1).len()
            > 0 {
            store_pending(s1).last().id as int
        } else {
            store_watermark(s1)
        }) by {
            assert(s1.logs@ == s0.logs@);
            assert(s1.logs@[i] == s0.logs@[i]);
            assert(s0.logs@[i]@.last as int <= (if store_pending(s0).len() > 0 {
                store_pending(s0).last().id as int
            } else {
                store_watermark(s0)
            }));
            let b1 = store_pending(s1);
            if b1.len() > 0 {
                if extra.len() > 0 {
                    // the appended rows lie above everything recorded before
                    assert(b1.last() == extra.last());
                    assert(new.contains(extra.last()));
                    let k = choose|k: int| 0 <= k < new.len() && new[k] == extra.last();
                    assert((ms0 + new)[ms0.len() + k] == extra.last());
                    if b0.len() > 0 {
                        assert(ms0.contains(b0.last()));
                        let k0 = choose|k0: int| 0 <= k0 < ms0.len() && ms0[k0] == b0.last();
                        assert((ms0 + new)[k0] == b0.last());
                        assert(b0.last().id < extra.last().id);
                    } else {
                        assert(extra.last().id > from);
                    }
                } else {
                    assert(b1 =~= b0);
                }
            } else {
                assert(b0.len() == 0);
            }
        }
    }
}

/// Law: in a well-formed store the persisted push logs' `last` values are
/// non-decreasing, over any sequence of push attempts — every attempt
/// preserves well-formedness and appends at or above the highest watermark.
pub proof fn lemma_push_log_monotone(s: StoreModel)
    requires
        wf_store(s),
    ensures
        push_lasts_monotone(logs_view(s.logs@)),
{
}

} // verus!
