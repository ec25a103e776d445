//! The acquisition worker's state machine.
//!
//! One long-lived task owns every in-flight request. A request arrives as a
//! [`Carrier`]; the worker stores it as a [`Storage`] whose `partial` vector
//! tracks which spans have already been read. Each loop pass issues reads
//! only for the unfinished spans, absorbs the outcomes, replies when a
//! request completes, and tunes the read parameters from the pass's error
//! tally. The channels, sockets and sleeps that drive the loop live in the
//! application; every decision the loop takes is a function here.
//!
//! One pass over one storage runs: [`spans_to_issue`], one retry round per
//! returned index, then [`absorb_outcomes`]; a completed one-shot is marked
//! and [`retain_unmarked`] drops it, a completed stream is reset by
//! [`Task::reset_stream`] (or marked when its consumer is gone);
//! [`Task::tune`] closes the pass.

use vstd::prelude::*;

use crate::retry::{ConnectError, Destination, Params, ReadError};

verus! {

/// One request's reply: one word vector per requested span, in span order.
pub type Response = Vec<Vec<u16>>;

/// Whatever can be read as one contiguous span of holding registers.
pub trait Span: Sized {
    spec fn address_spec(&self) -> u16;

    spec fn quantity_spec(&self) -> nat;

    fn address(&self) -> (a: u16)
        ensures
            a == self.address_spec(),
    ;

    fn quantity(&self) -> (q: u16)
        ensures
            q as nat == self.quantity_spec(),
    ;
}

/// A span reduced to its address and quantity.
#[derive(Debug, Clone, Copy, PartialEq, Eq, Hash, Structural)]
pub struct SimpleSpan {
    pub address: u16,
    pub quantity: u16,
}

impl Span for SimpleSpan {
    open spec fn address_spec(&self) -> u16 {
        self.address
    }

    open spec fn quantity_spec(&self) -> nat {
        self.quantity as nat
    }

    fn address(&self) -> u16 {
        self.address
    }

    fn quantity(&self) -> u16 {
        self.quantity
    }
}

/// Reduce arbitrary spans to their simple form, in order.
pub fn simplify_spans<S: Span>(spans: &Vec<S>) -> (r: Vec<SimpleSpan>)
    ensures
        r@.len() == spans@.len(),
        forall|i: int|
            0 <= i < r@.len() ==> (#[trigger] r@[i]).address == spans@[i].address_spec()
                && r@[i].quantity as nat == spans@[i].quantity_spec(),
{
    let mut r: Vec<SimpleSpan> = Vec::new();
    let mut i: usize = 0;
    while i < spans.len()
        invariant
            i <= spans@.len(),
            r@.len() == i,
            forall|k: int|
                0 <= k < i ==> (#[trigger] r@[k]).address == spans@[k].address_spec()
                    && r@[k].quantity as nat == spans@[k].quantity_spec(),
        decreases spans@.len() - i,
    {
        let s = &spans[i];
        r.push(SimpleSpan { address: s.address(), quantity: s.quantity() });
        i = i + 1;
    }
    r
}

/// Whether a request expects one reply or one per full read cycle.
#[derive(Debug, Clone, Copy, PartialEq, Eq, Structural)]
pub enum RequestKind {
    Oneshot,
    Stream,
}

/// A submitted request: where to read, which spans, and of which kind. The
/// reply channel that travels with it stays with the application.
#[derive(Debug, Clone)]
pub struct Carrier {
    pub destination: Destination,
    pub spans: Vec<SimpleSpan>,
    pub kind: RequestKind,
}

/// What the intake channel delivers: a request, or the order to terminate.
#[derive(Debug, Clone)]
pub enum TaskRequest {
    Carrier(Carrier),
    Terminate,
}

/// The worker-side record of one in-flight request. `partial` has one slot
/// per span; a `Some` slot holds a span response already read.
#[derive(Debug, Clone)]
pub struct Storage {
    pub id: u128,
    pub destination: Destination,
    pub spans: Vec<SimpleSpan>,
    pub partial: Vec<Option<Vec<u16>>>,
}

pub open spec fn wf_storage(s: Storage) -> bool {
    s.partial@.len() == s.spans@.len()
}

/// Relies on `uuid::Uuid::new_v4` (through `uuid::Uuid::as_u128`): a freshly
/// generated random identifier. Nothing is promised of the value; it comes
/// from the process's randomness.
#[verifier::external_body]
fn fresh_id() -> u128 {
    uuid::Uuid::new_v4().as_u128()
}

/// The outcome of one span's retry round: the span response, or the errors
/// of every attempt.
pub type SpanOutcome = Result<Vec<u16>, Vec<ReadError>>;

/// How many slots still await a read.
pub open spec fn count_none(p: Seq<Option<Vec<u16>>>) -> nat
    decreases p.len(),
{
    if p.len() == 0 {
        0
    } else {
        (if p[0] is None {
            1nat
        } else {
            0nat
        }) + count_none(p.skip(1))
    }
}

/// The position of slot `i` among the unfinished slots.
pub open spec fn none_rank(p: Seq<Option<Vec<u16>>>, i: int) -> nat {
    count_none(p.take(i))
}

/// How many outcomes of a pass succeeded.
pub open spec fn ok_count(o: Seq<SpanOutcome>) -> nat
    decreases o.len(),
{
    if o.len() == 0 {
        0
    } else {
        (if o[0] is Ok {
            1nat
        } else {
            0nat
        }) + ok_count(o.skip(1))
    }
}

/// The errors of a pass's failed outcomes, in order.
pub open spec fn failed_errors(o: Seq<SpanOutcome>) -> Seq<ReadError>
    decreases o.len(),
{
    if o.len() == 0 {
        Seq::empty()
    } else {
        (match o[0] {
            Ok(_) => Seq::empty(),
            Err(es) => es@,
        }) + failed_errors(o.skip(1))
    }
}

/// The partial vector after one pass: finished slots keep their response,
/// each unfinished slot takes its outcome — the `j`-th issued outcome lands
/// in the slot of rank `j`.
pub open spec fn apply_pass(p: Seq<Option<Vec<u16>>>, o: Seq<SpanOutcome>) -> Seq<
    Option<Vec<u16>>,
> {
    Seq::new(
        p.len(),
        |i: int|
            if p[i] is Some {
                p[i]
            } else {
                match o[none_rank(p, i) as int] {
                    Ok(d) => Some(d),
                    Err(_) => None,
                }
            },
    )
}

/// The per-span responses of a finished partial vector, in span order, as
/// word sequences.
pub open spec fn responses_of(p: Seq<Option<Vec<u16>>>) -> Seq<Seq<u16>> {
    Seq::new(p.len(), |i: int| p[i].unwrap()@)
}

/// `idxs` lists exactly the unfinished slots of `p`, in increasing order.
pub open spec fn is_issue_list(idxs: Seq<usize>, p: Seq<Option<Vec<u16>>>) -> bool {
    &&& idxs.len() == count_none(p)
    &&& forall|j: int|
        0 <= j < idxs.len() ==> (#[trigger] idxs[j]) < p.len() && p[idxs[j] as int] is None
            && none_rank(p, idxs[j] as int) == j
}

pub proof fn lemma_count_none_push(p: Seq<Option<Vec<u16>>>, x: Option<Vec<u16>>)
    ensures
        count_none(p.push(x)) == count_none(p) + (if x is None {
            1nat
        } else {
            0nat
        }),
    decreases p.len(),
{
    assert(p.push(x)[0] == if p.len() == 0 {
        x
    } else {
        p[0]
    });
    if p.len() == 0 {
        assert(p.push(x).skip(1) =~= Seq::<Option<Vec<u16>>>::empty());
        assert(count_none(p.push(x)) == (if x is None {
            1nat
        } else {
            0nat
        }) + count_none(Seq::<Option<Vec<u16>>>::empty()));
    } else {
        assert(p.push(x).skip(1) =~= p.skip(1).push(x));
        lemma_count_none_push(p.skip(1), x);
    }
}

/// List the spans that the next pass must issue: the unfinished slots, in
/// span order.
pub fn spans_to_issue(storage: &Storage) -> (idxs: Vec<usize>)
    ensures
        is_issue_list(idxs@, storage.partial@),
{
    let ghost p = storage.partial@;
    let mut idxs: Vec<usize> = Vec::new();
    let mut i: usize = 0;
    while i < storage.partial.len()
        invariant
            i <= p.len(),
            p == storage.partial@,
            idxs@.len() == count_none(p.take(i as int)),
            forall|j: int|
                0 <= j < idxs@.len() ==> (#[trigger] idxs@[j]) < i && p[idxs@[j] as int] is None
                    && none_rank(p, idxs@[j] as int) == j,
        decreases p.len() - i,
    {
        proof {
            assert(p.take(i as int + 1) =~= p.take(i as int).push(p[i as int]));
            lemma_count_none_push(p.take(i as int), p[i as int]);
        }
        if storage.partial[i].is_none() {
            idxs.push(i);
        }
        i = i + 1;
    }
    proof {
        assert(p.take(p.len() as int) =~= p);
    }
    idxs
}

impl Carrier {
    /// Build a request from arbitrary spans.
    pub fn new<S: Span>(destination: Destination, spans: &Vec<S>, kind: RequestKind) -> (c: Carrier)
        ensures
            c.destination == destination,
            c.kind == kind,
            c.spans@.len() == spans@.len(),
            forall|i: int|
                0 <= i < spans@.len() ==> (#[trigger] c.spans@[i]).address
                    == spans@[i].address_spec() && c.spans@[i].quantity as nat
                    == spans@[i].quantity_spec(),
    {
        Carrier { destination, spans: simplify_spans(spans), kind }
    }
}

/// An equal word vector, element by element.
fn copy_words(v: &Vec<u16>) -> (r: Vec<u16>)
    ensures
        r@ == v@,
{
    let mut r: Vec<u16> = Vec::new();
    let mut i: usize = 0;
    while i < v.len()
        invariant
            i <= v@.len(),
            r@ == v@.take(i as int),
        decreases v@.len() - i,
    {
        r.push(v[i]);
        i = i + 1;
        assert(r@ =~= v@.take(i as int));
    }
    assert(v@.take(v@.len() as int) =~= v@);
    r
}

/// A partial vector of `n` slots, none of them read yet.
fn empty_partial(n: usize) -> (r: Vec<Option<Vec<u16>>>)
    ensures
        r@ == Seq::new(n as nat, |i: int| None::<Vec<u16>>),
{
    let mut r: Vec<Option<Vec<u16>>> = Vec::new();
    let mut i: usize = 0;
    while i < n
        invariant
            i <= n,
            r@ == Seq::new(i as nat, |k: int| None::<Vec<u16>>),
        decreases n - i,
    {
        r.push(None);
        i = i + 1;
        assert(r@ =~= Seq::new(i as nat, |k: int| None::<Vec<u16>>));
    }
    r
}

pub proof fn lemma_count_none_take_monotone(p: Seq<Option<Vec<u16>>>, a: int, b: int)
    requires
        0 <= a <= b <= p.len(),
    ensures
        count_none(p.take(a)) <= count_none(p.take(b)),
    decreases b - a,
{
    if a < b {
        assert(p.take(a + 1) =~= p.take(a).push(p[a]));
        lemma_count_none_push(p.take(a), p[a]);
        lemma_count_none_take_monotone(p, a + 1, b);
    }
}

/// Distinct unfinished slots have distinct ranks.
pub proof fn lemma_none_rank_strict(p: Seq<Option<Vec<u16>>>, i1: int, i2: int)
    requires
        0 <= i1 < i2 <= p.len(),
        p[i1] is None,
    ensures
        none_rank(p, i1) < none_rank(p, i2),
{
    assert(p.take(i1 + 1) =~= p.take(i1).push(p[i1]));
    lemma_count_none_push(p.take(i1), p[i1]);
    lemma_count_none_take_monotone(p, i1 + 1, i2);
}

/// The rank of every unfinished slot is below the unfinished count.
pub proof fn lemma_none_rank_bound(p: Seq<Option<Vec<u16>>>, i: int)
    requires
        0 <= i < p.len(),
        p[i] is None,
    ensures
        none_rank(p, i) < count_none(p),
{
    assert(p.take(i + 1) =~= p.take(i).push(p[i]));
    lemma_count_none_push(p.take(i), p[i]);
    lemma_count_none_take_monotone(p, i + 1, p.len() as int);
    assert(p.take(p.len() as int) =~= p);
}

proof fn lemma_failed_errors_push(s: Seq<SpanOutcome>, x: SpanOutcome)
    ensures
        failed_errors(s.push(x)) == failed_errors(s) + (match x {
            Ok(_) => Seq::<ReadError>::empty(),
            Err(es) => es@,
        }),
    decreases s.len(),
{
    let tail = match x {
        Ok(_) => Seq::<ReadError>::empty(),
        Err(es) => es@,
    };
    assert(s.push(x)[0] == if s.len() == 0 {
        x
    } else {
        s[0]
    });
    if s.len() == 0 {
        assert(s.push(x).skip(1) =~= Seq::<SpanOutcome>::empty());
        assert(failed_errors(s.push(x)) == tail + failed_errors(Seq::<SpanOutcome>::empty()));
        assert(failed_errors(s) == Seq::<ReadError>::empty());
        assert(failed_errors(s.push(x)) =~= failed_errors(s) + tail);
    } else {
        assert(s.push(x).skip(1) =~= s.skip(1).push(x));
        lemma_failed_errors_push(s.skip(1), x);
        let head = match s[0] {
            Ok(_) => Seq::<ReadError>::empty(),
            Err(es) => es@,
        };
        assert(failed_errors(s.push(x)) == head + failed_errors(s.skip(1).push(x)));
        assert(failed_errors(s) == head + failed_errors(s.skip(1)));
        assert(failed_errors(s.push(x)) =~= failed_errors(s) + tail);
    }
}

proof fn lemma_failed_errors_take_step(o: Seq<SpanOutcome>, j: int)
    requires
        0 <= j < o.len(),
    ensures
        failed_errors(o.take(j + 1)) == failed_errors(o.take(j)) + (match o[j] {
            Ok(_) => Seq::<ReadError>::empty(),
            Err(es) => es@,
        }),
{
    assert(o.take(j + 1) =~= o.take(j).push(o[j]));
    lemma_failed_errors_push(o.take(j), o[j]);
}

/// Absorb one pass's outcomes into a storage: each issued outcome lands in
/// its slot, the collected errors of the failed ones come back for the
/// metrics, and a storage whose every span is now read yields its response.
pub fn absorb_outcomes(storage: &mut Storage, idxs: &Vec<usize>, outcomes: Vec<SpanOutcome>) -> (r:
    (Option<Response>, Vec<ReadError>))
    requires
        wf_storage(*old(storage)),
        is_issue_list(idxs@, old(storage).partial@),
        outcomes@.len() == idxs@.len(),
    ensures
        wf_storage(*final(storage)),
        final(storage).id == old(storage).id,
        final(storage).destination == old(storage).destination,
        final(storage).spans == old(storage).spans,
        final(storage).partial@ == apply_pass(old(storage).partial@, outcomes@),
        r.1@ == failed_errors(outcomes@),
        match r.0 {
            Some(resp) => count_none(final(storage).partial@) == 0 && resp.deep_view()
                == responses_of(final(storage).partial@),
            None => count_none(final(storage).partial@) != 0,
        },
{
    let ghost p0 = storage.partial@;
    let ghost o = outcomes@;
    let ghost id0 = storage.id;
    let ghost dest0 = storage.destination;
    let ghost spans0 = storage.spans;
    let mut errors: Vec<ReadError> = Vec::new();
    let mut outcomes = outcomes;
    let mut j: usize = 0;
    while j < idxs.len()
        invariant
            j <= idxs@.len(),
            idxs@.len() == o.len(),
            is_issue_list(idxs@, p0),
            outcomes@ == o.skip(j as int),
            storage.id == id0,
            storage.destination == dest0,
            storage.spans == spans0,
            storage.partial@.len() == p0.len(),
            forall|i: int|
                0 <= i < p0.len() ==> storage.partial@[i] == (if p0[i] is Some {
                    p0[i]
                } else if none_rank(p0, i) < j {
                    match o[none_rank(p0, i) as int] {
                        Ok(d) => Some(d),
                        Err(_) => None,
                    }
                } else {
                    p0[i]
                }),
            errors@ == failed_errors(o.take(j as int)),
        decreases idxs@.len() - j,
    {
        let idx = idxs[j];
        let outcome = outcomes.remove(0);
        proof {
            assert(o.skip(j as int)[0] == o[j as int]);
            assert(o.skip(j as int).skip(1) =~= o.skip(j as int + 1));
            lemma_failed_errors_take_step(o, j as int);
        }
        match outcome {
            Ok(data) => {
                storage.partial[idx] = Some(data);
            },
            Err(es) => {
                let mut es = es;
                errors.append(&mut es);
            },
        }
        j = j + 1;
        proof {
            assert forall|i: int|
                0 <= i < p0.len() implies storage.partial@[i] == (if p0[i] is Some {
                p0[i]
            } else if none_rank(p0, i) < j {
                match o[none_rank(p0, i) as int] {
                    Ok(d) => Some(d),
                    Err(_) => None,
                }
            } else {
                p0[i]
            }) by {
                if i != idx as int && p0[i] is None && none_rank(p0, i) == j - 1 {
                    // rank j-1 belongs to idx alone
                    if i < idx as int {
                        lemma_none_rank_strict(p0, i, idx as int);
                    } else {
                        lemma_none_rank_strict(p0, idx as int, i);
                    }
                }
            }
        }
    }
    proof {
        assert(o.skip(o.len() as int) =~= Seq::<SpanOutcome>::empty());
        assert(o.take(o.len() as int) =~= o);
        assert forall|i: int| 0 <= i < p0.len() && p0[i] is None implies none_rank(p0, i)
            < o.len() by {
            lemma_none_rank_bound(p0, i);
        }
        assert(storage.partial@ =~= apply_pass(p0, o));
    }
    // completion check over the updated slots
    let ghost p1 = storage.partial@;
    let mut complete = true;
    let mut i: usize = 0;
    while i < storage.partial.len()
        invariant
            i <= p1.len(),
            p1 == storage.partial@,
            storage.id == id0,
            storage.destination == dest0,
            storage.spans == spans0,
            complete == (count_none(p1.take(i as int)) == 0),
        decreases p1.len() - i,
    {
        proof {
            assert(p1.take(i as int + 1) =~= p1.take(i as int).push(p1[i as int]));
            lemma_count_none_push(p1.take(i as int), p1[i as int]);
        }
        if storage.partial[i].is_none() {
            complete = false;
        }
        i = i + 1;
    }
    proof {
        assert(p1.take(p1.len() as int) =~= p1);
    }
    if !complete {
        return (None, errors);
    }
    // all slots read: collect the responses in span order
    let mut resp: Response = Vec::new();
    let mut k: usize = 0;
    while k < storage.partial.len()
        invariant
            k <= p1.len(),
            p1 == storage.partial@,
            storage.id == id0,
            storage.destination == dest0,
            storage.spans == spans0,
            count_none(p1) == 0,
            resp@.len() == k as int,
            resp.deep_view() == responses_of(p1.take(k as int)),
        decreases p1.len() - k,
    {
        proof {
            lemma_count_none_take_monotone(p1, k as int + 1, p1.len() as int);
            assert(p1.take(k as int + 1) =~= p1.take(k as int).push(p1[k as int]));
            lemma_count_none_push(p1.take(k as int), p1[k as int]);
            assert(p1.take(p1.len() as int) =~= p1);
        }
        match &storage.partial[k] {
            Some(data) => {
                let words = copy_words(data);
                let ghost resp_before = resp@;
                proof {
                    assert(words.deep_view() =~= words@);
                    assert(words@ == p1[k as int].unwrap()@);
                }
                resp.push(words);
                proof {
                    assert(resp@ == resp_before.push(words));
                    assert(resp_before.len() == k as int);
                    assert forall|i: int| 0 <= i < k + 1 implies resp.deep_view()[i]
                        == responses_of(p1.take(k as int + 1))[i] by {
                        if i < k {
                            assert(resp@[i] == resp_before[i]);
                            assert(resp.deep_view()[i] == resp_before[i].deep_view());
                            assert(resp_before[i].deep_view() == responses_of(
                                p1.take(k as int),
                            )[i]);
                        } else {
                            assert(resp@[i] == words);
                        }
                    }
                    assert(resp.deep_view() =~= responses_of(p1.take(k as int + 1)));
                }
            },
            None => {
                // dead: the completion scan saw every slot read
                proof {
                    assert(false);
                }
                unreached::<()>();
            },
        }
        k = k + 1;
    }
    proof {
        assert(p1.take(p1.len() as int) =~= p1);
    }
    (Some(resp), errors)
}

/// The per-destination error tally of one worker pass.
#[derive(Debug)]
pub struct Metrics {
    pub errors: Vec<(Destination, Vec<ReadError>)>,
}

/// The errors recorded against one destination.
pub open spec fn metrics_lookup(
    entries: Seq<(Destination, Vec<ReadError>)>,
    d: Destination,
) -> Seq<ReadError>
    decreases entries.len(),
{
    if entries.len() == 0 {
        Seq::empty()
    } else if entries[0].0 == d {
        entries[0].1@
    } else {
        metrics_lookup(entries.skip(1), d)
    }
}

/// Whether any error at all was recorded.
pub open spec fn metrics_has_errors(entries: Seq<(Destination, Vec<ReadError>)>) -> bool
    decreases entries.len(),
{
    if entries.len() == 0 {
        false
    } else {
        entries[0].1@.len() > 0 || metrics_has_errors(entries.skip(1))
    }
}

pub open spec fn wf_metrics(entries: Seq<(Destination, Vec<ReadError>)>) -> bool {
    forall|i: int, j: int|
        0 <= i < j < entries.len() ==> (#[trigger] entries[i]).0 != (#[trigger] entries[j]).0
}

impl Metrics {
    /// A fresh tally: nothing recorded.
    pub fn new() -> (m: Metrics)
        ensures
            m.errors@ == Seq::<(Destination, Vec<ReadError>)>::empty(),
            wf_metrics(m.errors@),
    {
        Metrics { errors: Vec::new() }
    }

    /// Whether any error was recorded in this pass.
    pub fn has_errors(&self) -> (r: bool)
        ensures
            r == metrics_has_errors(self.errors@),
    {
        let ghost entries = self.errors@;
        proof {
            assert(entries.skip(0) =~= entries);
        }
        let mut i: usize = 0;
        while i < self.errors.len()
            invariant
                i <= entries.len(),
                entries == self.errors@,
                metrics_has_errors(entries) == metrics_has_errors(entries.skip(i as int)),
            decreases entries.len() - i,
        {
            proof {
                assert(entries.skip(i as int)[0] == entries[i as int]);
                assert(entries.skip(i as int).skip(1) =~= entries.skip(i as int + 1));
            }
            if self.errors[i].1.len() > 0 {
                return true;
            }
            i = i + 1;
        }
        proof {
            assert(entries.skip(entries.len() as int) =~= Seq::<(
                Destination,
                Vec<ReadError>,
            )>::empty());
        }
        false
    }
}

/// The recorded errors of one destination survive a lookup to the entry that
/// holds them.
proof fn lemma_lookup_first_match(entries: Seq<(Destination, Vec<ReadError>)>, i: int, d: Destination)
    requires
        0 <= i < entries.len(),
        entries[i].0 == d,
        forall|k: int| 0 <= k < i ==> (#[trigger] entries[k]).0 != d,
    ensures
        metrics_lookup(entries, d) == entries[i].1@,
    decreases i,
{
    if i > 0 {
        assert(entries.skip(1)[i - 1] == entries[i]);
        assert forall|k: int| 0 <= k < i - 1 implies (#[trigger] entries.skip(1)[k]).0 != d by {
            assert(entries.skip(1)[k] == entries[k + 1]);
        }
        lemma_lookup_first_match(entries.skip(1), i - 1, d);
    }
}

/// A destination recorded nowhere looks up to nothing.
proof fn lemma_lookup_no_match(entries: Seq<(Destination, Vec<ReadError>)>, d: Destination)
    requires
        forall|k: int| 0 <= k < entries.len() ==> (#[trigger] entries[k]).0 != d,
    ensures
        metrics_lookup(entries, d) == Seq::<ReadError>::empty(),
    decreases entries.len(),
{
    if entries.len() > 0 {
        assert forall|k: int| 0 <= k < entries.len() - 1 implies (#[trigger] entries.skip(1)[k]).0
            != d by {
            assert(entries.skip(1)[k] == entries[k + 1]);
        }
        lemma_lookup_no_match(entries.skip(1), d);
    }
}

/// Lookups see only an entry's destination and payload: two tallies whose
/// entries agree except where neither holds `d` look up alike at `d`.
proof fn lemma_lookup_agree(
    e1: Seq<(Destination, Vec<ReadError>)>,
    e2: Seq<(Destination, Vec<ReadError>)>,
    d: Destination,
)
    requires
        e1.len() == e2.len(),
        forall|k: int|
            0 <= k < e1.len() ==> (#[trigger] e1[k]) == e2[k] || (e1[k].0 == e2[k].0 && e1[k].0
                != d),
    ensures
        metrics_lookup(e1, d) == metrics_lookup(e2, d),
    decreases e1.len(),
{
    if e1.len() > 0 {
        assert forall|k: int|
            0 <= k < e1.len() - 1 implies (#[trigger] e1.skip(1)[k]) == e2.skip(1)[k] || (e1.skip(
            1,
        )[k].0 == e2.skip(1)[k].0 && e1.skip(1)[k].0 != d) by {
            assert(e1.skip(1)[k] == e1[k + 1]);
            assert(e2.skip(1)[k] == e2[k + 1]);
        }
        lemma_lookup_agree(e1.skip(1), e2.skip(1), d);
    }
}

proof fn lemma_lookup_push(
    entries: Seq<(Destination, Vec<ReadError>)>,
    x: (Destination, Vec<ReadError>),
    d: Destination,
)
    requires
        forall|k: int| 0 <= k < entries.len() ==> (#[trigger] entries[k]).0 != d,
    ensures
        metrics_lookup(entries.push(x), d) == if x.0 == d {
            x.1@
        } else {
            Seq::<ReadError>::empty()
        },
    decreases entries.len(),
{
    assert(entries.push(x)[0] == if entries.len() == 0 {
        x
    } else {
        entries[0]
    });
    if entries.len() == 0 {
        assert(entries.push(x).skip(1) =~= Seq::<(Destination, Vec<ReadError>)>::empty());
        if x.0 == d {
            assert(metrics_lookup(entries.push(x), d) == x.1@);
        } else {
            assert(metrics_lookup(entries.push(x), d) == metrics_lookup(
                Seq::<(Destination, Vec<ReadError>)>::empty(),
                d,
            ));
        }
    } else {
        assert(entries.push(x).skip(1) =~= entries.skip(1).push(x));
        assert(entries[0].0 != d);
        assert forall|k: int| 0 <= k < entries.len() - 1 implies (#[trigger] entries.skip(1)[k]).0
            != d by {
            assert(entries.skip(1)[k] == entries[k + 1]);
        }
        lemma_lookup_push(entries.skip(1), x, d);
    }
}

/// Pushing an entry for one destination leaves every other lookup unchanged.
proof fn lemma_lookup_push_other(
    entries: Seq<(Destination, Vec<ReadError>)>,
    x: (Destination, Vec<ReadError>),
    d: Destination,
)
    requires
        x.0 != d,
    ensures
        metrics_lookup(entries.push(x), d) == metrics_lookup(entries, d),
    decreases entries.len(),
{
    assert(entries.push(x)[0] == if entries.len() == 0 {
        x
    } else {
        entries[0]
    });
    if entries.len() == 0 {
        assert(entries.push(x).skip(1) =~= Seq::<(Destination, Vec<ReadError>)>::empty());
        assert(metrics_lookup(entries.push(x), d) == metrics_lookup(
            Seq::<(Destination, Vec<ReadError>)>::empty(),
            d,
        ));
    } else {
        assert(entries.push(x).skip(1) =~= entries.skip(1).push(x));
        lemma_lookup_push_other(entries.skip(1), x, d);
    }
}

impl Metrics {
    /// The entry that holds a destination's errors, if one is open.
    fn find_entry(&self, destination: &Destination) -> (r: Option<usize>)
        ensures
            match r {
                Some(ix) => ix < self.errors@.len() && self.errors@[ix as int].0 == *destination
                    && forall|k: int|
                    0 <= k < ix ==> (#[trigger] self.errors@[k]).0 != *destination,
                None => forall|k: int|
                    0 <= k < self.errors@.len() ==> (#[trigger] self.errors@[k]).0 != *destination,
            },
    {
        let mut i: usize = 0;
        while i < self.errors.len()
            invariant
                i <= self.errors@.len(),
                forall|k: int| 0 <= k < i ==> (#[trigger] self.errors@[k]).0 != *destination,
            decreases self.errors@.len() - i,
        {
            if self.errors[i].0.same(destination) {
                return Some(i);
            }
            i = i + 1;
        }
        None
    }

    /// Record one pass's errors against a destination, extending its entry
    /// or opening one.
    pub fn record(&mut self, destination: Destination, errs: Vec<ReadError>)
        requires
            wf_metrics(old(self).errors@),
        ensures
            wf_metrics(final(self).errors@),
            metrics_lookup(final(self).errors@, destination) == metrics_lookup(
                old(self).errors@,
                destination,
            ) + errs@,
            forall|d: Destination|
                d != destination ==> metrics_lookup(final(self).errors@, d) == metrics_lookup(
                    old(self).errors@,
                    d,
                ),
    {
        let ghost entries0 = self.errors@;
        let ghost errs0 = errs@;
        let mut pending = errs;
        match self.find_entry(&destination) {
            Some(ix) => {
                proof {
                    lemma_lookup_first_match(entries0, ix as int, destination);
                }
                let ghost old_payload = entries0[ix as int].1@;
                let entry = &mut self.errors[ix];
                entry.1.append(&mut pending);
                proof {
                    let updated = self.errors@;
                    assert(updated == entries0.update(
                        ix as int,
                        (destination, self.errors@[ix as int].1),
                    ));
                    assert(updated[ix as int].1@ == old_payload + errs0);
                    assert forall|k: int| 0 <= k < ix implies (#[trigger] updated[k]).0
                        != destination by {
                        assert(updated[k] == entries0[k]);
                    }
                    lemma_lookup_first_match(updated, ix as int, destination);
                    assert forall|d: Destination| d != destination implies metrics_lookup(
                        updated,
                        d,
                    ) == metrics_lookup(entries0, d) by {
                        lemma_lookup_agree(updated, entries0, d);
                    }
                    assert(wf_metrics(updated));
                }
            },
            None => {
                proof {
                    lemma_lookup_no_match(entries0, destination);
                }
                self.errors.push((destination, pending));
                proof {
                    let updated = self.errors@;
                    lemma_lookup_push(entries0, updated.last(), destination);
                    assert(metrics_lookup(updated, destination) =~= metrics_lookup(
                        entries0,
                        destination,
                    ) + updated.last().1@);
                    assert forall|d: Destination| d != destination implies metrics_lookup(
                        updated,
                        d,
                    ) == metrics_lookup(entries0, d) by {
                        lemma_lookup_push_other(entries0, updated.last(), d);
                    }
                    assert(wf_metrics(updated));
                }
            },
        }
    }
}

/// The worker's whole state: the in-flight requests by kind, the read
/// parameters, and whether termination was ordered.
#[derive(Debug)]
pub struct Task {
    pub oneshots: Vec<Storage>,
    pub streams: Vec<Storage>,
    pub params: Params,
    pub terminate: bool,
}

pub open spec fn wf_task(t: Task) -> bool {
    &&& forall|i: int| 0 <= i < t.oneshots@.len() ==> wf_storage(#[trigger] t.oneshots@[i])
    &&& forall|i: int| 0 <= i < t.streams@.len() ==> wf_storage(#[trigger] t.streams@[i])
}

/// What a freshly enqueued storage holds of its carrier: the destination and
/// spans carried over, every slot unread.
pub open spec fn enqueued_storage(s: Storage, c: Carrier) -> bool {
    &&& s.destination == c.destination
    &&& s.spans == c.spans
    &&& s.partial@ == Seq::new(c.spans@.len(), |i: int| None::<Vec<u16>>)
}

/// The parameters after one pass: on any error the timeout and backoff
/// double (from at least one millisecond, capped); on a clean pass they
/// halve, the timeout never below one millisecond. The attempt budget never
/// drops below one.
pub open spec fn tuned(p: Params, had_errors: bool) -> Params {
    Params {
        timeout_ms: if had_errors {
            if p.timeout_ms == 0 {
                2
            } else if p.timeout_ms > 30_000 {
                60_000
            } else {
                (2 * p.timeout_ms) as u64
            }
        } else {
            if p.timeout_ms / 2 < 1 {
                1
            } else {
                p.timeout_ms / 2
            }
        },
        backoff_ms: if had_errors {
            if p.backoff_ms == 0 {
                1
            } else if p.backoff_ms > 5_000 {
                10_000
            } else {
                (2 * p.backoff_ms) as u64
            }
        } else {
            p.backoff_ms / 2
        },
        retries: if p.retries == 0 {
            1
        } else {
            p.retries
        },
    }
}

impl Task {
    /// A fresh worker: no requests, not terminating.
    pub fn new(params: Params) -> (t: Task)
        ensures
            t.oneshots@ == Seq::<Storage>::empty(),
            t.streams@ == Seq::<Storage>::empty(),
            t.params == params,
            !t.terminate,
            wf_task(t),
    {
        Task { oneshots: Vec::new(), streams: Vec::new(), params, terminate: false }
    }

    /// Take in one intake message: a carrier becomes a fresh storage on the
    /// list its kind names; the terminate order raises the flag.
    pub fn handle_request(&mut self, request: TaskRequest)
        requires
            wf_task(*old(self)),
        ensures
            wf_task(*final(self)),
            final(self).params == old(self).params,
            match request {
                TaskRequest::Terminate => final(self).terminate && final(self).oneshots
                    == old(self).oneshots && final(self).streams == old(self).streams,
                TaskRequest::Carrier(c) => final(self).terminate == old(self).terminate
                    && match c.kind {
                    RequestKind::Oneshot => final(self).streams == old(self).streams
                        && final(self).oneshots@.len() == old(self).oneshots@.len() + 1
                        && final(self).oneshots@.take(old(self).oneshots@.len() as int)
                            == old(self).oneshots@
                        && enqueued_storage(final(self).oneshots@.last(), c),
                    RequestKind::Stream => final(self).oneshots == old(self).oneshots
                        && final(self).streams@.len() == old(self).streams@.len() + 1
                        && final(self).streams@.take(old(self).streams@.len() as int)
                            == old(self).streams@
                        && enqueued_storage(final(self).streams@.last(), c),
                },
            },
    {
        match request {
            TaskRequest::Terminate => {
                self.terminate = true;
            },
            TaskRequest::Carrier(c) => {
                let Carrier { destination, spans, kind } = c;
                let n = spans.len();
                let storage = Storage { id: fresh_id(), destination, spans, partial: empty_partial(n) };
                match kind {
                    RequestKind::Oneshot => {
                        self.oneshots.push(storage);
                        proof {
                            assert(final(self).oneshots@.take(old(self).oneshots@.len() as int)
                                =~= old(self).oneshots@);
                        }
                    },
                    RequestKind::Stream => {
                        self.streams.push(storage);
                        proof {
                            assert(final(self).streams@.take(old(self).streams@.len() as int)
                                =~= old(self).streams@);
                        }
                    },
                }
            },
        }
    }

    /// Reset one stream's progress after a delivered cycle: the next cycle
    /// reads every span again.
    pub fn reset_stream(&mut self, index: usize)
        requires
            wf_task(*old(self)),
            index < old(self).streams@.len(),
        ensures
            wf_task(*final(self)),
            final(self).oneshots == old(self).oneshots,
            final(self).params == old(self).params,
            final(self).terminate == old(self).terminate,
            final(self).streams@.len() == old(self).streams@.len(),
            forall|i: int|
                0 <= i < old(self).streams@.len() && i != index ==> final(self).streams@[i]
                    == old(self).streams@[i],
            final(self).streams@[index as int].id == old(self).streams@[index as int].id,
            final(self).streams@[index as int].destination
                == old(self).streams@[index as int].destination,
            final(self).streams@[index as int].spans == old(self).streams@[index as int].spans,
            final(self).streams@[index as int].partial@ == Seq::new(
                old(self).streams@[index as int].spans@.len(),
                |i: int| None::<Vec<u16>>,
            ),
    {
        let n = self.streams[index].spans.len();
        let fresh = empty_partial(n);
        let entry = &mut self.streams[index];
        entry.partial = fresh;
    }

    /// Termination drops every stream without a further reply; one-shots
    /// still finish.
    pub fn drop_streams(&mut self)
        requires
            wf_task(*old(self)),
        ensures
            wf_task(*final(self)),
            final(self).streams@ == Seq::<Storage>::empty(),
            final(self).oneshots == old(self).oneshots,
            final(self).params == old(self).params,
            final(self).terminate == old(self).terminate,
    {
        self.streams = Vec::new();
    }

    /// Close the pass: adjust the parameters from the error tally. The tuned
    /// parameters never drop the attempt budget below one nor the timeout
    /// below one millisecond.
    pub fn tune(&mut self, metrics: &Metrics)
        ensures
            final(self).oneshots == old(self).oneshots,
            final(self).streams == old(self).streams,
            final(self).terminate == old(self).terminate,
            final(self).params == tuned(old(self).params, metrics_has_errors(metrics.errors@)),
            final(self).params.retries >= 1,
            final(self).params.timeout_ms >= 1,
    {
        let had_errors = metrics.has_errors();
        let p = self.params;
        let timeout_ms: u64 = if had_errors {
            if p.timeout_ms == 0 {
                2
            } else if p.timeout_ms > 30_000 {
                60_000
            } else {
                2 * p.timeout_ms
            }
        } else {
            if p.timeout_ms / 2 < 1 {
                1
            } else {
                p.timeout_ms / 2
            }
        };
        let backoff_ms: u64 = if had_errors {
            if p.backoff_ms == 0 {
                1
            } else if p.backoff_ms > 5_000 {
                10_000
            } else {
                2 * p.backoff_ms
            }
        } else {
            p.backoff_ms / 2
        };
        let retries: u32 = if p.retries == 0 {
            1
        } else {
            p.retries
        };
        self.params = Params { timeout_ms, backoff_ms, retries };
    }
}

/// The storages that survive a pass: those whose id was not marked for
/// removal, in their original order.
pub open spec fn unmarked(storages: Seq<Storage>, marked: Seq<u128>) -> Seq<Storage>
    decreases storages.len(),
{
    if storages.len() == 0 {
        Seq::empty()
    } else {
        unmarked(storages.drop_last(), marked) + (if marked.contains(storages.last().id) {
            Seq::empty()
        } else {
            seq![storages.last()]
        })
    }
}

fn id_marked(marked: &Vec<u128>, id: u128) -> (r: bool)
    ensures
        r == marked@.contains(id),
{
    let mut i: usize = 0;
    while i < marked.len()
        invariant
            i <= marked@.len(),
            forall|k: int| 0 <= k < i ==> marked@[k] != id,
        decreases marked@.len() - i,
    {
        if marked[i] == id {
            return true;
        }
        i = i + 1;
    }
    false
}

/// Keep the storages whose id was not marked, in order.
pub fn retain_unmarked(storages: Vec<Storage>, marked: &Vec<u128>) -> (r: Vec<Storage>)
    ensures
        r@ == unmarked(storages@, marked@),
{
    let ghost all = storages@;
    let total = storages.len();
    proof {
        assert(all.len() == total);
    }
    let mut storages = storages;
    let mut r: Vec<Storage> = Vec::new();
    let mut i: usize = 0;
    while storages.len() > 0
        invariant
            i <= all.len() <= usize::MAX,
            storages@ == all.skip(i as int),
            r@ == unmarked(all.take(i as int), marked@),
        decreases all.len() - i,
    {
        let s = storages.remove(0);
        proof {
            assert(all.skip(i as int)[0] == all[i as int]);
            assert(all.skip(i as int).skip(1) =~= all.skip(i as int + 1));
            assert(all.take(i as int + 1).drop_last() =~= all.take(i as int));
            assert(all.take(i as int + 1).last() == all[i as int]);
        }
        if !id_marked(marked, s.id) {
            r.push(s);
            proof {
                assert(r@ =~= unmarked(all.take(i as int + 1), marked@));
            }
        } else {
            proof {
                assert(r@ =~= unmarked(all.take(i as int + 1), marked@));
            }
        }
        i = i + 1;
    }
    proof {
        assert(all.skip(all.len() as int) =~= Seq::<Storage>::empty());
        assert(all.take(all.len() as int) =~= all);
        assert(i as int == all.len());
    }
    r
}

/// Why a one-shot request failed: the connection could not be opened, or a
/// channel closed before the reply.
#[derive(Debug)]
pub enum SendError {
    FailedToConnect(ConnectError),
    ChannelDisconnected(String),
}

/// Why opening a stream failed.
#[derive(Debug)]
pub enum StreamError {
    ChannelDisconnected(String),
}

/// Why termination could not be ordered.
#[derive(Debug)]
pub enum TerminateError {
    ChannelDisconnected(String),
}

/// Either layer's error of a nested result.
#[derive(Debug, Clone, PartialEq, Eq)]
pub enum FlatError<E1, E2> {
    Inner(E1),
    Outer(E2),
}

/// Collapse a nested result, keeping whichever error occurred.
pub fn flatten_result<T, E1, E2>(result: Result<Result<T, E1>, E2>) -> (r: Result<
    T,
    FlatError<E1, E2>,
>)
    ensures
        match result {
            Ok(Ok(v)) => r matches Ok(x) && x == v,
            Ok(Err(e)) => r matches Err(FlatError::Inner(x)) && x == e,
            Err(e) => r matches Err(FlatError::Outer(x)) && x == e,
        },
{
    match result {
        Ok(Ok(v)) => Ok(v),
        Ok(Err(e)) => Err(FlatError::Inner(e)),
        Err(e) => Err(FlatError::Outer(e)),
    }
}

/// How many outcomes of a pass failed.
pub open spec fn err_count(o: Seq<SpanOutcome>) -> nat
    decreases o.len(),
{
    if o.len() == 0 {
        0
    } else {
        (if o[0] is Err {
            1nat
        } else {
            0nat
        }) + err_count(o.skip(1))
    }
}

proof fn lemma_ok_err_split(o: Seq<SpanOutcome>)
    ensures
        ok_count(o) + err_count(o) == o.len(),
    decreases o.len(),
{
    if o.len() > 0 {
        lemma_ok_err_split(o.skip(1));
    }
}

/// No slot is unfinished exactly when every slot holds its response.
pub proof fn lemma_count_none_zero(p: Seq<Option<Vec<u16>>>)
    ensures
        (count_none(p) == 0) <==> (forall|i: int| 0 <= i < p.len() ==> p[i] is Some),
    decreases p.len(),
{
    if p.len() > 0 {
        lemma_count_none_zero(p.skip(1));
        if count_none(p) == 0 {
            assert forall|i: int| 0 <= i < p.len() implies p[i] is Some by {
                if i > 0 {
                    assert(p.skip(1)[i - 1] == p[i]);
                }
            }
        } else {
            if p[0] is Some {
                assert(count_none(p.skip(1)) != 0);
            }
        }
    }
}

/// A slot's rank splits off the first slot.
proof fn lemma_rank_skip(p: Seq<Option<Vec<u16>>>, i: int)
    requires
        1 <= i <= p.len(),
    ensures
        none_rank(p, i) == (if p[0] is None {
            1nat
        } else {
            0nat
        }) + none_rank(p.skip(1), i - 1),
{
    assert(p.take(i)[0] == p[0]);
    assert(p.take(i).skip(1) =~= p.skip(1).take(i - 1));
}

/// One pass finishes exactly one slot per successful outcome.
pub proof fn lemma_pass_progress(p: Seq<Option<Vec<u16>>>, o: Seq<SpanOutcome>)
    requires
        o.len() == count_none(p),
    ensures
        count_none(apply_pass(p, o)) + ok_count(o) == count_none(p),
    decreases p.len(),
{
    if p.len() == 0 {
        assert(apply_pass(p, o) =~= Seq::<Option<Vec<u16>>>::empty());
    } else if p[0] is Some {
        assert forall|i: int| 0 <= i < p.len() - 1 implies apply_pass(p, o).skip(1)[i]
            == apply_pass(p.skip(1), o)[i] by {
            assert(apply_pass(p, o).skip(1)[i] == apply_pass(p, o)[i + 1]);
            assert(p.skip(1)[i] == p[i + 1]);
            if p[i + 1] is None {
                lemma_rank_skip(p, i + 1);
            }
        }
        assert(apply_pass(p, o).skip(1) =~= apply_pass(p.skip(1), o));
        assert(p.take(0) =~= Seq::<Option<Vec<u16>>>::empty());
        lemma_pass_progress(p.skip(1), o);
        assert(apply_pass(p, o)[0] == p[0]);
        assert(count_none(apply_pass(p, o)) == count_none(apply_pass(p, o).skip(1)));
    } else {
        assert(p.take(0) =~= Seq::<Option<Vec<u16>>>::empty());
        assert(none_rank(p, 0) == 0);
        assert(o.len() >= 1);
        assert forall|i: int| 0 <= i < p.len() - 1 implies apply_pass(p, o).skip(1)[i]
            == apply_pass(p.skip(1), o.skip(1))[i] by {
            assert(apply_pass(p, o).skip(1)[i] == apply_pass(p, o)[i + 1]);
            assert(p.skip(1)[i] == p[i + 1]);
            if p[i + 1] is None {
                lemma_rank_skip(p, i + 1);
                lemma_none_rank_bound(p.skip(1), i);
                assert(count_none(p) == 1 + count_none(p.skip(1)));
                assert(o[none_rank(p, i + 1) as int] == o.skip(1)[none_rank(p.skip(1), i)
                    as int]);
            }
        }
        assert(apply_pass(p, o).skip(1) =~= apply_pass(p.skip(1), o.skip(1)));
        lemma_pass_progress(p.skip(1), o.skip(1));
        assert(apply_pass(p, o)[0] == (match o[0] {
            Ok(d) => Some(d),
            Err(_) => None,
        }));
        assert(count_none(apply_pass(p, o)) == (if apply_pass(p, o)[0] is None {
            1nat
        } else {
            0nat
        }) + count_none(apply_pass(p.skip(1), o.skip(1))));
    }
}

/// The partial vector after a whole run of passes.
pub open spec fn run_passes(p: Seq<Option<Vec<u16>>>, passes: Seq<Seq<SpanOutcome>>) -> Seq<
    Option<Vec<u16>>,
>
    decreases passes.len(),
{
    if passes.len() == 0 {
        p
    } else {
        run_passes(apply_pass(p, passes[0]), passes.skip(1))
    }
}

/// Each pass issues exactly one read round per slot then unfinished.
pub open spec fn wf_passes(p: Seq<Option<Vec<u16>>>, passes: Seq<Seq<SpanOutcome>>) -> bool
    decreases passes.len(),
{
    if passes.len() == 0 {
        true
    } else {
        passes[0].len() == count_none(p) && wf_passes(apply_pass(p, passes[0]), passes.skip(1))
    }
}

/// How many span reads a run of passes issues on the network.
pub open spec fn total_issued(p: Seq<Option<Vec<u16>>>, passes: Seq<Seq<SpanOutcome>>) -> nat
    decreases passes.len(),
{
    if passes.len() == 0 {
        0
    } else {
        count_none(p) + total_issued(apply_pass(p, passes[0]), passes.skip(1))
    }
}

/// How many of a run's issued reads failed.
pub open spec fn total_failed(passes: Seq<Seq<SpanOutcome>>) -> nat
    decreases passes.len(),
{
    if passes.len() == 0 {
        0
    } else {
        err_count(passes[0]) + total_failed(passes.skip(1))
    }
}

/// Law: over any run of passes, the span reads issued for a storage number
/// one per slot finished during the run plus one per failed issue. For a run
/// that completes the storage, that is one per slot not pre-populated at the
/// start, plus the failures.
pub proof fn lemma_read_accounting(p: Seq<Option<Vec<u16>>>, passes: Seq<Seq<SpanOutcome>>)
    requires
        wf_passes(p, passes),
    ensures
        total_issued(p, passes) + count_none(run_passes(p, passes)) == count_none(p)
            + total_failed(passes),
    decreases passes.len(),
{
    if passes.len() > 0 {
        lemma_pass_progress(p, passes[0]);
        lemma_ok_err_split(passes[0]);
        lemma_read_accounting(apply_pass(p, passes[0]), passes.skip(1));
    }
}

/// Law: a cycle's response is delivered exactly when every span of the cycle
/// has completed: the pass leaves no slot unfinished.
pub proof fn lemma_stream_delivery(p: Seq<Option<Vec<u16>>>, o: Seq<SpanOutcome>)
    requires
        o.len() == count_none(p),
    ensures
        (count_none(apply_pass(p, o)) == 0) <==> (forall|i: int|
            0 <= i < p.len() ==> apply_pass(p, o)[i] is Some),
{
    lemma_count_none_zero(apply_pass(p, o));
}

} // verus!
