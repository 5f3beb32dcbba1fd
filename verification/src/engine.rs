//! The reconciliation run as a state machine.
//!
//! The engine decides what happens next; whoever drives it does the fetching. It
//! asks for the tracker's vulnerabilities one severity bucket after the other,
//! asks for the upstream record of each vulnerability that carries an average
//! score, and hands out the finished rows in the order in which the tracker
//! listed the vulnerabilities.

use vstd::prelude::*;
use vstd::string::*;
use crate::analysis::{
    lemma_no_average_no_flags, reconcile, report_row, ReportHeader, SpecReportHeader,
};
use crate::cve::{CVEListV5, SpecCVEListV5};
use crate::resolver::ResolveError;
use crate::tpa::{SpecTPAVulns, SpecVulnerability, TPAVulns, TrackerError, Vulnerability};

verus! {

/// The number of severity buckets.
pub const BUCKETS: usize = 6;

/// The label of a severity bucket. The buckets are visited in this order.
pub open spec fn severity_label(bucket: int) -> Seq<char> {
    if bucket == 0 {
        "low"@
    } else if bucket == 1 {
        "medium"@
    } else if bucket == 2 {
        "high"@
    } else if bucket == 3 {
        "critical"@
    } else if bucket == 4 {
        "null"@
    } else {
        "none"@
    }
}

/// The page size asked of the tracker for every bucket.
pub open spec fn page_limit() -> Seq<char> {
    "50"@
}

fn label_of(bucket: usize) -> (label: &'static str)
    requires
        bucket < BUCKETS,
    ensures
        label@ == severity_label(bucket as int),
{
    if bucket == 0 {
        "low"
    } else if bucket == 1 {
        "medium"
    } else if bucket == 2 {
        "high"
    } else if bucket == 3 {
        "critical"
    } else if bucket == 4 {
        "null"
    } else {
        "none"
    }
}

/// The labels of the severity buckets, in the order in which they are visited.
pub fn severity_labels() -> (labels: Vec<&'static str>)
    ensures
        labels.len() == BUCKETS,
        forall|bucket: int|
            0 <= bucket < BUCKETS ==> (#[trigger] labels[bucket])@ == severity_label(bucket),
{
    let mut labels: Vec<&'static str> = Vec::new();
    let mut bucket: usize = 0;
    while bucket < BUCKETS
        invariant
            bucket <= BUCKETS,
            labels.len() == bucket,
            forall|k: int| 0 <= k < bucket ==> (#[trigger] labels[k])@ == severity_label(k),
        decreases BUCKETS - bucket,
    {
        labels.push(label_of(bucket));
        bucket = bucket + 1;
    }
    labels
}

/// What the engine asks of its driver.
#[derive(Debug)]
pub enum Request {
    /// Fetch the tracker's vulnerabilities of one severity, a single page of at
    /// most `limit` items, and answer with [`Reply::Bucket`].
    FetchBucket { severity: String, limit: String },
    /// Resolve the upstream record of an identifier and answer with
    /// [`Reply::Record`].
    Resolve { cve_id: String },
    /// Every bucket has been reconciled: close the report.
    Finish,
    /// The tracker failed: the run ends here.
    Abort { error: TrackerError },
}

/// What the driver answers.
#[derive(Debug)]
pub enum Reply {
    /// The answer to [`Request::FetchBucket`].
    Bucket(Result<TPAVulns, TrackerError>),
    /// The answer to [`Request::Resolve`].
    Record(Result<CVEListV5, ResolveError>),
}

/// The result of one step: the rows that are ready, in the order in which they
/// are to be written, and what to do after writing them.
#[derive(Debug)]
pub struct Step {
    pub rows: Vec<ReportHeader>,
    pub next: Request,
}

/// Model of [`Request`].
pub enum SpecRequest {
    FetchBucket { severity: Seq<char>, limit: Seq<char> },
    Resolve { cve_id: Seq<char> },
    Finish,
    Abort { error: TrackerError },
}

/// Model of [`Reply`].
pub enum SpecReply {
    Bucket(Result<SpecTPAVulns, TrackerError>),
    Record(Result<SpecCVEListV5, ResolveError>),
}

/// Model of [`Step`].
pub struct SpecStep {
    pub rows: Seq<SpecReportHeader>,
    pub next: SpecRequest,
}

impl DeepView for Request {
    type V = SpecRequest;

    open spec fn deep_view(&self) -> SpecRequest {
        match *self {
            Request::FetchBucket { severity, limit } => SpecRequest::FetchBucket {
                severity: severity@,
                limit: limit@,
            },
            Request::Resolve { cve_id } => SpecRequest::Resolve { cve_id: cve_id@ },
            Request::Finish => SpecRequest::Finish,
            Request::Abort { error } => SpecRequest::Abort { error },
        }
    }
}

impl DeepView for Reply {
    type V = SpecReply;

    open spec fn deep_view(&self) -> SpecReply {
        match *self {
            Reply::Bucket(Ok(page)) => SpecReply::Bucket(Ok(page.deep_view())),
            Reply::Bucket(Err(error)) => SpecReply::Bucket(Err(error)),
            Reply::Record(Ok(record)) => SpecReply::Record(Ok(record.deep_view())),
            Reply::Record(Err(error)) => SpecReply::Record(Err(error)),
        }
    }
}

impl DeepView for Step {
    type V = SpecStep;

    open spec fn deep_view(&self) -> SpecStep {
        SpecStep { rows: self.rows.deep_view(), next: self.next.deep_view() }
    }
}

/// The index of the first vulnerability at or after `from` that carries an
/// average score, or the number of vulnerabilities if there is none.
pub open spec fn next_scored(items: Seq<SpecVulnerability>, from: int) -> int
    decreases items.len() - from,
{
    if from < 0 || from >= items.len() {
        items.len() as int
    } else if items[from].average_score is Some {
        from
    } else {
        next_scored(items, from + 1)
    }
}

/// The rows of the vulnerabilities from `from` up to `to`, none of them compared
/// against a record.
pub open spec fn unscored_rows(items: Seq<SpecVulnerability>, from: int, to: int) -> Seq<
    SpecReportHeader,
> {
    Seq::new((to - from) as nat, |k: int| report_row(items[from + k], None))
}

/// The record that the outcome of a resolution stands for: a record that could
/// not be resolved, for whichever reason, is no record.
pub open spec fn resolved(outcome: Result<SpecCVEListV5, ResolveError>) -> Option<SpecCVEListV5> {
    match outcome {
        Ok(record) => Some(record),
        Err(_) => None,
    }
}

/// The rows of a whole page of vulnerabilities, one each and in the order of the
/// page, where `outcomes[i]` is how resolving the record of vulnerability `i` ends.
pub open spec fn bucket_rows(
    items: Seq<SpecVulnerability>,
    outcomes: Seq<Result<SpecCVEListV5, ResolveError>>,
) -> Seq<SpecReportHeader> {
    Seq::new(items.len(), |i: int| report_row(items[i], resolved(outcomes[i])))
}

/// Model of an [`Engine`].
pub struct SpecEngine {
    /// The bucket that is being fetched or reconciled; `BUCKETS` once the run is over.
    pub bucket: int,
    /// The vulnerabilities of the current bucket that are not yet reconciled,
    /// counted from `cursor`.
    pub items: Seq<SpecVulnerability>,
    /// The vulnerability whose record has been asked for.
    pub cursor: int,
    /// The tracker error that ended the run, if one did.
    pub failure: Option<TrackerError>,
}

impl SpecEngine {
    /// The state before the first request.
    pub open spec fn initial() -> SpecEngine {
        SpecEngine { bucket: 0, items: Seq::empty(), cursor: 0, failure: None }
    }

    /// Whether the engine waits for the record of a vulnerability.
    pub open spec fn awaits_record(self) -> bool {
        0 <= self.cursor < self.items.len()
    }

    /// Whether the engine waits for the vulnerabilities of a bucket.
    pub open spec fn awaits_bucket(self) -> bool {
        !self.awaits_record() && 0 <= self.bucket < BUCKETS
    }

    /// Whether the run is over.
    pub open spec fn finished(self) -> bool {
        !self.awaits_record() && !self.awaits_bucket()
    }

    /// The request that is outstanding in this state.
    pub open spec fn pending(self) -> SpecRequest {
        if self.awaits_record() {
            SpecRequest::Resolve { cve_id: self.items[self.cursor].identifier }
        } else if self.awaits_bucket() {
            SpecRequest::FetchBucket { severity: severity_label(self.bucket), limit: page_limit() }
        } else {
            match self.failure {
                Some(error) => SpecRequest::Abort { error },
                None => SpecRequest::Finish,
            }
        }
    }

    /// The state once the vulnerabilities before `from` are reconciled: it waits
    /// for the record of the next vulnerability with an average score, or moves to
    /// the next bucket if there is none.
    pub open spec fn resume(self, items: Seq<SpecVulnerability>, from: int) -> SpecEngine {
        let stop = next_scored(items, from);
        if stop < items.len() {
            SpecEngine { bucket: self.bucket, items, cursor: stop, failure: None }
        } else {
            SpecEngine { bucket: self.bucket + 1, items: Seq::empty(), cursor: 0, failure: None }
        }
    }

    /// The state after a reply.
    pub open spec fn after(self, reply: SpecReply) -> SpecEngine {
        match reply {
            SpecReply::Record(_) if self.awaits_record() => self.resume(self.items, self.cursor + 1),
            SpecReply::Bucket(Ok(page)) if self.awaits_bucket() => self.resume(page.items, 0),
            SpecReply::Bucket(Err(error)) if self.awaits_bucket() => SpecEngine {
                bucket: BUCKETS as int,
                items: Seq::empty(),
                cursor: 0,
                failure: Some(error),
            },
            _ => self,
        }
    }

    /// The rows that a reply completes, in the order in which they are written:
    /// the row of the vulnerability whose record was awaited, if one was, and then
    /// the rows of the vulnerabilities after it that are not compared against a
    /// record, up to the next one that is.
    pub open spec fn rows(self, reply: SpecReply) -> Seq<SpecReportHeader> {
        match reply {
            SpecReply::Record(outcome) if self.awaits_record() => {
                seq![report_row(self.items[self.cursor], resolved(outcome))] + unscored_rows(
                    self.items,
                    self.cursor + 1,
                    next_scored(self.items, self.cursor + 1),
                )
            },
            SpecReply::Bucket(Ok(page)) if self.awaits_bucket() => unscored_rows(
                page.items,
                0,
                next_scored(page.items, 0),
            ),
            _ => Seq::empty(),
        }
    }
}

impl SpecEngine {
    /// What holds of every state that an engine can be in.
    pub open spec fn wf(self) -> bool {
        &&& 0 <= self.bucket <= BUCKETS
        &&& 0 <= self.cursor <= self.items.len()
        &&& self.cursor == self.items.len() ==> self.items.len() == 0
        &&& self.awaits_record() ==> self.bucket < BUCKETS && self.items[self.cursor].average_score
            is Some
        &&& self.failure is Some ==> self.bucket == BUCKETS
    }
}

/// `next_scored` stops at the first vulnerability with an average score: it stays
/// within the list, and no vulnerability that it passes over has one.
pub proof fn lemma_next_scored(items: Seq<SpecVulnerability>, from: int)
    requires
        0 <= from <= items.len(),
    ensures
        from <= next_scored(items, from) <= items.len(),
        next_scored(items, from) < items.len() ==> items[next_scored(items, from)].average_score
            is Some,
        forall|k: int|
            from <= k < next_scored(items, from) ==> (#[trigger] items[k]).average_score is None,
    decreases items.len() - from,
{
    if from < items.len() && items[from].average_score is None {
        lemma_next_scored(items, from + 1);
    }
}

/// The reconciliation run: which bucket it is at, and which vulnerabilities of
/// that bucket are still to be reconciled.
#[derive(Debug)]
pub struct Engine {
    bucket: usize,
    items: Vec<Vulnerability>,
    cursor: usize,
    failure: Option<TrackerError>,
}

impl DeepView for Engine {
    type V = SpecEngine;

    closed spec fn deep_view(&self) -> SpecEngine {
        SpecEngine {
            bucket: self.bucket as int,
            items: self.items.deep_view(),
            cursor: self.cursor as int,
            failure: self.failure,
        }
    }
}

impl Engine {
    #[verifier::type_invariant]
    spec fn consistent(self) -> bool {
        &&& self.deep_view().wf()
        &&& self.bucket < BUCKETS ==> self.failure is None
    }

    /// A run at its beginning. Its first request is for the first bucket.
    pub fn start() -> (engine: Engine)
        ensures
            engine.deep_view() == SpecEngine::initial(),
            engine.deep_view().wf(),
    {
        let items: Vec<Vulnerability> = Vec::new();
        assert(items.deep_view() == Seq::<SpecVulnerability>::empty());
        Engine { bucket: 0, items, cursor: 0, failure: None }
    }

    /// The request that is outstanding. Asking again changes nothing.
    pub fn pending(&self) -> (request: Request)
        ensures
            request.deep_view() == self.deep_view().pending(),
            self.deep_view().wf(),
    {
        proof {
            use_type_invariant(self);
        }
        if self.cursor < self.items.len() {
            Request::Resolve { cve_id: self.items[self.cursor].identifier.clone() }
        } else if self.bucket < BUCKETS {
            Request::FetchBucket {
                severity: String::from_str(label_of(self.bucket)),
                limit: String::from_str("50"),
            }
        } else {
            match self.failure {
                Some(error) => Request::Abort { error },
                None => Request::Finish,
            }
        }
    }

    /// Reconciles the vulnerabilities from `from` on that need no record, adds
    /// their rows to `rows`, and stops at the first that needs one.
    fn drain(items: &Vec<Vulnerability>, from: usize, rows: &mut Vec<ReportHeader>) -> (stop: usize)
        requires
            from <= items.len(),
        ensures
            stop == next_scored(items.deep_view(), from as int),
            from <= stop <= items.len(),
            final(rows).deep_view() == old(rows).deep_view() + unscored_rows(
                items.deep_view(),
                from as int,
                stop as int,
            ),
    {
        let ghost all = items.deep_view();
        let ghost before = rows.deep_view();
        let mut stop: usize = from;
        proof {
            assert(rows.deep_view() == before + unscored_rows(all, from as int, from as int));
        }
        while stop < items.len() && items[stop].average_score.is_none()
            invariant
                from <= stop <= items.len(),
                all == items.deep_view(),
                next_scored(all, from as int) == next_scored(all, stop as int),
                rows.deep_view() == before + unscored_rows(all, from as int, stop as int),
            decreases items.len() - stop,
        {
            let ghost so_far = rows.deep_view();
            assert(all[stop as int] == items[stop as int].deep_view());
            let row = reconcile(&items[stop], None);
            rows.push(row);
            proof {
                assert(rows.deep_view() == so_far.push(row.deep_view()));
                assert(unscored_rows(all, from as int, stop + 1) == unscored_rows(
                    all,
                    from as int,
                    stop as int,
                ).push(row.deep_view()));
            }
            stop = stop + 1;
        }
        proof {
            if stop < items.len() {
                assert(all[stop as int] == items[stop as int].deep_view());
            }
        }
        stop
    }

    /// The state that follows once the vulnerabilities of `items` before `stop`
    /// are reconciled, where `stop` is the next one that needs a record.
    fn resume(bucket: usize, items: Vec<Vulnerability>, stop: usize) -> (engine: Engine)
        requires
            bucket < BUCKETS,
            stop == next_scored(items.deep_view(), stop as int),
            stop <= items.len(),
        ensures
            engine.deep_view() == (SpecEngine {
                bucket: bucket as int,
                items: items.deep_view(),
                cursor: stop as int,
                failure: None,
            }).resume(items.deep_view(), stop as int),
    {
        if stop < items.len() {
            proof {
                lemma_next_scored(items.deep_view(), stop as int);
                assert(items.deep_view()[stop as int] == items[stop as int].deep_view());
            }
            Engine { bucket, items, cursor: stop, failure: None }
        } else {
            let none: Vec<Vulnerability> = Vec::new();
            assert(none.deep_view() == Seq::<SpecVulnerability>::empty());
            Engine { bucket: bucket + 1, items: none, cursor: 0, failure: None }
        }
    }

    fn advance(self, reply: Reply) -> (r: (Engine, Vec<ReportHeader>))
        ensures
            r.0.deep_view() == self.deep_view().after(reply.deep_view()),
            r.1.deep_view() == self.deep_view().rows(reply.deep_view()),
    {
        proof {
            use_type_invariant(&self);
        }
        let mut rows: Vec<ReportHeader> = Vec::new();
        assert(rows.deep_view() == Seq::<SpecReportHeader>::empty());
        let waits_record = self.cursor < self.items.len();
        let waits_bucket = !waits_record && self.bucket < BUCKETS;
        match reply {
            Reply::Record(outcome) if waits_record => {
                assert(self.items.deep_view()[self.cursor as int]
                    == self.items[self.cursor as int].deep_view());
                let row = match &outcome {
                    Ok(record) => reconcile(&self.items[self.cursor], Some(record)),
                    Err(_) => reconcile(&self.items[self.cursor], None),
                };
                rows.push(row);
                assert(rows.deep_view() == seq![row.deep_view()]);
                let stop = Self::drain(&self.items, self.cursor + 1, &mut rows);
                proof {
                    lemma_next_scored(self.items.deep_view(), self.cursor + 1);
                    lemma_next_scored_idempotent(self.items.deep_view(), self.cursor + 1);
                }
                (Self::resume(self.bucket, self.items, stop), rows)
            },
            Reply::Bucket(Ok(page)) if waits_bucket => {
                let stop = Self::drain(&page.items, 0, &mut rows);
                proof {
                    lemma_next_scored_idempotent(page.items.deep_view(), 0);
                }
                (Self::resume(self.bucket, page.items, stop), rows)
            },
            Reply::Bucket(Err(error)) if waits_bucket => {
                let none: Vec<Vulnerability> = Vec::new();
                assert(none.deep_view() == Seq::<SpecVulnerability>::empty());
                (Engine { bucket: BUCKETS, items: none, cursor: 0, failure: Some(error) }, rows)
            },
            _ => (self, rows),
        }
    }

    /// Takes the driver's reply to the outstanding request and moves on.
    ///
    /// A reply to [`Request::Resolve`] completes the row of the vulnerability it
    /// was asked for; a record that could not be resolved counts as a record
    /// without a score. A page of vulnerabilities starts a bucket; a tracker error
    /// ends the run. Vulnerabilities without an average score are reconciled at
    /// once, without a request. A reply that answers no outstanding request is
    /// ignored: no row is handed out and the outstanding request is repeated.
    pub fn step(&mut self, reply: Reply) -> (step: Step)
        ensures
            final(self).deep_view() == old(self).deep_view().after(reply.deep_view()),
            step.deep_view() == (SpecStep {
                rows: old(self).deep_view().rows(reply.deep_view()),
                next: final(self).deep_view().pending(),
            }),
            final(self).deep_view().wf(),
    {
        let mut state = Engine::start();
        std::mem::swap(self, &mut state);
        let (after, rows) = state.advance(reply);
        *self = after;
        let next = self.pending();
        Step { rows, next }
    }
}

/// Searching on from where `next_scored` stopped finds the same place.
pub proof fn lemma_next_scored_idempotent(items: Seq<SpecVulnerability>, from: int)
    requires
        0 <= from <= items.len(),
    ensures
        next_scored(items, next_scored(items, from)) == next_scored(items, from),
    decreases items.len() - from,
{
    if from < items.len() && items[from].average_score is None {
        lemma_next_scored_idempotent(items, from + 1);
    }
}

impl SpecEngine {
    /// The run through the rest of the current bucket: every request for a record
    /// is answered with the outcome for the vulnerability it names, until the
    /// engine leaves the bucket. Yields the state it ends in and the rows handed
    /// out on the way, in order.
    pub open spec fn run_bucket(
        self,
        outcomes: Seq<Result<SpecCVEListV5, ResolveError>>,
    ) -> (SpecEngine, Seq<SpecReportHeader>)
        decreases self.items.len() - self.cursor,
    {
        if self.awaits_record() {
            let reply = SpecReply::Record(outcomes[self.cursor]);
            proof {
                lemma_next_scored(self.items, self.cursor + 1);
            }
            let (end, rest) = self.after(reply).run_bucket(outcomes);
            (end, self.rows(reply) + rest)
        } else {
            (self, Seq::empty())
        }
    }

    /// The state in which the engine asks for the vulnerabilities of `bucket`.
    pub open spec fn at_bucket(bucket: int) -> SpecEngine {
        SpecEngine { bucket, items: Seq::empty(), cursor: 0, failure: None }
    }
}

/// Every reply leaves the engine in a well-formed state.
pub proof fn lemma_after_keeps_wf(engine: SpecEngine, reply: SpecReply)
    requires
        engine.wf(),
    ensures
        engine.after(reply).wf(),
{
    if engine.awaits_record() {
        lemma_next_scored(engine.items, engine.cursor + 1);
    }
    if let SpecReply::Bucket(Ok(page)) = reply {
        lemma_next_scored(page.items, 0);
    }
}

/// The record of a vulnerability is asked for only if the tracker reports an
/// average score for it: where there is none, nothing is resolved and nothing is
/// compared.
pub proof fn lemma_resolves_only_scored(engine: SpecEngine)
    requires
        engine.wf(),
        engine.pending() is Resolve,
    ensures
        engine.awaits_record(),
        engine.items[engine.cursor].average_score is Some,
        engine.pending() == (SpecRequest::Resolve {
            cve_id: engine.items[engine.cursor].identifier,
        }),
{
}

/// The buckets are asked for in their fixed order, and a tracker error ends the
/// run at once: the engine hands out no row and asks for nothing more.
pub proof fn lemma_tracker_error_ends_run(engine: SpecEngine, error: TrackerError, reply: SpecReply)
    requires
        engine.wf(),
        engine.awaits_bucket(),
    ensures
        engine.pending() == (SpecRequest::FetchBucket {
            severity: severity_label(engine.bucket),
            limit: page_limit(),
        }),
        engine.rows(SpecReply::Bucket(Err(error))) == Seq::<SpecReportHeader>::empty(),
        engine.after(SpecReply::Bucket(Err(error))).pending() == (SpecRequest::Abort { error }),
        engine.after(SpecReply::Bucket(Err(error))).after(reply) == engine.after(
            SpecReply::Bucket(Err(error)),
        ),
        engine.after(SpecReply::Bucket(Err(error))).rows(reply) == Seq::<SpecReportHeader>::empty(),
{
}

proof fn lemma_rest_of_bucket(
    engine: SpecEngine,
    outcomes: Seq<Result<SpecCVEListV5, ResolveError>>,
)
    requires
        engine.wf(),
        engine.awaits_record(),
        engine.failure is None,
    ensures
        engine.run_bucket(outcomes).0 == SpecEngine::at_bucket(engine.bucket + 1),
        engine.run_bucket(outcomes).1 == bucket_rows(engine.items, outcomes).skip(engine.cursor),
    decreases engine.items.len() - engine.cursor,
{
    let items = engine.items;
    let at = engine.cursor;
    let reply = SpecReply::Record(outcomes[at]);
    let stop = next_scored(items, at + 1);
    let next = engine.after(reply);
    let all = bucket_rows(items, outcomes);
    lemma_next_scored(items, at + 1);
    lemma_after_keeps_wf(engine, reply);
    assert forall|k: int| at + 1 <= k < stop implies report_row(items[k], None) == all[k] by {
        lemma_no_average_no_flags(items[k], resolved(outcomes[k]));
    }
    assert(engine.rows(reply) == all.subrange(at, stop));
    if stop < items.len() {
        lemma_rest_of_bucket(next, outcomes);
        assert(all.subrange(at, stop) + all.skip(stop) == all.skip(at));
    } else {
        assert(next.run_bucket(outcomes).1 == Seq::<SpecReportHeader>::empty());
        assert(all.subrange(at, stop) + Seq::<SpecReportHeader>::empty() == all.skip(at));
    }
}

/// Every vulnerability of a page gets exactly one row, and the rows leave the
/// engine in the order of the page. From the state in which a bucket is asked for,
/// the rows handed out for the page and for the records resolved after it are the
/// rows of the page, one for one, and the engine ends at the next bucket.
pub proof fn lemma_bucket_rows_in_order(
    engine: SpecEngine,
    page: SpecTPAVulns,
    outcomes: Seq<Result<SpecCVEListV5, ResolveError>>,
)
    requires
        engine.wf(),
        engine.awaits_bucket(),
    ensures
        ({
            let first = SpecReply::Bucket(Ok(page));
            let (end, rest) = engine.after(first).run_bucket(outcomes);
            &&& engine.rows(first) + rest == bucket_rows(page.items, outcomes)
            &&& end == SpecEngine::at_bucket(engine.bucket + 1)
        }),
{
    let items = page.items;
    let first = SpecReply::Bucket(Ok(page));
    let stop = next_scored(items, 0);
    let next = engine.after(first);
    let all = bucket_rows(items, outcomes);
    lemma_next_scored(items, 0);
    lemma_after_keeps_wf(engine, first);
    assert forall|k: int| 0 <= k < stop implies report_row(items[k], None) == all[k] by {
        lemma_no_average_no_flags(items[k], resolved(outcomes[k]));
    }
    assert(engine.rows(first) == all.subrange(0, stop));
    if stop < items.len() {
        lemma_rest_of_bucket(next, outcomes);
        assert(all.subrange(0, stop) + all.skip(stop) == all);
    } else {
        assert(next.run_bucket(outcomes).1 == Seq::<SpecReportHeader>::empty());
        assert(all.subrange(0, stop) + Seq::<SpecReportHeader>::empty() == all);
    }
}

/// The rows of a whole run from the bucket `from` on, where `pages[b]` is the
/// tracker's answer for bucket `b` and `outcomes[b][i]` is how resolving the record
/// of its vulnerability `i` ends: the rows of bucket after bucket, each in the order
/// of its page, up to the first bucket that the tracker fails on.
pub open spec fn run_rows(
    pages: Seq<Result<SpecTPAVulns, TrackerError>>,
    outcomes: Seq<Seq<Result<SpecCVEListV5, ResolveError>>>,
    from: int,
) -> Seq<SpecReportHeader>
    decreases BUCKETS - from,
{
    if from < 0 || from >= BUCKETS {
        Seq::empty()
    } else {
        match pages[from] {
            Ok(page) => bucket_rows(page.items, outcomes[from]) + run_rows(
                pages,
                outcomes,
                from + 1,
            ),
            Err(_) => Seq::empty(),
        }
    }
}

/// The request that a whole run from the bucket `from` on ends with: `Abort` with
/// the first error of the tracker, or `Finish` if it answers for every bucket.
pub open spec fn run_end(pages: Seq<Result<SpecTPAVulns, TrackerError>>, from: int) -> SpecRequest
    decreases BUCKETS - from,
{
    if from < 0 || from >= BUCKETS {
        SpecRequest::Finish
    } else {
        match pages[from] {
            Ok(_) => run_end(pages, from + 1),
            Err(error) => SpecRequest::Abort { error },
        }
    }
}

impl SpecEngine {
    /// The run from a state in which a bucket is asked for to its end: every
    /// request is answered from `pages` and `outcomes`. Yields the state the
    /// engine ends in and the rows handed out on the way, in order.
    pub open spec fn run(
        self,
        pages: Seq<Result<SpecTPAVulns, TrackerError>>,
        outcomes: Seq<Seq<Result<SpecCVEListV5, ResolveError>>>,
    ) -> (SpecEngine, Seq<SpecReportHeader>)
        decreases BUCKETS - self.bucket,
        when self.wf()
    {
        if self.awaits_bucket() {
            let first = SpecReply::Bucket(pages[self.bucket]);
            match pages[self.bucket] {
                Ok(page) => {
                    proof {
                        lemma_bucket_rows_in_order(self, page, outcomes[self.bucket]);
                    }
                    let (mid, rest) = self.after(first).run_bucket(outcomes[self.bucket]);
                    let (end, tail) = mid.run(pages, outcomes);
                    (end, self.rows(first) + rest + tail)
                },
                Err(_) => (self.after(first), Seq::empty()),
            }
        } else {
            (self, Seq::empty())
        }
    }
}

/// A whole run hands out the rows of bucket after bucket in the fixed order of the
/// buckets, each bucket's rows in the order of its page, and ends with `Finish`,
/// or with `Abort` at the first bucket that the tracker fails on. What was handed
/// out before the failure stays handed out.
pub proof fn lemma_run_in_order(
    engine: SpecEngine,
    pages: Seq<Result<SpecTPAVulns, TrackerError>>,
    outcomes: Seq<Seq<Result<SpecCVEListV5, ResolveError>>>,
)
    requires
        engine.wf(),
        !engine.awaits_record(),
        engine.failure is None,
    ensures
        engine.run(pages, outcomes).1 == run_rows(pages, outcomes, engine.bucket),
        engine.run(pages, outcomes).0.pending() == run_end(pages, engine.bucket),
        engine.run(pages, outcomes).0.finished(),
    decreases BUCKETS - engine.bucket,
{
    if engine.awaits_bucket() {
        let first = SpecReply::Bucket(pages[engine.bucket]);
        match pages[engine.bucket] {
            Ok(page) => {
                lemma_bucket_rows_in_order(engine, page, outcomes[engine.bucket]);
                let (mid, rest) = engine.after(first).run_bucket(outcomes[engine.bucket]);
                lemma_run_in_order(mid, pages, outcomes);
            },
            Err(_) => {},
        }
    }
}

/// Started afresh, the run covers all six buckets, beginning with the first.
pub proof fn lemma_whole_run(
    pages: Seq<Result<SpecTPAVulns, TrackerError>>,
    outcomes: Seq<Seq<Result<SpecCVEListV5, ResolveError>>>,
)
    ensures
        SpecEngine::initial().run(pages, outcomes).1 == run_rows(pages, outcomes, 0),
        SpecEngine::initial().run(pages, outcomes).0.pending() == run_end(pages, 0),
{
    lemma_run_in_order(SpecEngine::initial(), pages, outcomes);
}

} // verus!
