//! Job-queue backend: one generation job runs at a time.
//!
//! Submissions append to a FIFO queue; the worker peeks the head job, runs
//! it, and pops it only once it has finished, so a concurrent cancellation
//! can still find the running job by id. Cancelling a job that has not
//! started removes it from the queue silently (no event is ever emitted for
//! it); cancelling the running job only flags it, and the decode loop
//! observes the flag at the top of its next step.
//!
//! The queue itself is plain data with pure transition functions; the
//! threads and channels that drive it live outside the verified core and
//! call these transitions under a briefly-held lock, never across a
//! blocking call.

use vstd::prelude::*;

verus! {

/// A request to turn `prompt` into `secs` seconds of audio. Duplicate ids
/// are not deduplicated: every submission becomes an independent job.
#[derive(Clone, Debug)]
pub struct AudioGenerationRequest {
    pub id: String,
    pub prompt: String,
    pub secs: usize,
}

/// Mathematical value of a request.
pub ghost struct ReqModel {
    pub id: Seq<char>,
    pub prompt: Seq<char>,
    pub secs: int,
}

impl View for AudioGenerationRequest {
    type V = ReqModel;

    closed spec fn view(&self) -> ReqModel {
        ReqModel { id: self.id@, prompt: self.prompt@, secs: self.secs as int }
    }
}

/// Commands accepted by the backend.
#[derive(Clone, Debug)]
pub enum BackendInboundMsg {
    Request(AudioGenerationRequest),
    Abort(String),
}

/// Progress of a running job as an exact fraction `done / total`, emitted
/// once per decode step.
#[derive(Clone, Copy, Debug)]
pub struct ProgressFraction {
    pub done: usize,
    pub total: usize,
}

/// Events streamed to subscribers. `S` is the PCM sample type produced by
/// the audio codec; the verified core never computes with samples, it only
/// carries them.
#[derive(Debug)]
pub enum BackendOutboundMsg<S> {
    Start(AudioGenerationRequest),
    Response((String, Vec<S>)),
    Failure((String, String)),
    Progress((String, ProgressFraction)),
}

/// Why a job did not produce audio: the cancellation flag was observed, the
/// neural session failed, or its output was in an unrecognized format.
#[derive(Clone, Debug)]
pub enum ProcessError {
    Aborted,
    Session(String),
    Encoding(String),
}

/// The reason string carried by a `Failure` event.
pub open spec fn error_message(e: ProcessError) -> Seq<char> {
    match e {
        ProcessError::Aborted => "Aborted"@,
        ProcessError::Session(s) => s@,
        ProcessError::Encoding(s) => s@,
    }
}

impl ProcessError {
    /// The human-readable reason, `"Aborted"` exactly when the job was
    /// cancelled, so subscribers can tell cancellation from failure.
    pub fn message(&self) -> (r: String)
        ensures
            r@ == error_message(*self),
    {
        match self {
            ProcessError::Aborted => String::from_str("Aborted"),
            ProcessError::Session(s) => s.clone(),
            ProcessError::Encoding(s) => s.clone(),
        }
    }
}

/// Keeps the progress stream of a job monotone and bounded: a report is
/// let through only when it does not exceed its total and does not fall
/// below the last accepted fraction, so subscribers never observe progress
/// above 1 or running backwards, whatever races the reporting side has.
pub struct ProgressGate {
    num: usize,
    den: usize,
}

impl ProgressGate {
    /// Numerator of the last accepted fraction; 0 before any was accepted.
    pub closed spec fn spec_num(&self) -> int {
        self.num as int
    }

    /// Denominator of the last accepted fraction; 0 before any was accepted.
    pub closed spec fn spec_den(&self) -> int {
        self.den as int
    }

    /// Whether a report `done / total` may follow the last accepted
    /// fraction: it must be a genuine fraction of at most 1, and at least
    /// the previous one (compared exactly, by cross-multiplication).
    pub open spec fn accepts(&self, done: int, total: int) -> bool {
        &&& 0 < total
        &&& done <= total
        &&& done * self.spec_den() >= self.spec_num() * total
    }

    pub fn new() -> (r: Self)
        ensures
            r.spec_num() == 0,
            r.spec_den() == 0,
    {
        ProgressGate { num: 0, den: 0 }
    }

    /// Accept or reject one progress report. Exactly the acceptable reports
    /// come back as an event fraction; a rejected report changes nothing,
    /// so the accepted stream is monotone and never exceeds 1.
    pub fn accept(&mut self, done: usize, total: usize) -> (r: Option<ProgressFraction>)
        ensures
            r is Some <==> old(self).accepts(done as int, total as int),
            r matches Some(f) ==> {
                &&& f.done == done
                &&& f.total == total
                &&& final(self).spec_num() == done
                &&& final(self).spec_den() == total
            },
            r is None ==> *final(self) == *old(self),
    {
        if total == 0 || done > total {
            return None;
        }
        proof {
            assert((done as u128 as int) * (self.den as u128 as int) < 0x1_0000_0000_0000_0000_0000_0000_0000_0000int
                && (self.num as u128 as int) * (total as u128 as int) < 0x1_0000_0000_0000_0000_0000_0000_0000_0000int)
                by (nonlinear_arith)
                requires
                    done as u128 as int <= 0xFFFF_FFFF_FFFF_FFFFint,
                    self.den as u128 as int <= 0xFFFF_FFFF_FFFF_FFFFint,
                    self.num as u128 as int <= 0xFFFF_FFFF_FFFF_FFFFint,
                    total as u128 as int <= 0xFFFF_FFFF_FFFF_FFFFint,
            ;
        }
        if (done as u128) * (self.den as u128) < (self.num as u128) * (total as u128) {
            return None;
        }
        self.num = done;
        self.den = total;
        Some(ProgressFraction { done, total })
    }
}

/// A queued job: the request plus its cancellation flag.
pub struct Job {
    pub req: AudioGenerationRequest,
    pub cancelled: bool,
}

/// Mathematical value of a job.
pub ghost struct JobModel {
    pub req: ReqModel,
    pub cancelled: bool,
}

impl View for Job {
    type V = JobModel;

    closed spec fn view(&self) -> JobModel {
        JobModel { req: self.req@, cancelled: self.cancelled }
    }
}

/// Mathematical state of the queue: the pending jobs, oldest first, and
/// whether the head job is currently being processed.
pub ghost struct QueueModel {
    pub jobs: Seq<JobModel>,
    pub running: bool,
}

/// Queue after a submission: the new job is appended, unflagged.
pub open spec fn spec_submit(m: QueueModel, r: ReqModel) -> QueueModel {
    QueueModel { jobs: m.jobs.push(JobModel { req: r, cancelled: false }), running: m.running }
}

/// Index of the first job with the given id, or -1 if none.
pub open spec fn find_job(jobs: Seq<JobModel>, id: Seq<char>) -> int
    decreases jobs.len(),
{
    if jobs.len() == 0 {
        -1
    } else if jobs[0].req.id == id {
        0
    } else {
        let r = find_job(jobs.drop_first(), id);
        if r < 0 {
            -1
        } else {
            r + 1
        }
    }
}

/// Queue after a cancellation: the first job with the given id is flagged;
/// if it is not the one being processed it is also removed immediately. No
/// event is emitted either way: removal of a queued job is silent.
pub open spec fn spec_cancel(m: QueueModel, id: Seq<char>) -> QueueModel {
    let j = find_job(m.jobs, id);
    if j < 0 {
        m
    } else if j == 0 && m.running {
        QueueModel {
            jobs: m.jobs.update(0, JobModel { req: m.jobs[0].req, cancelled: true }),
            running: true,
        }
    } else {
        QueueModel { jobs: m.jobs.remove(j), running: m.running }
    }
}

/// The request the worker starts next: always the head of the queue, i.e.
/// the oldest submission still pending.
pub open spec fn next_to_start(m: QueueModel) -> Option<ReqModel> {
    if !m.running && m.jobs.len() > 0 {
        Some(m.jobs[0].req)
    } else {
        None
    }
}

/// Queue after the worker picks up the head job: the job stays in the queue
/// (so cancellation can still find it) and is only marked as running.
pub open spec fn spec_start(m: QueueModel) -> QueueModel {
    QueueModel { jobs: m.jobs, running: true }
}

/// Queue after the running job finishes, whatever its outcome: only now is
/// it popped.
pub open spec fn spec_finish(m: QueueModel) -> QueueModel {
    QueueModel { jobs: m.jobs.drop_first(), running: false }
}

proof fn lemma_find_job_none(jobs: Seq<JobModel>, id: Seq<char>)
    requires
        forall|q: int| 0 <= q < jobs.len() ==> (#[trigger] jobs[q]).req.id != id,
    ensures
        find_job(jobs, id) == -1,
    decreases jobs.len(),
{
    if jobs.len() > 0 {
        assert(forall|q: int|
            0 <= q < jobs.drop_first().len() ==> #[trigger] jobs.drop_first()[q] == jobs[q + 1]);
        lemma_find_job_none(jobs.drop_first(), id);
    }
}

proof fn lemma_find_job_first_match(jobs: Seq<JobModel>, id: Seq<char>, i: int)
    requires
        0 <= i < jobs.len(),
        jobs[i].req.id == id,
        forall|q: int| 0 <= q < i ==> (#[trigger] jobs[q]).req.id != id,
    ensures
        find_job(jobs, id) == i,
    decreases i,
{
    if i > 0 {
        assert(forall|q: int|
            0 <= q < jobs.drop_first().len() ==> #[trigger] jobs.drop_first()[q] == jobs[q + 1]);
        lemma_find_job_first_match(jobs.drop_first(), id, i - 1);
    }
}

/// The FIFO of pending jobs. At most one job is ever in flight: the head,
/// and only while `running` is set.
pub struct JobQueue {
    jobs: Vec<Job>,
    running: bool,
}

impl JobQueue {
    pub closed spec fn model(&self) -> QueueModel {
        QueueModel {
            jobs: Seq::new(self.jobs@.len(), |q: int| self.jobs@[q]@),
            running: self.running,
        }
    }

    pub fn new() -> (r: Self)
        ensures
            r.model().jobs == Seq::<JobModel>::empty(),
            !r.model().running,
    {
        let r = JobQueue { jobs: Vec::new(), running: false };
        proof {
            assert(r.model().jobs =~= Seq::<JobModel>::empty());
        }
        r
    }

    /// Enqueue a request as a fresh, unflagged job.
    pub fn submit(&mut self, req: AudioGenerationRequest)
        ensures
            final(self).model() == spec_submit(old(self).model(), req@),
    {
        let ghost m0 = self.model();
        let ghost reqm = req@;
        self.jobs.push(Job { req, cancelled: false });
        proof {
            assert(final(self).model().jobs =~= spec_submit(m0, reqm).jobs);
        }
    }

    /// Cancel the first job with this id, if any: flag it, and remove it
    /// from the queue unless it is the one currently being processed.
    /// Nothing is emitted: a never-started job disappears without a trace.
    pub fn cancel(&mut self, id: &String)
        ensures
            final(self).model() == spec_cancel(old(self).model(), id@),
    {
        let ghost m0 = self.model();
        let n = self.jobs.len();
        let mut i: usize = 0;
        while i < n
            invariant
                m0 == old(self).model(),
                n == self.jobs@.len(),
                i <= n,
                self.model() == m0,
                forall|q: int| 0 <= q < i ==> (#[trigger] m0.jobs[q]).req.id != id@,
            decreases n - i,
        {
            if self.jobs[i].req.id == *id {
                proof {
                    lemma_find_job_first_match(m0.jobs, id@, i as int);
                }
                if i == 0 && self.running {
                    let flagged = Job {
                        req: AudioGenerationRequest {
                            id: self.jobs[0].req.id.clone(),
                            prompt: self.jobs[0].req.prompt.clone(),
                            secs: self.jobs[0].req.secs,
                        },
                        cancelled: true,
                    };
                    self.jobs[0] = flagged;
                    proof {
                        assert(self.model().jobs =~= spec_cancel(m0, id@).jobs);
                        assert(self.model().running == spec_cancel(m0, id@).running);
                        assert(self.model() == spec_cancel(m0, id@));
                    }
                } else {
                    self.jobs.remove(i);
                    proof {
                        assert(self.model().jobs =~= spec_cancel(m0, id@).jobs);
                        assert(self.model().running == spec_cancel(m0, id@).running);
                        assert(self.model() == spec_cancel(m0, id@));
                    }
                }
                return ;
            }
            proof {
                assert(m0.jobs[i as int].req.id != id@);
            }
            i = i + 1;
        }
        proof {
            lemma_find_job_none(m0.jobs, id@);
        }
    }

    /// The worker picks up the head job: it is marked running but stays in
    /// the queue, so `cancel` can still flag it by id. Returns a copy of its
    /// request. `None` when the queue is empty or a job is already in
    /// flight.
    pub fn start_next(&mut self) -> (r: Option<AudioGenerationRequest>)
        ensures
            match r {
                Some(req) => {
                    &&& Some(req@) == next_to_start(old(self).model())
                    &&& final(self).model() == spec_start(old(self).model())
                },
                None => {
                    &&& next_to_start(old(self).model()) is None
                    &&& final(self).model() == old(self).model()
                },
            },
    {
        if self.running || self.jobs.len() == 0 {
            return None;
        }
        self.running = true;
        let head = &self.jobs[0];
        Some(
            AudioGenerationRequest {
                id: head.req.id.clone(),
                prompt: head.req.prompt.clone(),
                secs: head.req.secs,
            },
        )
    }

    /// Number of jobs in the queue, the one in flight included.
    pub fn len(&self) -> (r: usize)
        ensures
            r == self.model().jobs.len(),
    {
        self.jobs.len()
    }

    /// Whether a job is in flight.
    pub fn is_running(&self) -> (r: bool)
        ensures
            r == self.model().running,
    {
        self.running
    }

    /// Whether the job in flight has been flagged for cancellation; the
    /// worker's progress callback polls this once per decode step.
    pub fn head_cancelled(&self) -> (r: bool)
        requires
            self.model().running,
            self.model().jobs.len() > 0,
        ensures
            r == self.model().jobs[0].cancelled,
    {
        self.jobs[0].cancelled
    }

    /// The job in flight is done (whatever the outcome): pop it. If a
    /// cancellation already removed it, the queue is left as it is, so no
    /// later job is ever lost to that race.
    pub fn finish_current(&mut self)
        requires
            old(self).model().running,
        ensures
            old(self).model().jobs.len() > 0 ==> final(self).model() == spec_finish(
                old(self).model(),
            ),
            old(self).model().jobs.len() == 0 ==> final(self).model() == (QueueModel {
                jobs: old(self).model().jobs,
                running: false,
            }),
    {
        self.running = false;
        if self.jobs.len() > 0 {
            self.jobs.remove(0);
            proof {
                assert(final(self).model().jobs =~= spec_finish(old(self).model()).jobs);
            }
        }
    }
}

/// Progress callback handed to a processor. Called once per decode step
/// with the exact fraction `done / total`; the return value is true when
/// the job should stop because its cancellation flag was observed, which
/// bounds cancellation latency to one step.
pub trait ProgressReporter {
    fn report(&mut self, done: usize, total: usize) -> bool;
}

/// The strategy that turns a prompt into samples. The real implementation
/// drives the neural pipeline; tests substitute deterministic doubles. The
/// backend promises nothing about a processor's outcome: whatever comes
/// back is mapped to exactly one terminal event.
pub trait JobProcessor {
    type Sample;

    fn name(&self) -> String;

    fn device(&self) -> String;

    fn process<PR: ProgressReporter>(
        &self,
        prompt: &str,
        secs: usize,
        on_progress: &mut PR,
    ) -> Result<Vec<Self::Sample>, ProcessError>;
}

/// Whether `msg` is the terminal event of the job with the given id.
pub open spec fn is_outcome_event<S>(msg: BackendOutboundMsg<S>, id: Seq<char>) -> bool {
    match msg {
        BackendOutboundMsg::Response(p) => p.0@ == id,
        BackendOutboundMsg::Failure(p) => p.0@ == id,
        _ => false,
    }
}

/// The one terminal event of a finished job: its samples on success, its
/// reason string on failure, with the distinguished reason `"Aborted"`
/// exactly when the job was cancelled.
pub fn outcome_to_msg<S>(id: String, outcome: Result<Vec<S>, ProcessError>) -> (msg:
    BackendOutboundMsg<S>)
    ensures
        outcome matches Ok(samples) ==> msg == BackendOutboundMsg::Response((id, samples)),
        outcome matches Err(e) ==> (msg matches BackendOutboundMsg::Failure(p) && p.0 == id
            && p.1@ == error_message(e)),
        is_outcome_event(msg, id@),
{
    match outcome {
        Ok(samples) => BackendOutboundMsg::Response((id, samples)),
        Err(e) => {
            let reason = e.message();
            BackendOutboundMsg::Failure((id, reason))
        },
    }
}

/// An in-memory event stream: the recorder behind the synchronous driver.
/// Whatever forwards events to real subscribers reads them from here or
/// sends them itself; event order is the order of the `send` calls.
pub struct EventLog<S> {
    pub events: Vec<BackendOutboundMsg<S>>,
}

impl<S> EventLog<S> {
    pub fn new() -> (r: Self)
        ensures
            r.events@ == Seq::<BackendOutboundMsg<S>>::empty(),
    {
        let r = EventLog { events: Vec::new() };
        proof {
            assert(r.events@ =~= Seq::<BackendOutboundMsg<S>>::empty());
        }
        r
    }

    pub fn send(&mut self, msg: BackendOutboundMsg<S>)
        ensures
            final(self).events@ == old(self).events@.push(msg),
    {
        self.events.push(msg);
    }
}

/// The backend: a processor plus the job queue it serves, one job at a
/// time.
pub struct AudioGenerationBackend<P: JobProcessor> {
    processor: P,
    queue: JobQueue,
}

impl<P: JobProcessor> AudioGenerationBackend<P> {
    pub closed spec fn model(&self) -> QueueModel {
        self.queue.model()
    }

    pub fn new(processor: P) -> (r: Self)
        ensures
            r.model().jobs == Seq::<JobModel>::empty(),
            !r.model().running,
    {
        AudioGenerationBackend { processor, queue: JobQueue::new() }
    }

    /// One step of the command loop: a request is enqueued, an abort flags
    /// the first job with that id and removes it if it has not started.
    pub fn handle_inbound(&mut self, msg: BackendInboundMsg)
        ensures
            match msg {
                BackendInboundMsg::Request(req) => final(self).model() == spec_submit(
                    old(self).model(),
                    req@,
                ),
                BackendInboundMsg::Abort(id) => final(self).model() == spec_cancel(
                    old(self).model(),
                    id@,
                ),
            },
    {
        match msg {
            BackendInboundMsg::Request(req) => self.queue.submit(req),
            BackendInboundMsg::Abort(id) => self.queue.cancel(&id),
        }
    }

    /// See `JobQueue::start_next`.
    pub fn start_next(&mut self) -> (r: Option<AudioGenerationRequest>)
        ensures
            match r {
                Some(req) => {
                    &&& Some(req@) == next_to_start(old(self).model())
                    &&& final(self).model() == spec_start(old(self).model())
                },
                None => {
                    &&& next_to_start(old(self).model()) is None
                    &&& final(self).model() == old(self).model()
                },
            },
    {
        self.queue.start_next()
    }

    /// See `JobQueue::head_cancelled`.
    pub fn head_cancelled(&self) -> (r: bool)
        requires
            self.model().running,
            self.model().jobs.len() > 0,
        ensures
            r == self.model().jobs[0].cancelled,
    {
        self.queue.head_cancelled()
    }

    /// See `JobQueue::finish_current`.
    pub fn finish_current(&mut self)
        requires
            old(self).model().running,
        ensures
            old(self).model().jobs.len() > 0 ==> final(self).model() == spec_finish(
                old(self).model(),
            ),
            old(self).model().jobs.len() == 0 ==> final(self).model() == (QueueModel {
                jobs: old(self).model().jobs,
                running: false,
            }),
    {
        self.queue.finish_current()
    }

    /// One full turn of the worker: pick up the head job, announce it,
    /// process it, report exactly one terminal event for it, pop it. The
    /// log gains exactly the `Start` event of the head job followed by its
    /// outcome; progress flows through `on_progress` while the job runs.
    /// Returns false, changing nothing, when the queue is empty.
    pub fn work_one<PR: ProgressReporter>(
        &mut self,
        on_progress: &mut PR,
        log: &mut EventLog<P::Sample>,
    ) -> (worked: bool)
        requires
            !old(self).model().running,
        ensures
            !worked ==> {
                &&& old(self).model().jobs.len() == 0
                &&& final(self).model() == old(self).model()
                &&& final(log).events@ == old(log).events@
            },
            worked ==> {
                &&& old(self).model().jobs.len() > 0
                &&& final(self).model() == spec_finish(spec_start(old(self).model()))
                &&& final(log).events@.len() == old(log).events@.len() + 2
                &&& (final(log).events@[old(log).events@.len() as int]
                    matches BackendOutboundMsg::Start(r) && r@ == old(
                    self,
                ).model().jobs[0].req)
                &&& is_outcome_event(
                    final(log).events@.last(),
                    old(self).model().jobs[0].req.id,
                )
            },
    {
        let req = match self.start_next() {
            None => {
                return false;
            },
            Some(r) => r,
        };
        let announced = AudioGenerationRequest {
            id: req.id.clone(),
            prompt: req.prompt.clone(),
            secs: req.secs,
        };
        log.send(BackendOutboundMsg::Start(announced));
        let outcome = self.processor.process(req.prompt.as_str(), req.secs, on_progress);
        let msg = outcome_to_msg(req.id, outcome);
        log.send(msg);
        self.finish_current();
        true
    }
}

/// Submitting A and then B starts A strictly before B: from an idle, empty
/// backend, the next job to start is A, and B starts only once A has
/// finished and been popped. Events for different jobs can therefore never
/// interleave: jobs are processed in submission order.
pub proof fn lemma_jobs_start_in_submission_order(m: QueueModel, a: ReqModel, b: ReqModel)
    requires
        !m.running,
        m.jobs.len() == 0,
    ensures
        ({
            let m2 = spec_submit(spec_submit(m, a), b);
            &&& next_to_start(m2) == Some(a)
            &&& next_to_start(spec_start(m2)) is None
            &&& next_to_start(spec_finish(spec_start(m2))) == Some(b)
        }),
{
    let m2 = spec_submit(spec_submit(m, a), b);
    assert(spec_finish(spec_start(m2)).jobs =~= seq![JobModel { req: b, cancelled: false }]);
}

/// Cancelling a job that is still queued behind the running one removes it
/// outright: it can never become the next job to start, and since only
/// started jobs produce events, nothing is ever observed for it. The
/// transition itself emits nothing: the removal is silent.
pub proof fn lemma_cancel_queued_job_is_silent(m: QueueModel, a: ReqModel, b: ReqModel)
    requires
        !m.running,
        m.jobs.len() == 0,
        a.id != b.id,
    ensures
        ({
            let m2 = spec_start(spec_submit(spec_submit(m, a), b));  // a in flight, b queued
            let m3 = spec_cancel(m2, b.id);
            &&& m3.jobs =~= seq![JobModel { req: a, cancelled: false }]
            &&& m3.running
            &&& next_to_start(spec_finish(m3)) is None
        }),
{
    let m2 = spec_start(spec_submit(spec_submit(m, a), b));
    lemma_find_job_first_match(m2.jobs, b.id, 1);
}

/// Cancelling the job in flight ends it as the distinguished `Aborted`
/// failure within one decode step, and the queue moves on. In one
/// statement: the cancel transition does not remove the running head, it
/// only raises its cancellation flag — the flag `generate_tokens` polls at
/// the top of its next step, whereupon it returns `ProcessError::Aborted`
/// before invoking the model again, so at most the progress report of the
/// step already under way can follow; the worker maps that error to exactly
/// one terminal event, the `Failure` whose reason reads `"Aborted"`
/// (`outcome_to_msg`), pops the job, and only then does the job queued
/// behind it become the next to start — nothing more is ever emitted for
/// the cancelled id, whose job is gone from the queue.
pub proof fn lemma_cancel_running_job_aborts_within_one_step(
    m: QueueModel,
    a: ReqModel,
    b: ReqModel,
)
    requires
        !m.running,
        m.jobs.len() == 0,
        a.id != b.id,
    ensures
        ({
            let m2 = spec_cancel(spec_start(spec_submit(spec_submit(m, a), b)), a.id);
            &&& m2.jobs =~= seq![
                JobModel { req: a, cancelled: true },
                JobModel { req: b, cancelled: false },
            ]
            &&& m2.running
            &&& error_message(ProcessError::Aborted) == "Aborted"@
            &&& next_to_start(m2) is None
            &&& next_to_start(spec_finish(m2)) == Some(b)
            &&& forall|j: int|
                0 <= j < spec_finish(m2).jobs.len()
                    ==> (#[trigger] spec_finish(m2).jobs[j]).req.id != a.id
        }),
{
    let m1 = spec_start(spec_submit(spec_submit(m, a), b));
    lemma_find_job_first_match(m1.jobs, a.id, 0);
    let m2 = spec_cancel(m1, a.id);
    assert(m2.jobs =~= seq![
        JobModel { req: a, cancelled: true },
        JobModel { req: b, cancelled: false },
    ]);
    assert(spec_finish(m2).jobs =~= seq![JobModel { req: b, cancelled: false }]);
}

} // verus!
