//! The conversion worker: the queue that feeds it, the bookkeeping around
//! it, and the course of one job from `converting` to `done` or `failed`.
//!
//! Jobs reach the worker through tokio's bounded channel, whose receiving
//! end the surrounding program drains one job at a time. A job that finds
//! the channel full is dropped from the queue but not from the table: it
//! stays `pending` there and is queued again at the next startup.

use crate::downloads::{centi_mb_of, size_centi_mb, DownloadRegistry, DownloadTable};
use crate::effects::{Event, EventView, Reply, ReplyView, Request, RequestView};
use crate::jobs::{
    configured, lemma_with_row, opt_view, ConvJob, ConvJobView, ConversionView, JobStore, JobTable,
    RetryError, StoreFull,
};
use crate::paths::{base_name, file_name_or_empty, join, join_of, parent, parent_of};
use crate::status::JobStatus;
use crate::text::{lemma_short_ascii_is_kept, prefix_within, truncate_bytes};
use crate::transcode::{
    first_step, next_step, ConvertErrorView, Converter, ConverterView, Step, StepView,
};
use tokio::sync::mpsc::{Receiver, Sender};
use vstd::prelude::*;
use vstd::string::*;

verus! {

/// The sending half of tokio's bounded channel, taken as it is.
#[verifier::external_type_specification]
#[verifier::external_body]
#[verifier::reject_recursive_types(T)]
pub struct ExSender<T>(Sender<T>);

/// The receiving half of tokio's bounded channel, taken as it is.
#[verifier::external_type_specification]
#[verifier::external_body]
#[verifier::reject_recursive_types(T)]
pub struct ExReceiver<T>(Receiver<T>);

/// The number of jobs the channel behind a sender was made to hold.
pub uninterp spec fn bound_of(sender: Sender<ConvJob>) -> nat;

/// How many jobs the queue holds before further ones are dropped.
pub const QUEUE_CAPACITY: usize = 256;

/// The longest failure message that is recorded, in bytes.
pub const ERROR_LIMIT: usize = 1000;

/// Calls `tokio::sync::mpsc::channel`. Trusted: the channel is made for
/// `capacity` messages. The outside function panics on a capacity of zero
/// or beyond its semaphore's limit, which the bound here stays far below.
#[verifier::external_body]
fn open_channel(capacity: usize) -> (ends: (Sender<ConvJob>, Receiver<ConvJob>))
    requires
        0 < capacity <= 65536,
    ensures
        bound_of(ends.0) == capacity,
{
    tokio::sync::mpsc::channel(capacity)
}

/// Calls `Sender::try_send` with the work item. Nothing is promised: the
/// channel may be full or closed, in which case the item is dropped and
/// `false` comes back, and what the channel holds is shared with its
/// receiving end and cannot be spoken of from here.
#[verifier::external_body]
fn offer(sender: &Sender<ConvJob>, job: ConvJob) -> (accepted: bool) {
    sender.try_send(job).is_ok()
}

/// The work item for a job: what is offered to the queue when the job is
/// to be processed.
pub fn work_item(conv_id: i64, source_path: String, output_dir: String) -> (job: ConvJob)
    ensures
        job@ == (ConvJobView { conv_id, source_path: source_path@, output_dir: output_dir@ }),
{
    ConvJob { conv_id, source_path, output_dir }
}

/// The counter after one more job was handed to the queue. Like the atomic
/// counter it stands for, it wraps.
pub open spec fn counted_up(n: usize) -> usize {
    if n == usize::MAX {
        0
    } else {
        (n + 1) as usize
    }
}

/// The counter after one job was finished. Like the atomic counter it
/// stands for, it wraps.
pub open spec fn counted_down(n: usize) -> usize {
    if n == 0 {
        usize::MAX
    } else {
        (n - 1) as usize
    }
}

/// Counting a job and taking it off again leaves the counter where it was,
/// in either order.
pub proof fn lemma_count_balances(n: usize)
    ensures
        counted_down(counted_up(n)) == n,
        counted_up(counted_down(n)) == n,
{
}

/// The worker's handle: the queue's sending end, a count of the jobs that
/// were handed to the queue and have not been finished, and whether the
/// worker is meant to run.
pub struct ConversionWorker {
    sender: Sender<ConvJob>,
    queue_size: usize,
    running: bool,
}

/// The mathematical content of a [`ConversionWorker`].
pub struct WorkerView {
    /// Jobs handed to the queue and not yet finished.
    pub queue_size: usize,
    /// Whether the worker is meant to run.
    pub running: bool,
    /// The sending end of the queue that work items are offered to.
    pub sender: Sender<ConvJob>,
}

impl WorkerView {
    /// How many jobs the queue was made to hold.
    pub open spec fn capacity(self) -> nat {
        bound_of(self.sender)
    }

    /// The worker with one more job counted.
    pub open spec fn with_one_more(self) -> WorkerView {
        WorkerView { queue_size: counted_up(self.queue_size), ..self }
    }

    /// The worker with one job fewer counted.
    pub open spec fn with_one_less(self) -> WorkerView {
        WorkerView { queue_size: counted_down(self.queue_size), ..self }
    }
}

/// The job table and the worker after a conversion was asked for, and the
/// id that was returned, if any.
pub struct Enqueued {
    pub table: JobTable,
    pub worker: WorkerView,
    pub id: Option<i64>,
}

/// What asking for a conversion of `source_path` does. If a job for that
/// path stands in the way, the id of the oldest such job is returned and
/// nothing changes. If none does, a pending job is added and counted, and
/// its id is returned. If a new job is needed and the ids are used up,
/// nothing is returned and nothing changes.
pub open spec fn after_enqueue(
    table: JobTable,
    worker: WorkerView,
    download_id: i64,
    source_path: Seq<char>,
    source_ext: Seq<char>,
    now: u64,
) -> Enqueued {
    if table.is_blocked(source_path) {
        Enqueued { table, worker, id: Some(table.rows[table.first_blocking(source_path)].id) }
    } else if table.next_id == i64::MAX {
        Enqueued { table, worker, id: None }
    } else {
        Enqueued {
            table: table.with_new(
                ConversionView::fresh(table.next_id, download_id, source_path, source_ext, now),
            ),
            worker: worker.with_one_more(),
            id: Some(table.next_id),
        }
    }
}

impl View for ConversionWorker {
    type V = WorkerView;

    closed spec fn view(&self) -> WorkerView {
        WorkerView {
            queue_size: self.queue_size,
            running: self.running,
            sender: self.sender,
        }
    }
}

impl ConversionWorker {
    /// Sets the worker up: an empty queue for 256 jobs, nothing counted,
    /// meant to run. The queue's receiving end is for the loop that
    /// processes the jobs.
    pub fn start() -> (r: (ConversionWorker, Receiver<ConvJob>))
        ensures
            r.0@.queue_size == 0,
            r.0@.running,
            r.0@.capacity() == 256,
    {
        let (sender, receiver) = open_channel(QUEUE_CAPACITY);
        (ConversionWorker { sender, queue_size: 0, running: true }, receiver)
    }

    /// Asks for a conversion of `source_path`.
    ///
    /// If a job for that path is already pending, converting or done, its
    /// id is returned and nothing changes. Otherwise a pending job is
    /// recorded, counted and handed to the queue, and its id is returned.
    /// The call fails, with nothing changed, only if a new job is needed
    /// and the table's ids are used up.
    pub fn enqueue(
        &mut self,
        store: &mut JobStore,
        download_id: i64,
        source_path: &str,
        source_ext: &str,
        output_dir: &str,
        now: u64,
    ) -> (r: Result<i64, StoreFull>)
        requires
            old(store).wf(),
        ensures
            final(store).wf(),
            (Enqueued {
                table: final(store)@,
                worker: final(self)@,
                id: match r {
                    Ok(id) => Some(id),
                    Err(_) => None,
                },
            }) == after_enqueue(
                old(store)@,
                old(self)@,
                download_id,
                source_path@,
                source_ext@,
                now,
            ),
    {
        match store.find_active(source_path) {
            Some(id) => {
                return Ok(id);
            },
            None => {},
        }
        let id = match store.insert_pending(download_id, source_path, source_ext, now) {
            Ok(id) => id,
            Err(e) => {
                return Err(e);
            },
        };
        self.reenqueue(id, source_path.to_owned(), output_dir.to_owned());
        Ok(id)
    }

    /// Counts a job and offers the work item for it to the queue, without
    /// looking at the table. For jobs that are on record already: retries
    /// and startup recovery. The item offered is
    /// [`work_item`]`(conv_id, source_path, output_dir)`; whether the queue
    /// took it is not reported, since a job that was dropped stays on
    /// record and is queued again at the next startup.
    pub fn reenqueue(&mut self, conv_id: i64, source_path: String, output_dir: String)
        ensures
            final(self)@ == old(self)@.with_one_more(),
    {
        let job = work_item(conv_id, source_path, output_dir);
        self.queue_size = if self.queue_size == usize::MAX {
            0
        } else {
            self.queue_size + 1
        };
        let _accepted = offer(&self.sender, job);
    }

    /// Takes one job off the count. The processing of a job does so when
    /// it ends, whatever the outcome.
    pub fn job_finished(&mut self)
        ensures
            final(self)@ == old(self)@.with_one_less(),
    {
        self.queue_size = if self.queue_size == 0 {
            usize::MAX
        } else {
            self.queue_size - 1
        };
    }

    /// Tells the worker's loop to end before it takes another job.
    pub fn shut_down(&mut self)
        ensures
            final(self)@ == (WorkerView { running: false, ..old(self)@ }),
    {
        self.running = false;
    }

    /// Whether the worker is meant to run.
    pub fn is_running(&self) -> (r: bool)
        ensures
            r == self@.running,
    {
        self.running
    }

    /// The number of jobs handed to the queue and not yet finished.
    pub fn get_queue_size(&self) -> (n: usize)
        ensures
            n == self@.queue_size,
    {
        self.queue_size
    }
}

/// Retries a failed job: makes it pending again and hands it to the queue.
/// Refused, with nothing changed, if there is no such job, if it is not
/// failed, or if no output directory is configured.
pub fn retry_conversion(
    store: &mut JobStore,
    worker: &mut ConversionWorker,
    conversion_id: i64,
    output_dir: Option<&str>,
) -> (r: Result<(), RetryError>)
    requires
        old(store).wf(),
    ensures
        final(store).wf(),
        match r {
            Err(RetryError::NotFound) => !old(store)@.has(conversion_id),
            Err(RetryError::NotFailed) => old(store)@.has(conversion_id) && old(store)@.row(
                conversion_id,
            ).status != JobStatus::Failed,
            Err(RetryError::NoOutputDir) => old(store)@.has(conversion_id) && old(store)@.row(
                conversion_id,
            ).status == JobStatus::Failed && !configured(opt_view(output_dir)),
            Ok(_) => old(store)@.has(conversion_id) && old(store)@.row(conversion_id).status
                == JobStatus::Failed && configured(opt_view(output_dir)),
        },
        r is Ok ==> final(store)@ == old(store)@.after_retry(conversion_id) && final(worker)@
            == old(worker)@.with_one_more(),
        r is Err ==> final(store)@ == old(store)@ && final(worker)@ == old(worker)@,
{
    match store.retry(conversion_id, output_dir) {
        Ok(job) => {
            worker.reenqueue(job.conv_id, job.source_path, job.output_dir);
            Ok(())
        },
        Err(e) => Err(e),
    }
}

/// How far the processing of one job has got.
#[derive(Debug)]
pub enum RunPhase {
    /// The `converting` event is out.
    Announce,
    /// The conversion is under way.
    Converting(Converter),
    /// Asked for the size of the converted file.
    Measure { output: String },
    /// Asked for the archive directory to be created.
    ArchiveDir { dest: String },
    /// Asked whether the source is still a regular file.
    ArchiveCheck { dest: String },
    /// Asked for the source to be moved to the archive.
    ArchiveMove { dest: String },
    /// The closing event is out.
    Close(JobStatus),
}

/// The mathematical content of a [`RunPhase`].
pub enum RunPhaseView {
    Announce,
    Converting(ConverterView),
    Measure { output: Seq<char> },
    ArchiveDir { dest: Seq<char> },
    ArchiveCheck { dest: Seq<char> },
    ArchiveMove { dest: Seq<char> },
    Close(JobStatus),
}

impl View for RunPhase {
    type V = RunPhaseView;

    open spec fn view(&self) -> RunPhaseView {
        match self {
            RunPhase::Announce => RunPhaseView::Announce,
            RunPhase::Converting(c) => RunPhaseView::Converting(c@),
            RunPhase::Measure { output } => RunPhaseView::Measure { output: output@ },
            RunPhase::ArchiveDir { dest } => RunPhaseView::ArchiveDir { dest: dest@ },
            RunPhase::ArchiveCheck { dest } => RunPhaseView::ArchiveCheck { dest: dest@ },
            RunPhase::ArchiveMove { dest } => RunPhaseView::ArchiveMove { dest: dest@ },
            RunPhase::Close(s) => RunPhaseView::Close(*s),
        }
    }
}

/// The processing of one job.
#[derive(Debug)]
pub struct JobRun {
    phase: RunPhase,
    job: ConvJob,
    fname: String,
    program: Option<String>,
}

/// The mathematical content of a [`JobRun`].
pub struct JobRunView {
    /// The request that is out.
    pub phase: RunPhaseView,
    /// The job being processed.
    pub job: ConvJobView,
    /// The file name of the job's source.
    pub fname: Seq<char>,
    /// The transcoder binary, if one was found at startup.
    pub program: Option<Seq<char>>,
}

impl View for JobRun {
    type V = JobRunView;

    closed spec fn view(&self) -> JobRunView {
        JobRunView {
            phase: self.phase@,
            job: self.job@,
            fname: self.fname@,
            program: match self.program {
                Some(p) => Some(p@),
                None => None,
            },
        }
    }
}

/// What the processing of a job does next: ask for something, or end with
/// the status the job was left in.
#[derive(Debug)]
pub enum JobStep {
    Ask(JobRun, Request),
    Finished(JobStatus),
}

/// The mathematical content of a [`JobStep`].
pub enum JobStepView {
    Ask(JobRunView, RequestView),
    Finished(JobStatus),
}

impl View for JobStep {
    type V = JobStepView;

    open spec fn view(&self) -> JobStepView {
        match self {
            JobStep::Ask(run, request) => JobStepView::Ask(run@, request@),
            JobStep::Finished(status) => JobStepView::Finished(*status),
        }
    }
}

/// What the processing of a job keeps up to date: the two tables and the
/// worker's count.
pub struct Books {
    pub table: JobTable,
    pub downloads: DownloadTable,
    pub worker: WorkerView,
}

/// A step together with the books as it leaves them.
pub struct RunOutcome {
    pub step: JobStepView,
    pub books: Books,
}

/// A step together with the job table as it leaves it.
pub struct Settled {
    pub step: JobStepView,
    pub table: JobTable,
}

impl Settled {
    /// The same, with the rest of the books untouched.
    pub open spec fn within(self, books: Books) -> RunOutcome {
        RunOutcome { step: self.step, books: Books { table: self.table, ..books } }
    }
}

/// The name of the directory, beside the source, that converted sources
/// are moved into.
pub open spec fn archive_name() -> Seq<char> {
    "_converted"@
}

/// The request to publish a job's new status.
pub open spec fn announce(id: i64, status: JobStatus) -> RequestView {
    RequestView::Emit { event: EventView::JobStatusChanged { id, status } }
}

/// The step that publishes the job's final status.
pub open spec fn closing(run: JobRunView, status: JobStatus) -> JobStepView {
    JobStepView::Ask(
        JobRunView { phase: RunPhaseView::Close(status), ..run },
        announce(run.job.conv_id, status),
    )
}

/// The first step for a job taken off the queue at `now`, whose source
/// has the file name `fname`: the job is marked converting and the event
/// for it is published.
pub open spec fn run_first_with(
    job: ConvJobView,
    program: Option<Seq<char>>,
    fname: Seq<char>,
    table: JobTable,
    now: u64,
) -> Settled {
    Settled {
        step: JobStepView::Ask(
            JobRunView { phase: RunPhaseView::Announce, job, fname, program },
            announce(job.conv_id, JobStatus::Converting),
        ),
        table: table.after_start(job.conv_id, now),
    }
}

/// The first step for a job taken off the queue at `now`: as
/// [`run_first_with`], for the file name of the job's source.
pub open spec fn run_first(
    job: ConvJobView,
    program: Option<Seq<char>>,
    table: JobTable,
    now: u64,
) -> Settled {
    run_first_with(job, program, file_name_or_empty(job.source_path), table, now)
}

/// What follows a step of the conversion. A request is passed on. A
/// failure is recorded, its message cut to 1000 bytes, and the `failed`
/// event is published. After a success the size of the output is asked
/// for.
pub open spec fn settle(run: JobRunView, step: StepView, table: JobTable, now: u64) -> Settled {
    match step {
        StepView::Ask(c, request) => Settled {
            step: JobStepView::Ask(
                JobRunView { phase: RunPhaseView::Converting(c), ..run },
                request,
            ),
            table,
        },
        StepView::Done(Err(e)) => Settled {
            step: closing(run, JobStatus::Failed),
            table: table.after_failure(run.job.conv_id, prefix_within(e.text(), 1000), now),
        },
        StepView::Done(Ok(output)) => Settled {
            step: JobStepView::Ask(
                JobRunView { phase: RunPhaseView::Measure { output }, ..run },
                RequestView::FileSize { path: output },
            ),
            table,
        },
    }
}

/// Where a job's source is archived: the directory `_converted` beside the
/// source, and the source's path in it. A source without a parent is not
/// archived.
pub open spec fn archive_target(source: Seq<char>, fname: Seq<char>) -> Option<
    (Seq<char>, Seq<char>),
> {
    match parent_of(source) {
        None => None,
        Some(dir) => Some(
            (join_of(dir, archive_name()), join_of(join_of(dir, archive_name()), fname)),
        ),
    }
}

/// The step that begins the archiving of a job's source, given the
/// archive directory and the source's path in it: the directory is asked
/// for. Without a target the job is closed as done.
pub open spec fn archive_step(run: JobRunView, target: Option<(Seq<char>, Seq<char>)>)
    -> JobStepView {
    match target {
        None => closing(run, JobStatus::Done),
        Some((archive, dest)) => JobStepView::Ask(
            JobRunView { phase: RunPhaseView::ArchiveDir { dest }, ..run },
            RequestView::CreateDirAll { path: archive },
        ),
    }
}

/// The step that follows a reply.
///
/// * Announce: the conversion starts.
/// * Converting: the conversion goes on; see [`settle`].
/// * Measure: the job is recorded as done with the output's size (0 if it
///   could not be read). Then the source is archived: if its path has a
///   parent, the directory `_converted` beside it is asked for.
/// * ArchiveDir, ArchiveCheck, ArchiveMove: the archive directory is made,
///   the source is checked to be a regular file still, and it is moved.
///   When the move succeeded, the job and the download are given the new
///   path. Any "no" on the way leaves the source where it is; the job stays
///   done.
/// * Close: the processing is finished, and the job is taken off the
///   worker's count, whatever its outcome.
pub open spec fn run_next(run: JobRunView, reply: ReplyView, books: Books, now: u64)
    -> RunOutcome {
    let id = run.job.conv_id;
    let source = run.job.source_path;
    let stay = RunOutcome { step: closing(run, JobStatus::Done), books };
    match run.phase {
        RunPhaseView::Announce => settle(
            run,
            first_step(source, run.job.output_dir, run.program),
            books.table,
            now,
        ).within(books),
        RunPhaseView::Converting(c) => settle(run, next_step(c, reply), books.table, now).within(
            books,
        ),
        RunPhaseView::Measure { output } => {
            let bytes = match reply {
                ReplyView::Size { bytes } => bytes,
                _ => 0u64,
            };
            let recorded = Books {
                table: books.table.after_success(
                    id,
                    output,
                    centi_mb_of(bytes as nat) as u64,
                    now,
                ),
                ..books
            };
            RunOutcome {
                step: archive_step(run, archive_target(source, run.fname)),
                books: recorded,
            }
        },
        RunPhaseView::ArchiveDir { dest } => if reply.positive() {
            RunOutcome {
                step: JobStepView::Ask(
                    JobRunView { phase: RunPhaseView::ArchiveCheck { dest }, ..run },
                    RequestView::IsFile { path: source },
                ),
                books,
            }
        } else {
            stay
        },
        RunPhaseView::ArchiveCheck { dest } => if reply.positive() {
            RunOutcome {
                step: JobStepView::Ask(
                    JobRunView { phase: RunPhaseView::ArchiveMove { dest }, ..run },
                    RequestView::Rename { from: source, to: dest },
                ),
                books,
            }
        } else {
            stay
        },
        RunPhaseView::ArchiveMove { dest } => if reply.positive() {
            RunOutcome {
                step: closing(run, JobStatus::Done),
                books: Books {
                    table: books.table.after_move(id, dest),
                    downloads: books.downloads.after_rename(source, dest),
                    ..books
                },
            }
        } else {
            stay
        },
        RunPhaseView::Close(status) => RunOutcome {
            step: JobStepView::Finished(status),
            books: Books { worker: books.worker.with_one_less(), ..books },
        },
    }
}

impl JobRun {
    /// Starts processing a job that was taken off the queue.
    pub fn begin(job: ConvJob, program: Option<&str>, store: &mut JobStore, now: u64) -> (r:
        JobStep)
        requires
            old(store).wf(),
        ensures
            final(store).wf(),
            (Settled { step: r@, table: final(store)@ }) == run_first(
                job@,
                opt_view(program),
                old(store)@,
                now,
            ),
    {
        let fname = base_name(job.source_path.as_str());
        JobRun::start(job, program, fname, store, now)
    }

    /// Starts processing a job that was taken off the queue, given the
    /// file name of its source.
    pub fn start(
        job: ConvJob,
        program: Option<&str>,
        fname: String,
        store: &mut JobStore,
        now: u64,
    ) -> (r: JobStep)
        requires
            old(store).wf(),
        ensures
            final(store).wf(),
            (Settled { step: r@, table: final(store)@ }) == run_first_with(
                job@,
                opt_view(program),
                fname@,
                old(store)@,
                now,
            ),
    {
        let _applied = store.mark_converting(job.conv_id, now);
        let id = job.conv_id;
        let run = JobRun {
            phase: RunPhase::Announce,
            job,
            fname,
            program: match program {
                Some(p) => Some(p.to_owned()),
                None => None,
            },
        };
        JobStep::Ask(
            run,
            Request::Emit {
                event: Event::JobStatusChanged { id, status: JobStatus::Converting },
            },
        )
    }

    /// Begins the archiving of the job's source, given the archive
    /// directory and the source's path in it, or closes the job as done if
    /// there is no such target.
    pub fn archive(self, target: Option<(String, String)>) -> (r: JobStep)
        ensures
            r@ == archive_step(
                self@,
                match target {
                    Some((archive, dest)) => Some((archive@, dest@)),
                    None => None,
                },
            ),
    {
        match target {
            None => self.close(JobStatus::Done),
            Some((archive, dest)) => JobStep::Ask(
                JobRun {
                    phase: RunPhase::ArchiveDir { dest },
                    job: self.job,
                    fname: self.fname,
                    program: self.program,
                },
                Request::CreateDirAll { path: archive },
            ),
        }
    }

    fn close(self, status: JobStatus) -> (r: JobStep)
        ensures
            r@ == closing(self@, status),
    {
        let id = self.job.conv_id;
        JobStep::Ask(
            JobRun { phase: RunPhase::Close(status), job: self.job, fname: self.fname, program: self.program },
            Request::Emit { event: Event::JobStatusChanged { id, status } },
        )
    }

    fn settle_step(self, step: Step, store: &mut JobStore, now: u64) -> (r: JobStep)
        requires
            old(store).wf(),
        ensures
            final(store).wf(),
            (Settled { step: r@, table: final(store)@ }) == settle(self@, step@, old(store)@, now),
    {
        match step {
            Step::Ask(c, request) => JobStep::Ask(
                JobRun {
                    phase: RunPhase::Converting(c),
                    job: self.job,
                    fname: self.fname,
                    program: self.program,
                },
                request,
            ),
            Step::Done(Err(e)) => {
                let message = e.message();
                let kept = truncate_bytes(message.as_str(), ERROR_LIMIT);
                let _applied = store.mark_failed(self.job.conv_id, kept, now);
                self.close(JobStatus::Failed)
            },
            Step::Done(Ok(output)) => {
                let path = output.clone();
                JobStep::Ask(
                    JobRun {
                        phase: RunPhase::Measure { output },
                        job: self.job,
                        fname: self.fname,
                        program: self.program,
                    },
                    Request::FileSize { path },
                )
            },
        }
    }

    /// Takes the reply to the request that is out, brings the books up to
    /// date and decides the next step.
    pub fn advance(
        self,
        reply: Reply,
        store: &mut JobStore,
        downloads: &mut DownloadRegistry,
        worker: &mut ConversionWorker,
        now: u64,
    ) -> (r: JobStep)
        requires
            old(store).wf(),
            old(downloads).wf(),
        ensures
            final(store).wf(),
            final(downloads).wf(),
            (RunOutcome {
                step: r@,
                books: Books {
                    table: final(store)@,
                    downloads: final(downloads)@,
                    worker: final(worker)@,
                },
            }) == run_next(
                self@,
                reply@,
                Books { table: old(store)@, downloads: old(downloads)@, worker: old(worker)@ },
                now,
            ),
    {
        let JobRun { phase, job, fname, program } = self;
        match phase {
            RunPhase::Announce => {
                let step = Converter::begin(
                    job.source_path.as_str(),
                    job.output_dir.as_str(),
                    match &program {
                        Some(p) => Some(p.as_str()),
                        None => None,
                    },
                );
                let run = JobRun { phase: RunPhase::Announce, job, fname, program };
                run.settle_step(step, store, now)
            },
            RunPhase::Converting(c) => {
                let step = c.advance(reply);
                let run = JobRun { phase: RunPhase::Announce, job, fname, program };
                run.settle_step(step, store, now)
            },
            RunPhase::Measure { output } => {
                let bytes = match reply {
                    Reply::Size { bytes } => bytes,
                    _ => 0,
                };
                let _applied = store.mark_done(
                    job.conv_id,
                    output.as_str(),
                    size_centi_mb(bytes),
                    now,
                );
                let target = match parent(job.source_path.as_str()) {
                    None => None,
                    Some(dir) => {
                        let archive = join(dir.as_str(), "_converted");
                        let dest = join(archive.as_str(), fname.as_str());
                        Some((archive, dest))
                    },
                };
                let run = JobRun { phase: RunPhase::Announce, job, fname, program };
                run.archive(target)
            },
            RunPhase::ArchiveDir { dest } => {
                if reply.is_positive() {
                    let path = job.source_path.clone();
                    JobStep::Ask(
                        JobRun { phase: RunPhase::ArchiveCheck { dest }, job, fname, program },
                        Request::IsFile { path },
                    )
                } else {
                    let run = JobRun { phase: RunPhase::Announce, job, fname, program };
                    run.close(JobStatus::Done)
                }
            },
            RunPhase::ArchiveCheck { dest } => {
                if reply.is_positive() {
                    let from = job.source_path.clone();
                    let to = dest.clone();
                    JobStep::Ask(
                        JobRun { phase: RunPhase::ArchiveMove { dest }, job, fname, program },
                        Request::Rename { from, to },
                    )
                } else {
                    let run = JobRun { phase: RunPhase::Announce, job, fname, program };
                    run.close(JobStatus::Done)
                }
            },
            RunPhase::ArchiveMove { dest } => {
                if reply.is_positive() {
                    let _changed = downloads.rename_path(job.source_path.as_str(), dest.as_str());
                    let _applied = store.relocate(job.conv_id, dest.as_str());
                }
                let run = JobRun { phase: RunPhase::Announce, job, fname, program };
                run.close(JobStatus::Done)
            },
            RunPhase::Close(status) => {
                worker.job_finished();
                JobStep::Finished(status)
            },
        }
    }
}

/// Asking for a conversion keeps the job table well formed.
pub proof fn lemma_enqueue_wf(
    table: JobTable,
    worker: WorkerView,
    download_id: i64,
    source_path: Seq<char>,
    source_ext: Seq<char>,
    now: u64,
)
    requires
        table.wf(),
    ensures
        after_enqueue(table, worker, download_id, source_path, source_ext, now).table.wf(),
{
    let e = after_enqueue(table, worker, download_id, source_path, source_ext, now);
    if !table.is_blocked(source_path) && table.next_id != i64::MAX {
        assert forall|i: int, j: int| 0 <= i < j < e.table.rows.len() implies (
        #[trigger] e.table.rows[i]).id < (#[trigger] e.table.rows[j]).id by {
            if j < table.rows.len() {
                assert(table.rows[i].id < table.rows[j].id);
            } else {
                assert(table.rows[i].id < table.next_id);
            }
        }
        assert forall|i: int| 0 <= i < e.table.rows.len() implies (#[trigger] e.table.rows[i]).id
            < e.table.next_id by {
            if i < table.rows.len() {
                assert(table.rows[i].id < table.next_id);
            }
        }
    }
}

/// While a job for a source path is pending, converting or done, asking
/// for a conversion of that path creates no record, counts nothing and
/// returns the id of a job for that path in one of those states: the
/// oldest of them.
pub proof fn lemma_enqueue_returns_existing(
    table: JobTable,
    worker: WorkerView,
    download_id: i64,
    source_path: Seq<char>,
    source_ext: Seq<char>,
    now: u64,
    at: int,
)
    requires
        table.wf(),
        0 <= at < table.rows.len(),
        table.rows[at].blocks(source_path),
    ensures
        after_enqueue(table, worker, download_id, source_path, source_ext, now).table == table,
        after_enqueue(table, worker, download_id, source_path, source_ext, now).worker == worker,
        after_enqueue(table, worker, download_id, source_path, source_ext, now).id == Some(
            table.rows[table.first_blocking(source_path)].id,
        ),
        0 <= table.first_blocking(source_path) <= at,
        table.rows[table.first_blocking(source_path)].blocks(source_path),
{
    lemma_first_blocking(table, source_path, at);
}

/// Where no two jobs that are pending, converting or done share a source
/// path, the id returned for a path that has such a job is that job's.
pub proof fn lemma_enqueue_returns_the_job(
    table: JobTable,
    worker: WorkerView,
    download_id: i64,
    source_path: Seq<char>,
    source_ext: Seq<char>,
    now: u64,
    at: int,
)
    requires
        table.wf(),
        table.active_paths_unique(),
        0 <= at < table.rows.len(),
        table.rows[at].blocks(source_path),
    ensures
        after_enqueue(table, worker, download_id, source_path, source_ext, now).id == Some(
            table.rows[at].id,
        ),
{
    lemma_first_blocking(table, source_path, at);
    let first = table.first_blocking(source_path);
    if first < at {
        assert(table.rows[first].status.blocks_enqueue());
        assert(table.rows[at].status.blocks_enqueue());
        assert(table.rows[first].source_path != table.rows[at].source_path);
    }
}

/// Among the rows that stand in the way of a new job for a path there is
/// an oldest.
proof fn lemma_first_blocking(table: JobTable, path: Seq<char>, at: int)
    requires
        0 <= at < table.rows.len(),
        table.rows[at].blocks(path),
    ensures
        table.is_blocked(path),
        0 <= table.first_blocking(path) <= at,
        table.rows[table.first_blocking(path)].blocks(path),
        forall|j: int| 0 <= j < table.first_blocking(path) ==> !(#[trigger] table.rows[j]).blocks(path),
    decreases at,
{
    if exists|j: int| 0 <= j < at && (#[trigger] table.rows[j]).blocks(path) {
        let j = choose|j: int| 0 <= j < at && (#[trigger] table.rows[j]).blocks(path);
        lemma_first_blocking(table, path, j);
    } else {
        assert(forall|j: int| 0 <= j < at ==> !(#[trigger] table.rows[j]).blocks(path));
        let f = table.first_blocking(path);
        assert(0 <= f < table.rows.len() && table.rows[f].blocks(path) && forall|j: int|
            0 <= j < f ==> !(#[trigger] table.rows[j]).blocks(path));
        if at < f {
            assert(!table.rows[at].blocks(path));
        }
    }
}

/// Asking twice is the same as asking once: the second call returns the
/// id the first returned and changes nothing.
pub proof fn lemma_enqueue_twice(
    table: JobTable,
    worker: WorkerView,
    download_id: i64,
    source_path: Seq<char>,
    source_ext: Seq<char>,
    now: u64,
    again_download_id: i64,
    again_ext: Seq<char>,
    later: u64,
)
    requires
        table.wf(),
        after_enqueue(table, worker, download_id, source_path, source_ext, now).id is Some,
    ensures
        ({
            let first = after_enqueue(table, worker, download_id, source_path, source_ext, now);
            after_enqueue(
                first.table,
                first.worker,
                again_download_id,
                source_path,
                again_ext,
                later,
            ) == first
        }),
{
    let first = after_enqueue(table, worker, download_id, source_path, source_ext, now);
    if !table.is_blocked(source_path) {
        let at = table.rows.len() as int;
        assert(first.table.rows[at].blocks(source_path));
        lemma_first_blocking(first.table, source_path, at);
        let again = first.table.first_blocking(source_path);
        if again < at {
            assert(first.table.rows[again] == table.rows[again]);
            assert(table.rows[again].blocks(source_path));
        }
    }
}

/// Where no two jobs that are pending, converting or done share a source
/// path, asking for a conversion keeps it so.
pub proof fn lemma_enqueue_keeps_paths_unique(
    table: JobTable,
    worker: WorkerView,
    download_id: i64,
    source_path: Seq<char>,
    source_ext: Seq<char>,
    now: u64,
)
    requires
        table.active_paths_unique(),
    ensures
        after_enqueue(
            table,
            worker,
            download_id,
            source_path,
            source_ext,
            now,
        ).table.active_paths_unique(),
{
    let e = after_enqueue(table, worker, download_id, source_path, source_ext, now);
    if !table.is_blocked(source_path) && table.next_id != i64::MAX {
        let rows = e.table.rows;
        assert forall|i: int, j: int|
            0 <= i < j < rows.len() && (#[trigger] rows[i]).status.blocks_enqueue() && (
            #[trigger] rows[j]).status.blocks_enqueue() implies rows[i].source_path
            != rows[j].source_path by {
            if j < table.rows.len() {
                assert(table.rows[i].status.blocks_enqueue() && table.rows[j].status.blocks_enqueue());
            } else {
                assert(!table.rows[i].blocks(source_path));
            }
        }
    }
}

/// What holds between a job's processing and its row, as long as nothing
/// else touches the row: the row is converting until the conversion has
/// ended, and from then on it shows how it ended.
pub open spec fn in_step(run: JobRunView, table: JobTable) -> bool {
    &&& table.wf()
    &&& table.has(run.job.conv_id)
    &&& match run.phase {
        RunPhaseView::Announce => table.row(run.job.conv_id).status == JobStatus::Converting,
        RunPhaseView::Converting(_) => table.row(run.job.conv_id).status == JobStatus::Converting,
        RunPhaseView::Measure { .. } => table.row(run.job.conv_id).status == JobStatus::Converting,
        RunPhaseView::ArchiveDir { .. } => table.row(run.job.conv_id).status == JobStatus::Done,
        RunPhaseView::ArchiveCheck { .. } => table.row(run.job.conv_id).status == JobStatus::Done,
        RunPhaseView::ArchiveMove { .. } => table.row(run.job.conv_id).status == JobStatus::Done,
        RunPhaseView::Close(status) => status.terminal() && table.row(run.job.conv_id).status
            == status,
    }
}

/// The same for a step: a request that is out, or the end.
pub open spec fn step_in_step(step: JobStepView, id: i64, table: JobTable) -> bool {
    match step {
        JobStepView::Ask(run, _) => run.job.conv_id == id && in_step(run, table),
        JobStepView::Finished(status) => status.terminal() && table.wf() && table.has(id)
            && table.row(id).status == status,
    }
}

/// Where the processing of a job ends when its requests are answered by
/// `replies` in turn and nothing else touches the books.
pub open spec fn run_all(step: JobStepView, replies: Seq<ReplyView>, books: Books, now: u64)
    -> RunOutcome
    decreases replies.len(),
{
    match step {
        JobStepView::Finished(_) => RunOutcome { step, books },
        JobStepView::Ask(run, _) => if replies.len() == 0 {
            RunOutcome { step, books }
        } else {
            let next = run_next(run, replies[0], books, now);
            run_all(next.step, replies.drop_first(), next.books, now)
        },
    }
}

/// Taking a pending job off the queue makes it converting.
pub proof fn lemma_run_first_in_step(
    job: ConvJobView,
    program: Option<Seq<char>>,
    table: JobTable,
    now: u64,
)
    requires
        table.wf(),
        table.has(job.conv_id),
        table.row(job.conv_id).status == JobStatus::Pending,
    ensures
        step_in_step(
            run_first(job, program, table, now).step,
            job.conv_id,
            run_first(job, program, table, now).table,
        ),
{
    lemma_with_row(table, job.conv_id, table.row(job.conv_id).started(now));
}

/// One step keeps processing and row in step, and leaves the worker's
/// count alone unless it is the last.
pub proof fn lemma_run_next_in_step(run: JobRunView, reply: ReplyView, books: Books, now: u64)
    requires
        in_step(run, books.table),
    ensures
        step_in_step(
            run_next(run, reply, books, now).step,
            run.job.conv_id,
            run_next(run, reply, books, now).books.table,
        ),
        run_next(run, reply, books, now).books.worker == (if run_next(
            run,
            reply,
            books,
            now,
        ).step is Finished {
            books.worker.with_one_less()
        } else {
            books.worker
        }),
{
    let id = run.job.conv_id;
    let table = books.table;
    let row = table.row(id);
    match run.phase {
        RunPhaseView::Announce => {
            let step = first_step(run.job.source_path, run.job.output_dir, run.program);
            match step {
                StepView::Done(Err(e)) => {
                    lemma_with_row(table, id, row.failed(prefix_within(e.text(), 1000), now));
                },
                _ => {},
            }
        },
        RunPhaseView::Converting(c) => {
            match next_step(c, reply) {
                StepView::Done(Err(e)) => {
                    lemma_with_row(table, id, row.failed(prefix_within(e.text(), 1000), now));
                },
                _ => {},
            }
        },
        RunPhaseView::Measure { output } => {
            let bytes = match reply {
                ReplyView::Size { bytes } => bytes,
                _ => 0u64,
            };
            lemma_with_row(
                table,
                id,
                row.succeeded(output, centi_mb_of(bytes as nat) as u64, now),
            );
        },
        RunPhaseView::ArchiveMove { dest } => {
            lemma_with_row(table, id, row.moved(dest));
        },
        _ => {},
    }
}

/// A job that was pending when the worker took it ends `done` or `failed`,
/// and its row says which: however the requests are answered, once the
/// processing has finished the status it reports is terminal and is the
/// one on record, and the job has been taken off the worker's count once.
pub proof fn lemma_run_ends_terminal(
    step: JobStepView,
    id: i64,
    replies: Seq<ReplyView>,
    books: Books,
    now: u64,
)
    requires
        step is Ask,
        step_in_step(step, id, books.table),
    ensures
        run_all(step, replies, books, now).step matches JobStepView::Finished(status) ==> {
            &&& status.terminal()
            &&& run_all(step, replies, books, now).books.table.has(id)
            &&& run_all(step, replies, books, now).books.table.row(id).status == status
            &&& run_all(step, replies, books, now).books.worker == books.worker.with_one_less()
        },
        run_all(step, replies, books, now).step is Ask ==> run_all(
            step,
            replies,
            books,
            now,
        ).books.worker == books.worker,
    decreases replies.len(),
{
    let run = step->Ask_0;
    if replies.len() > 0 {
        let next = run_next(run, replies[0], books, now);
        lemma_run_next_in_step(run, replies[0], books, now);
        if next.step is Ask {
            lemma_run_ends_terminal(next.step, id, replies.drop_first(), next.books, now);
        }
    }
}

/// Without a transcoder binary a job fails as soon as its processing goes
/// on from the first event, and the message on record is
/// `ffmpeg not found`.
pub proof fn lemma_missing_binary_fails(
    job: ConvJobView,
    reply: ReplyView,
    books: Books,
    now: u64,
)
    requires
        books.table.wf(),
        books.table.has(job.conv_id),
        books.table.row(job.conv_id).status == JobStatus::Pending,
    ensures
        ({
            let first = run_first(job, None, books.table, now);
            let run = first.step->Ask_0;
            let second = run_next(run, reply, first.within(books).books, now);
            &&& first.step is Ask
            &&& second.step == closing(run, JobStatus::Failed)
            &&& second.books.table.has(job.conv_id)
            &&& second.books.table.row(job.conv_id).status == JobStatus::Failed
            &&& second.books.table.row(job.conv_id).error_msg == "ffmpeg not found"@
        }),
{
    let id = job.conv_id;
    let table = books.table;
    let first = run_first(job, None, table, now);
    lemma_with_row(table, id, table.row(id).started(now));
    let text = ConvertErrorView::TranscoderNotFound.text();
    reveal_strlit("ffmpeg not found");
    lemma_short_ascii_is_kept(text, 1000);
    let row = first.table.row(id);
    lemma_with_row(first.table, id, row.failed(text, now));
}

} // verus!
