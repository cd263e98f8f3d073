//! The table of conversion jobs.
//!
//! The table is the single record of what has been asked for and how far it
//! got. Rows are kept in the order in which they were created; their ids
//! grow along that order. Every change to a row goes through one of the
//! operations below, each of which checks the status transition it makes.

use crate::status::JobStatus;
use crate::text::str_eq;
use vstd::prelude::*;

verus! {

/// One conversion job as it is stored.
#[derive(Clone, Debug, PartialEq, Eq)]
pub struct Conversion {
    /// Identity, given by the table when the row is created.
    pub id: i64,
    /// The download the job was made for.
    pub download_id: Option<i64>,
    /// Where the source file is now.
    pub source_path: String,
    /// Where the converted file is; empty until the job is done.
    pub output_path: String,
    /// The source file's extension, in lower case.
    pub source_ext: String,
    /// How far the job got.
    pub status: JobStatus,
    /// Why the job failed; empty unless it did.
    pub error_msg: String,
    /// Size of the converted file in hundredths of a mebibyte.
    pub size_centi_mb: u64,
    /// When the worker picked the job up.
    pub started_at: Option<u64>,
    /// When the job reached `done` or `failed`.
    pub finished_at: Option<u64>,
    /// When the row was created.
    pub created_at: u64,
}

/// The mathematical content of a [`Conversion`].
pub struct ConversionView {
    pub id: i64,
    pub download_id: Option<i64>,
    pub source_path: Seq<char>,
    pub output_path: Seq<char>,
    pub source_ext: Seq<char>,
    pub status: JobStatus,
    pub error_msg: Seq<char>,
    pub size_centi_mb: u64,
    pub started_at: Option<u64>,
    pub finished_at: Option<u64>,
    pub created_at: u64,
}

impl View for Conversion {
    type V = ConversionView;

    open spec fn view(&self) -> ConversionView {
        ConversionView {
            id: self.id,
            download_id: self.download_id,
            source_path: self.source_path@,
            output_path: self.output_path@,
            source_ext: self.source_ext@,
            status: self.status,
            error_msg: self.error_msg@,
            size_centi_mb: self.size_centi_mb,
            started_at: self.started_at,
            finished_at: self.finished_at,
            created_at: self.created_at,
        }
    }
}

impl ConversionView {
    /// A row as it is created: pending, with nothing else filled in.
    pub open spec fn fresh(
        id: i64,
        download_id: i64,
        source_path: Seq<char>,
        source_ext: Seq<char>,
        now: u64,
    ) -> ConversionView {
        ConversionView {
            id,
            download_id: Some(download_id),
            source_path,
            output_path: Seq::empty(),
            source_ext,
            status: JobStatus::Pending,
            error_msg: Seq::empty(),
            size_centi_mb: 0,
            started_at: None,
            finished_at: None,
            created_at: now,
        }
    }

    /// Whether this row stands in the way of a new job for `path`.
    pub open spec fn blocks(self, path: Seq<char>) -> bool {
        self.source_path == path && self.status.blocks_enqueue()
    }

    /// The row after the worker picked it up at `now`.
    pub open spec fn started(self, now: u64) -> ConversionView {
        ConversionView { status: JobStatus::Converting, started_at: Some(now), ..self }
    }

    /// The row after a successful conversion that ended at `now`.
    pub open spec fn succeeded(self, output_path: Seq<char>, size_centi_mb: u64, now: u64)
        -> ConversionView {
        ConversionView {
            status: JobStatus::Done,
            output_path,
            size_centi_mb,
            finished_at: Some(now),
            ..self
        }
    }

    /// The row after a conversion that failed at `now`.
    pub open spec fn failed(self, error_msg: Seq<char>, now: u64) -> ConversionView {
        ConversionView { status: JobStatus::Failed, error_msg, finished_at: Some(now), ..self }
    }

    /// The row after a retry was asked for: pending, with the traces of the
    /// failed attempt wiped.
    pub open spec fn reset(self) -> ConversionView {
        ConversionView {
            status: JobStatus::Pending,
            error_msg: Seq::empty(),
            started_at: None,
            finished_at: None,
            ..self
        }
    }

    /// The row after startup recovery: pending again, all else as it was.
    pub open spec fn recovered(self) -> ConversionView {
        ConversionView { status: JobStatus::Pending, ..self }
    }

    /// The row after its source file moved to `path`.
    pub open spec fn moved(self, path: Seq<char>) -> ConversionView {
        ConversionView { source_path: path, ..self }
    }

    /// What the fields say fits the status: only a failed job has a
    /// message, and only a job that is done has an output and a size.
    pub open spec fn coherent(self) -> bool {
        &&& self.status != JobStatus::Failed ==> self.error_msg.len() == 0
        &&& self.status != JobStatus::Done ==> self.output_path.len() == 0 && self.size_centi_mb
            == 0
    }
}

/// Every transition the pipeline makes keeps a row coherent: a new row is
/// coherent, and a coherent row stays so when it is started, finished
/// either way, retried, recovered or moved, provided the transition is one
/// its status allows.
pub proof fn lemma_transitions_keep_coherent(
    row: ConversionView,
    text: Seq<char>,
    size_centi_mb: u64,
    now: u64,
)
    requires
        row.coherent(),
    ensures
        ConversionView::fresh(row.id, 0, text, text, now).coherent(),
        row.status.may_become(JobStatus::Converting) ==> row.started(now).coherent(),
        row.status.may_become(JobStatus::Done) ==> row.succeeded(text, size_centi_mb, now).coherent(),
        row.status.may_become(JobStatus::Failed) ==> row.failed(text, now).coherent(),
        row.status == JobStatus::Failed ==> row.reset().coherent(),
        row.status.interrupted() ==> row.recovered().coherent(),
        row.moved(text).coherent(),
{
}

/// The mathematical content of a [`JobStore`]: its rows in creation order
/// and the id the next row will get.
pub struct JobTable {
    pub rows: Seq<ConversionView>,
    pub next_id: i64,
}

impl JobTable {
    /// Ids grow along the rows and stay below the next id to hand out.
    pub open spec fn wf(self) -> bool {
        &&& forall|i: int, j: int|
            0 <= i < j < self.rows.len() ==> (#[trigger] self.rows[i]).id < (
            #[trigger] self.rows[j]).id
        &&& forall|i: int| 0 <= i < self.rows.len() ==> (#[trigger] self.rows[i]).id < self.next_id
    }

    /// Whether a row with this id exists.
    pub open spec fn has(self, id: i64) -> bool {
        exists|i: int| 0 <= i < self.rows.len() && (#[trigger] self.rows[i]).id == id
    }

    /// The position of the row with this id.
    pub open spec fn position(self, id: i64) -> int {
        choose|i: int| 0 <= i < self.rows.len() && (#[trigger] self.rows[i]).id == id
    }

    /// The row with this id.
    pub open spec fn row(self, id: i64) -> ConversionView {
        self.rows[self.position(id)]
    }

    /// Whether some row stands in the way of a new job for `path`.
    pub open spec fn is_blocked(self, path: Seq<char>) -> bool {
        exists|i: int| 0 <= i < self.rows.len() && (#[trigger] self.rows[i]).blocks(path)
    }

    /// The position of the oldest row that stands in the way of a new job
    /// for `path`.
    pub open spec fn first_blocking(self, path: Seq<char>) -> int {
        choose|i: int|
            0 <= i < self.rows.len() && (#[trigger] self.rows[i]).blocks(path) && forall|j: int|
                0 <= j < i ==> !(#[trigger] self.rows[j]).blocks(path)
    }

    /// The table with the row at `at` replaced.
    pub open spec fn with_row(self, at: int, row: ConversionView) -> JobTable {
        JobTable { rows: self.rows.update(at, row), ..self }
    }

    /// The table with one more row, which gets the next id.
    pub open spec fn with_new(self, row: ConversionView) -> JobTable {
        JobTable { rows: self.rows.push(row), next_id: (self.next_id + 1) as i64 }
    }

    /// Whether the job exists and may go to the status `next`.
    pub open spec fn can(self, id: i64, next: JobStatus) -> bool {
        self.has(id) && self.row(id).status.may_become(next)
    }

    /// The table after the worker picked the job up at `now`: the row is
    /// converting if it was pending; otherwise nothing changed.
    pub open spec fn after_start(self, id: i64, now: u64) -> JobTable {
        if self.can(id, JobStatus::Converting) {
            self.with_row(self.position(id), self.row(id).started(now))
        } else {
            self
        }
    }

    /// The table after the job's conversion succeeded at `now`: the row is
    /// done if it was converting; otherwise nothing changed.
    pub open spec fn after_success(
        self,
        id: i64,
        output_path: Seq<char>,
        size_centi_mb: u64,
        now: u64,
    ) -> JobTable {
        if self.can(id, JobStatus::Done) {
            self.with_row(
                self.position(id),
                self.row(id).succeeded(output_path, size_centi_mb, now),
            )
        } else {
            self
        }
    }

    /// The table after the job's conversion failed at `now`: the row is
    /// failed if it was converting; otherwise nothing changed.
    pub open spec fn after_failure(self, id: i64, error_msg: Seq<char>, now: u64) -> JobTable {
        if self.can(id, JobStatus::Failed) {
            self.with_row(self.position(id), self.row(id).failed(error_msg, now))
        } else {
            self
        }
    }

    /// The table after the job's source file moved to `path`.
    pub open spec fn after_move(self, id: i64, path: Seq<char>) -> JobTable {
        if self.has(id) {
            self.with_row(self.position(id), self.row(id).moved(path))
        } else {
            self
        }
    }

    /// The table after a retry of the job was accepted.
    pub open spec fn after_retry(self, id: i64) -> JobTable {
        self.with_row(self.position(id), self.row(id).reset())
    }

    /// The table after startup recovery.
    pub open spec fn after_recovery(self) -> JobTable {
        JobTable { rows: recovered_rows(self.rows), ..self }
    }

    /// No two rows that are pending, converting or done have the same
    /// source path.
    pub open spec fn active_paths_unique(self) -> bool {
        forall|i: int, j: int|
            0 <= i < j < self.rows.len() && (#[trigger] self.rows[i]).status.blocks_enqueue() && (
            #[trigger] self.rows[j]).status.blocks_enqueue() ==> self.rows[i].source_path
                != self.rows[j].source_path
    }
}

/// In a well-formed table a row is found at one position only.
pub proof fn lemma_position(table: JobTable, id: i64, at: int)
    requires
        table.wf(),
        0 <= at < table.rows.len(),
        table.rows[at].id == id,
    ensures
        table.has(id),
        table.position(id) == at,
        table.row(id) == table.rows[at],
{
    let p = table.position(id);
    assert(0 <= p < table.rows.len() && table.rows[p].id == id);
    if p < at {
        assert(table.rows[p].id < table.rows[at].id);
    } else if at < p {
        assert(table.rows[at].id < table.rows[p].id);
    }
}

/// A unit of work for the conversion worker: which job, which file, and
/// where the converted file goes.
#[derive(Clone, Debug, PartialEq, Eq)]
pub struct ConvJob {
    pub conv_id: i64,
    pub source_path: String,
    pub output_dir: String,
}

/// The mathematical content of a [`ConvJob`].
pub struct ConvJobView {
    pub conv_id: i64,
    pub source_path: Seq<char>,
    pub output_dir: Seq<char>,
}

impl View for ConvJob {
    type V = ConvJobView;

    open spec fn view(&self) -> ConvJobView {
        ConvJobView {
            conv_id: self.conv_id,
            source_path: self.source_path@,
            output_dir: self.output_dir@,
        }
    }
}

/// The contents of a list of rows.
pub open spec fn row_views(rows: Seq<Conversion>) -> Seq<ConversionView> {
    Seq::new(rows.len(), |i: int| rows[i]@)
}

/// The contents of a list of work items.
pub open spec fn job_views(jobs: Seq<ConvJob>) -> Seq<ConvJobView> {
    Seq::new(jobs.len(), |i: int| jobs[i]@)
}

/// An output directory counts as configured when it is there and not empty.
pub open spec fn configured(dir: Option<Seq<char>>) -> bool {
    dir matches Some(d) && d.len() > 0
}

/// The view of an optional string.
pub open spec fn opt_view(s: Option<&str>) -> Option<Seq<char>> {
    match s {
        Some(t) => Some(t@),
        None => None,
    }
}

/// The work items for the rows that were cut short, in row order, each
/// bound for `dir`.
pub open spec fn interrupted_jobs(rows: Seq<ConversionView>, dir: Seq<char>) -> Seq<ConvJobView>
    decreases rows.len(),
{
    if rows.len() == 0 {
        Seq::empty()
    } else {
        let rest = interrupted_jobs(rows.drop_last(), dir);
        let last = rows.last();
        if last.status.interrupted() {
            rest.push(ConvJobView { conv_id: last.id, source_path: last.source_path, output_dir: dir })
        } else {
            rest
        }
    }
}

/// The rows after recovery: those cut short are pending again, the others
/// are as they were.
pub open spec fn recovered_rows(rows: Seq<ConversionView>) -> Seq<ConversionView> {
    Seq::new(
        rows.len(),
        |i: int|
            if rows[i].status.interrupted() {
                rows[i].recovered()
            } else {
                rows[i]
            },
    )
}

/// How many rows have the given status.
pub open spec fn count_status(rows: Seq<ConversionView>, status: JobStatus) -> nat
    decreases rows.len(),
{
    if rows.len() == 0 {
        0
    } else {
        count_status(rows.drop_last(), status) + if rows.last().status == status {
            1nat
        } else {
            0nat
        }
    }
}

/// The rows that do not belong to the download `download_id`, in order.
pub open spec fn without_download(rows: Seq<ConversionView>, download_id: i64) -> Seq<
    ConversionView,
>
    decreases rows.len(),
{
    if rows.len() == 0 {
        Seq::empty()
    } else {
        let rest = without_download(rows.drop_last(), download_id);
        if rows.last().download_id == Some(download_id) {
            rest
        } else {
            rest.push(rows.last())
        }
    }
}

/// Ids grow strictly along the rows.
pub open spec fn ids_increase(rows: Seq<ConversionView>) -> bool {
    forall|i: int, j: int|
        0 <= i < j < rows.len() ==> (#[trigger] rows[i]).id < (#[trigger] rows[j]).id
}

/// Why a retry was refused.
#[derive(Clone, Copy, Debug, PartialEq, Eq, Structural)]
pub enum RetryError {
    /// There is no job with that id.
    NotFound,
    /// The job is not in the `failed` state.
    NotFailed,
    /// No output directory is configured, so the job has nowhere to go.
    NoOutputDir,
}

impl RetryError {
    /// The message shown to the user.
    pub open spec fn text(self) -> Seq<char> {
        match self {
            RetryError::NotFound => "Conversion not found"@,
            RetryError::NotFailed => "Can only retry failed conversions"@,
            RetryError::NoOutputDir => "No output folder configured"@,
        }
    }

    /// The message shown to the user.
    pub fn message(self) -> (r: &'static str)
        ensures
            r@ == self.text(),
    {
        match self {
            RetryError::NotFound => "Conversion not found",
            RetryError::NotFailed => "Can only retry failed conversions",
            RetryError::NoOutputDir => "No output folder configured",
        }
    }
}

/// The table has handed out every id it can.
#[derive(Clone, Copy, Debug, PartialEq, Eq, Structural)]
pub struct StoreFull;

/// The table of conversion jobs.
#[derive(Debug)]
pub struct JobStore {
    jobs: Vec<Conversion>,
    next_id: i64,
}

impl View for JobStore {
    type V = JobTable;

    closed spec fn view(&self) -> JobTable {
        JobTable {
            rows: Seq::new(self.jobs.len() as nat, |i: int| self.jobs[i]@),
            next_id: self.next_id,
        }
    }
}

impl JobStore {
    /// The table's lasting invariant.
    pub open spec fn wf(&self) -> bool {
        self@.wf()
    }

    /// An empty table whose first row will get id 1.
    pub fn new() -> (s: JobStore)
        ensures
            s.wf(),
            s@.rows.len() == 0,
            s@.next_id == 1,
    {
        JobStore { jobs: Vec::new(), next_id: 1 }
    }

    /// The number of rows.
    pub fn len(&self) -> (n: usize)
        ensures
            n == self@.rows.len(),
    {
        self.jobs.len()
    }

    /// The row at position `at`, in creation order.
    pub fn at(&self, at: usize) -> (row: &Conversion)
        requires
            at < self@.rows.len(),
        ensures
            row@ == self@.rows[at as int],
    {
        &self.jobs[at]
    }

    fn locate(&self, id: i64) -> (r: Option<usize>)
        requires
            self.wf(),
        ensures
            r is Some == self@.has(id),
            r matches Some(at) ==> at == self@.position(id) && at < self@.rows.len()
                && self@.rows[at as int].id == id,
    {
        let mut i: usize = 0;
        while i < self.jobs.len()
            invariant
                self.wf(),
                i <= self.jobs.len(),
                forall|k: int| 0 <= k < i ==> (#[trigger] self@.rows[k]).id != id,
            decreases self.jobs.len() - i,
        {
            if self.jobs[i].id == id {
                proof {
                    lemma_position(self@, id, i as int);
                }
                return Some(i);
            }
            i = i + 1;
        }
        None
    }

    /// The row with this id, if there is one.
    pub fn get(&self, id: i64) -> (r: Option<&Conversion>)
        requires
            self.wf(),
        ensures
            r is Some == self@.has(id),
            r matches Some(row) ==> row@ == self@.row(id),
    {
        match self.locate(id) {
            Some(at) => Some(&self.jobs[at]),
            None => None,
        }
    }

    /// The id of the oldest job for `source_path` that is pending,
    /// converting or done, if there is one.
    pub fn find_active(&self, source_path: &str) -> (r: Option<i64>)
        ensures
            r is Some == self@.is_blocked(source_path@),
            r matches Some(id) ==> id == self@.rows[self@.first_blocking(source_path@)].id,
    {
        let mut i: usize = 0;
        while i < self.jobs.len()
            invariant
                i <= self.jobs.len(),
                forall|k: int| 0 <= k < i ==> !(#[trigger] self@.rows[k]).blocks(source_path@),
            decreases self.jobs.len() - i,
        {
            if self.jobs[i].status.is_blocking() && str_eq(
                self.jobs[i].source_path.as_str(),
                source_path,
            ) {
                assert(self@.rows[i as int].blocks(source_path@));
                return Some(self.jobs[i].id);
            }
            i = i + 1;
        }
        None
    }

    /// Adds a pending job and returns its id. Fails, and changes nothing,
    /// only when the ids are used up.
    pub fn insert_pending(
        &mut self,
        download_id: i64,
        source_path: &str,
        source_ext: &str,
        now: u64,
    ) -> (r: Result<i64, StoreFull>)
        requires
            old(self).wf(),
        ensures
            final(self).wf(),
            r is Err <==> old(self)@.next_id == i64::MAX,
            r is Err ==> final(self)@ == old(self)@,
            r matches Ok(id) ==> id == old(self)@.next_id && final(self)@ == old(self)@.with_new(
                ConversionView::fresh(id, download_id, source_path@, source_ext@, now),
            ),
    {
        if self.next_id == i64::MAX {
            return Err(StoreFull);
        }
        let id = self.next_id;
        let row = Conversion {
            id,
            download_id: Some(download_id),
            source_path: source_path.to_owned(),
            output_path: String::new(),
            source_ext: source_ext.to_owned(),
            status: JobStatus::Pending,
            error_msg: String::new(),
            size_centi_mb: 0,
            started_at: None,
            finished_at: None,
            created_at: now,
        };
        self.jobs.push(row);
        self.next_id = id + 1;
        proof {
            assert(final(self)@.rows =~= old(self)@.rows.push(
                ConversionView::fresh(id, download_id, source_path@, source_ext@, now),
            ));
        }
        Ok(id)
    }

    /// Records that the worker picked the job up. Applies to a pending job
    /// only; returns whether it applied.
    pub fn mark_converting(&mut self, id: i64, now: u64) -> (applied: bool)
        requires
            old(self).wf(),
        ensures
            final(self).wf(),
            applied == old(self)@.can(id, JobStatus::Converting),
            final(self)@ == old(self)@.after_start(id, now),
    {
        match self.locate(id) {
            Some(at) => {
                if self.jobs[at].status.can_become(JobStatus::Converting) {
                    self.jobs[at].status = JobStatus::Converting;
                    self.jobs[at].started_at = Some(now);
                    proof {
                        assert(final(self)@.rows =~= old(self)@.rows.update(
                            at as int,
                            old(self)@.row(id).started(now),
                        ));
                    }
                    true
                } else {
                    false
                }
            },
            None => false,
        }
    }
    /// Records a successful conversion. Applies to a converting job only;
    /// returns whether it applied.
    pub fn mark_done(&mut self, id: i64, output_path: &str, size_centi_mb: u64, now: u64) -> (applied:
        bool)
        requires
            old(self).wf(),
        ensures
            final(self).wf(),
            applied == old(self)@.can(id, JobStatus::Done),
            final(self)@ == old(self)@.after_success(id, output_path@, size_centi_mb, now),
    {
        match self.locate(id) {
            Some(at) => {
                if self.jobs[at].status.can_become(JobStatus::Done) {
                    self.jobs[at].status = JobStatus::Done;
                    self.jobs[at].output_path = output_path.to_owned();
                    self.jobs[at].size_centi_mb = size_centi_mb;
                    self.jobs[at].finished_at = Some(now);
                    proof {
                        assert(final(self)@.rows =~= old(self)@.rows.update(
                            at as int,
                            old(self)@.row(id).succeeded(output_path@, size_centi_mb, now),
                        ));
                    }
                    true
                } else {
                    false
                }
            },
            None => false,
        }
    }

    /// Records a failed conversion with its message. Applies to a converting
    /// job only; returns whether it applied.
    pub fn mark_failed(&mut self, id: i64, error_msg: &str, now: u64) -> (applied: bool)
        requires
            old(self).wf(),
        ensures
            final(self).wf(),
            applied == old(self)@.can(id, JobStatus::Failed),
            final(self)@ == old(self)@.after_failure(id, error_msg@, now),
    {
        match self.locate(id) {
            Some(at) => {
                if self.jobs[at].status.can_become(JobStatus::Failed) {
                    self.jobs[at].status = JobStatus::Failed;
                    self.jobs[at].error_msg = error_msg.to_owned();
                    self.jobs[at].finished_at = Some(now);
                    proof {
                        assert(final(self)@.rows =~= old(self)@.rows.update(
                            at as int,
                            old(self)@.row(id).failed(error_msg@, now),
                        ));
                    }
                    true
                } else {
                    false
                }
            },
            None => false,
        }
    }

    /// Records that the job's source file now lies at `source_path`.
    /// Returns whether there is such a job.
    pub fn relocate(&mut self, id: i64, source_path: &str) -> (applied: bool)
        requires
            old(self).wf(),
        ensures
            final(self).wf(),
            applied == old(self)@.has(id),
            final(self)@ == old(self)@.after_move(id, source_path@),
    {
        match self.locate(id) {
            Some(at) => {
                self.jobs[at].source_path = source_path.to_owned();
                proof {
                    assert(final(self)@.rows =~= old(self)@.rows.update(
                        at as int,
                        old(self)@.row(id).moved(source_path@),
                    ));
                }
                true
            },
            None => false,
        }
    }

    /// Makes a failed job pending again and returns the work item for it.
    /// Refused, with nothing changed, if there is no such job, if the job is
    /// not failed, or if no output directory is configured; the three are
    /// tested in that order.
    pub fn retry(&mut self, id: i64, output_dir: Option<&str>) -> (r: Result<ConvJob, RetryError>)
        requires
            old(self).wf(),
        ensures
            final(self).wf(),
            match r {
                Err(RetryError::NotFound) => !old(self)@.has(id) && final(self)@ == old(self)@,
                Err(RetryError::NotFailed) => old(self)@.has(id) && old(self)@.row(id).status
                    != JobStatus::Failed && final(self)@ == old(self)@,
                Err(RetryError::NoOutputDir) => old(self)@.has(id) && old(self)@.row(id).status
                    == JobStatus::Failed && !configured(opt_view(output_dir)) && final(self)@
                    == old(self)@,
                Ok(job) => old(self)@.has(id) && old(self)@.row(id).status == JobStatus::Failed
                    && configured(opt_view(output_dir)) && final(self)@ == old(self)@.after_retry(
                    id,
                ) && job@ == (ConvJobView {
                    conv_id: id,
                    source_path: old(self)@.row(id).source_path,
                    output_dir: output_dir->0@,
                }),
            },
    {
        let at = match self.locate(id) {
            Some(at) => at,
            None => {
                return Err(RetryError::NotFound);
            },
        };
        match self.jobs[at].status {
            JobStatus::Failed => {},
            _ => {
                return Err(RetryError::NotFailed);
            },
        }
        let dir = match output_dir {
            Some(d) => {
                if d.is_empty() {
                    return Err(RetryError::NoOutputDir);
                }
                d
            },
            None => {
                return Err(RetryError::NoOutputDir);
            },
        };
        self.jobs[at].status = JobStatus::Pending;
        self.jobs[at].error_msg = String::new();
        self.jobs[at].started_at = None;
        self.jobs[at].finished_at = None;
        proof {
            assert(final(self)@.rows =~= old(self)@.rows.update(
                at as int,
                old(self)@.row(id).reset(),
            ));
        }
        Ok(ConvJob { conv_id: id, source_path: self.jobs[at].source_path.clone(), output_dir: dir.to_owned() })
    }

    /// Startup recovery. With an output directory configured, every job
    /// found pending or converting is made pending and a work item for it is
    /// returned, in row order. Without one, nothing happens.
    pub fn recover(&mut self, output_dir: Option<&str>) -> (jobs: Vec<ConvJob>)
        requires
            old(self).wf(),
        ensures
            final(self).wf(),
            configured(opt_view(output_dir)) ==> final(self)@ == old(self)@.after_recovery()
                && job_views(jobs@) == interrupted_jobs(old(self)@.rows, output_dir->0@),
            !configured(opt_view(output_dir)) ==> final(self)@ == old(self)@ && jobs@.len() == 0,
    {
        let mut out: Vec<ConvJob> = Vec::new();
        let dir = match output_dir {
            Some(d) => {
                if d.is_empty() {
                    return out;
                }
                d
            },
            None => {
                return out;
            },
        };
        let n = self.jobs.len();
        let mut i: usize = 0;
        proof {
            assert(old(self)@.rows.take(0) =~= Seq::empty());
            assert(job_views(out@) =~= Seq::empty());
        }
        while i < n
            invariant
                i <= n,
                n == old(self)@.rows.len(),
                self@.rows.len() == n,
                self@.next_id == old(self)@.next_id,
                old(self).wf(),
                forall|k: int| 0 <= k < i ==> #[trigger] self@.rows[k] == recovered_rows(old(self)@.rows)[k],
                forall|k: int| i <= k < n ==> #[trigger] self@.rows[k] == old(self)@.rows[k],
                job_views(out@) == interrupted_jobs(old(self)@.rows.take(i as int), dir@),
            decreases n - i,
        {
            let ghost before = self@;
            let ghost prev = out@;
            let ghost orig = old(self)@.rows;
            proof {
                assert(before.rows[i as int] == orig[i as int]);
                assert(orig.take(i + 1).drop_last() =~= orig.take(i as int));
                assert(orig.take(i + 1).last() == orig[i as int]);
            }
            if self.jobs[i].status.is_interrupted() {
                self.jobs[i].status = JobStatus::Pending;
                out.push(
                    ConvJob {
                        conv_id: self.jobs[i].id,
                        source_path: self.jobs[i].source_path.clone(),
                        output_dir: dir.to_owned(),
                    },
                );
                proof {
                    assert(self@.rows =~= before.rows.update(i as int, orig[i as int].recovered()));
                    assert(job_views(out@) =~= job_views(prev).push(
                        ConvJobView {
                            conv_id: orig[i as int].id,
                            source_path: orig[i as int].source_path,
                            output_dir: dir@,
                        },
                    ));
                }
            }
            i = i + 1;
        }
        proof {
            assert(old(self)@.rows.take(n as int) =~= old(self)@.rows);
            assert(self@.rows =~= recovered_rows(old(self)@.rows));
        }
        out
    }

    /// How many jobs have the given status.
    pub fn count(&self, status: JobStatus) -> (n: usize)
        ensures
            n == count_status(self@.rows, status),
    {
        let mut n: usize = 0;
        let mut i: usize = 0;
        proof {
            assert(self@.rows.take(0) =~= Seq::empty());
        }
        while i < self.jobs.len()
            invariant
                i <= self.jobs.len(),
                n <= i,
                n == count_status(self@.rows.take(i as int), status),
            decreases self.jobs.len() - i,
        {
            proof {
                assert(self@.rows.take(i + 1).drop_last() =~= self@.rows.take(i as int));
            }
            if self.jobs[i].status == status {
                n = n + 1;
            }
            i = i + 1;
        }
        proof {
            assert(self@.rows.take(i as int) =~= self@.rows);
        }
        n
    }

    /// Takes over rows read from storage. The rows are accepted if their ids
    /// grow strictly and leave room for one more; the next id is then one
    /// above the last row's, or 1 for an empty table.
    pub fn restore(rows: Vec<Conversion>) -> (r: Option<JobStore>)
        ensures
            r is Some <==> ids_increase(row_views(rows@)) && (rows@.len() > 0 ==> rows@.last().id
                < i64::MAX),
            r matches Some(s) ==> s.wf() && s@.rows == row_views(rows@) && s@.next_id == (if rows@.len()
                == 0 {
                1
            } else {
                rows@.last().id + 1
            }),
    {
        let n = rows.len();
        if n == 0 {
            let s = JobStore { jobs: rows, next_id: 1 };
            proof {
                assert(s@.rows =~= row_views(rows@));
            }
            return Some(s);
        }
        let mut i: usize = 1;
        while i < n
            invariant
                1 <= i <= n,
                n == rows.len(),
                forall|a: int, b: int|
                    0 <= a < b < i ==> (#[trigger] row_views(rows@)[a]).id < (#[trigger] row_views(
                        rows@,
                    )[b]).id,
            decreases n - i,
        {
            if rows[i - 1].id >= rows[i].id {
                proof {
                    assert(row_views(rows@)[i - 1].id >= row_views(rows@)[i as int].id);
                }
                return None;
            }
            proof {
                assert forall|a: int, b: int| 0 <= a < b < i + 1 implies (#[trigger] row_views(
                    rows@,
                )[a]).id < (#[trigger] row_views(rows@)[b]).id by {
                    if b == i {
                        if a < i - 1 {
                            assert(row_views(rows@)[a].id < row_views(rows@)[i - 1].id);
                        }
                    }
                }
            }
            i = i + 1;
        }
        let last = rows[n - 1].id;
        if last == i64::MAX {
            return None;
        }
        let s = JobStore { jobs: rows, next_id: last + 1 };
        proof {
            assert(s@.rows =~= row_views(rows@));
            assert forall|k: int| 0 <= k < s@.rows.len() implies (#[trigger] s@.rows[k]).id
                < s@.next_id by {
                if k < n - 1 {
                    assert(row_views(rows@)[k].id < row_views(rows@)[n - 1].id);
                }
            }
        }
        Some(s)
    }
    /// Removes every job that belongs to the download `download_id` and
    /// returns how many there were.
    pub fn remove_for_download(&mut self, download_id: i64) -> (removed: usize)
        requires
            old(self).wf(),
        ensures
            final(self).wf(),
            final(self)@.next_id == old(self)@.next_id,
            final(self)@.rows == without_download(old(self)@.rows, download_id),
            removed == old(self)@.rows.len() - final(self)@.rows.len(),
    {
        let ghost orig = old(self)@.rows;
        let ghost mut k: int = 0;
        let mut removed: usize = 0;
        let mut i: usize = 0;
        proof {
            assert(self@.rows.take(0) =~= without_download(orig.take(0), download_id));
            assert(self@.rows.skip(0) =~= orig.skip(0));
        }
        while i < self.jobs.len()
            invariant
                self.wf(),
                self@.next_id == old(self)@.next_id,
                orig == old(self)@.rows,
                i <= self.jobs.len(),
                0 <= k <= orig.len(),
                k == i + removed,
                orig.len() - k == self@.rows.len() - i,
                self@.rows.take(i as int) == without_download(orig.take(k), download_id),
                self@.rows.skip(i as int) == orig.skip(k),
            decreases self.jobs.len() - i,
        {
            let ghost cur = self@.rows;
            proof {
                assert(cur[i as int] == cur.skip(i as int)[0]);
                assert(orig[k] == orig.skip(k)[0]);
                assert(orig.take(k + 1).drop_last() =~= orig.take(k));
                assert(orig.take(k + 1).last() == orig[k]);
            }
            let belongs = match self.jobs[i].download_id {
                Some(d) => d == download_id,
                None => false,
            };
            if belongs {
                self.jobs.remove(i);
                removed = removed + 1;
                proof {
                    assert(self@.rows =~= cur.remove(i as int));
                    assert(self@.rows.take(i as int) =~= cur.take(i as int));
                    assert(self@.rows.skip(i as int) =~= orig.skip(k + 1)) by {
                        let left = self@.rows.skip(i as int);
                        let right = orig.skip(k + 1);
                        assert forall|j: int| 0 <= j < self@.rows.len() - i implies #[trigger] left[j]
                            == right[j] by {
                            assert(cur.skip(i as int)[j + 1] == orig.skip(k)[j + 1]);
                        }
                    }
                    assert forall|a: int, b: int| 0 <= a < b < self@.rows.len() implies (
                    #[trigger] self@.rows[a]).id < (#[trigger] self@.rows[b]).id by {
                        let a0 = if a < i { a } else { a + 1 };
                        let b0 = if b < i { b } else { b + 1 };
                        assert(cur[a0].id < cur[b0].id);
                    }
                    assert forall|a: int| 0 <= a < self@.rows.len() implies (#[trigger] self@.rows[a]).id
                        < self@.next_id by {
                        let a0 = if a < i { a } else { a + 1 };
                        assert(cur[a0].id < self@.next_id);
                    }
                    k = k + 1;
                }
            } else {
                proof {
                    assert(cur.take(i + 1) =~= cur.take(i as int).push(cur[i as int]));
                    assert(cur.skip(i + 1) =~= orig.skip(k + 1)) by {
                        let left = cur.skip(i + 1);
                        let right = orig.skip(k + 1);
                        assert forall|j: int| 0 <= j < cur.len() - i - 1 implies #[trigger] left[j]
                            == right[j] by {
                            assert(cur.skip(i as int)[j + 1] == orig.skip(k)[j + 1]);
                        }
                    }
                    k = k + 1;
                }
                i = i + 1;
            }
        }
        proof {
            assert(self@.rows.take(i as int) =~= self@.rows);
            assert(orig.take(k) =~= orig);
        }
        removed
    }
}

/// Replacing a row by one with the same id keeps the table well formed and
/// the row where it was.
pub proof fn lemma_with_row(table: JobTable, id: i64, row: ConversionView)
    requires
        table.wf(),
        table.has(id),
        row.id == id,
    ensures
        table.with_row(table.position(id), row).wf(),
        table.with_row(table.position(id), row).has(id),
        table.with_row(table.position(id), row).position(id) == table.position(id),
        table.with_row(table.position(id), row).row(id) == row,
        table.with_row(table.position(id), row).next_id == table.next_id,
{
    let at = table.position(id);
    let after = table.with_row(at, row);
    assert(0 <= at < table.rows.len() && table.rows[at].id == id);
    assert forall|i: int, j: int| 0 <= i < j < after.rows.len() implies (#[trigger] after.rows[i]).id
        < (#[trigger] after.rows[j]).id by {
        assert(after.rows[i].id == table.rows[i].id);
        assert(after.rows[j].id == table.rows[j].id);
    }
    assert forall|i: int| 0 <= i < after.rows.len() implies (#[trigger] after.rows[i]).id
        < after.next_id by {
        assert(after.rows[i].id == table.rows[i].id);
    }
    assert(after.rows[at].id == id);
    lemma_position(after, id, at);
}

/// Recovery makes every job that was cut short pending, leaves every other
/// job as it was, and yields a work item for each job it touched.
pub proof fn lemma_recovery(table: JobTable, dir: Seq<char>, at: int)
    requires
        table.wf(),
        0 <= at < table.rows.len(),
    ensures
        table.after_recovery().wf(),
        table.after_recovery().rows.len() == table.rows.len(),
        table.after_recovery().rows[at].id == table.rows[at].id,
        table.rows[at].status.interrupted() ==> table.after_recovery().rows[at].status
            == JobStatus::Pending && interrupted_jobs(table.rows, dir).contains(
            ConvJobView {
                conv_id: table.rows[at].id,
                source_path: table.rows[at].source_path,
                output_dir: dir,
            },
        ),
        !table.rows[at].status.interrupted() ==> table.after_recovery().rows[at]
            == table.rows[at],
{
    let after = table.after_recovery();
    assert forall|i: int, j: int| 0 <= i < j < after.rows.len() implies (#[trigger] after.rows[i]).id
        < (#[trigger] after.rows[j]).id by {
        assert(after.rows[i].id == table.rows[i].id);
        assert(after.rows[j].id == table.rows[j].id);
    }
    assert forall|i: int| 0 <= i < after.rows.len() implies (#[trigger] after.rows[i]).id
        < after.next_id by {
        assert(after.rows[i].id == table.rows[i].id);
    }
    if table.rows[at].status.interrupted() {
        lemma_interrupted_listed(table.rows, dir, at);
    }
}

proof fn lemma_interrupted_listed(rows: Seq<ConversionView>, dir: Seq<char>, at: int)
    requires
        0 <= at < rows.len(),
        rows[at].status.interrupted(),
    ensures
        interrupted_jobs(rows, dir).contains(
            ConvJobView { conv_id: rows[at].id, source_path: rows[at].source_path, output_dir: dir },
        ),
    decreases rows.len(),
{
    let want = ConvJobView {
        conv_id: rows[at].id,
        source_path: rows[at].source_path,
        output_dir: dir,
    };
    let rest = interrupted_jobs(rows.drop_last(), dir);
    if at == rows.len() - 1 {
        assert(interrupted_jobs(rows, dir) == rest.push(want));
        assert(rest.push(want)[rest.len() as int] == want);
    } else {
        lemma_interrupted_listed(rows.drop_last(), dir, at);
        let w = choose|i: int| 0 <= i < rest.len() && rest[i] == want;
        assert(interrupted_jobs(rows, dir)[w] == want);
    }
}

} // verus!
