//! What the command layer asks of the pipeline: settings, statistics,
//! single conversions, housekeeping and the recovery at startup.

use crate::downloads::DownloadRegistry;
use crate::downloads::DownloadTable;
use crate::effects::ReplyView;
use crate::jobs::{
    configured, count_status, interrupted_jobs, job_views, lemma_position, lemma_recovery,
    opt_view, without_download, ConvJobView, JobStore, JobTable,
};
use crate::status::JobStatus;
use crate::text::{trim, trimmed_of};
use crate::watcher::{
    auto_convert_enabled, auto_convert_on, FolderWatcher, WatchError, WatchSession,
};
use crate::worker::{
    after_enqueue, counted_up, lemma_run_ends_terminal, lemma_run_first_in_step, run_all,
    run_first, Books, ConversionWorker, JobStepView, WorkerView,
};
use vstd::prelude::*;
use vstd::string::*;

verus! {

/// The settings of the watcher and the state of the services, as shown to
/// the user.
#[derive(Clone, Debug, PartialEq, Eq)]
pub struct WatchConfig {
    /// The watched folder; empty if none is set.
    pub path: String,
    /// The folder converted files go to; empty if none is set.
    pub output_folder: String,
    /// Whether new files are converted without being asked for.
    pub auto_convert: bool,
    /// Whether a watch is on.
    pub active: bool,
    /// Whether the conversion worker is meant to run.
    pub converter_running: bool,
    /// Jobs handed to the queue and not yet finished.
    pub queue_size: usize,
}

/// The mathematical content of a [`WatchConfig`].
pub struct WatchConfigView {
    pub path: Seq<char>,
    pub output_folder: Seq<char>,
    pub auto_convert: bool,
    pub active: bool,
    pub converter_running: bool,
    pub queue_size: usize,
}

impl View for WatchConfig {
    type V = WatchConfigView;

    open spec fn view(&self) -> WatchConfigView {
        WatchConfigView {
            path: self.path@,
            output_folder: self.output_folder@,
            auto_convert: self.auto_convert,
            active: self.active,
            converter_running: self.converter_running,
            queue_size: self.queue_size,
        }
    }
}

/// The number of jobs in each state, and the state of the worker.
#[derive(Clone, Copy, Debug, PartialEq, Eq, Structural)]
pub struct ConversionStats {
    pub pending: usize,
    pub converting: usize,
    pub done: usize,
    pub failed: usize,
    pub skipped: usize,
    pub queue_size: usize,
    pub worker_running: bool,
}

/// A stored setting, or the empty string where it is missing.
pub open spec fn or_empty(setting: Option<Seq<char>>) -> Seq<char> {
    match setting {
        Some(v) => v,
        None => Seq::empty(),
    }
}

fn owned_or_empty(setting: Option<&str>) -> (r: String)
    ensures
        r@ == or_empty(opt_view(setting)),
{
    match setting {
        Some(v) => v.to_owned(),
        None => String::new(),
    }
}

/// Puts the stored settings and the state of the services together.
pub fn get_watch_config<H>(
    watch_folder: Option<&str>,
    output_folder: Option<&str>,
    auto_convert: Option<&str>,
    watcher: &FolderWatcher<H>,
    worker: &ConversionWorker,
) -> (cfg: WatchConfig)
    ensures
        cfg@ == (WatchConfigView {
            path: or_empty(opt_view(watch_folder)),
            output_folder: or_empty(opt_view(output_folder)),
            auto_convert: auto_convert_on(opt_view(auto_convert)),
            active: watcher@.handle is Some,
            converter_running: worker@.running,
            queue_size: worker@.queue_size,
        }),
{
    WatchConfig {
        path: owned_or_empty(watch_folder),
        output_folder: owned_or_empty(output_folder),
        auto_convert: auto_convert_enabled(auto_convert),
        active: watcher.is_running(),
        converter_running: worker.is_running(),
        queue_size: worker.get_queue_size(),
    }
}

/// Counts the jobs by status and adds the state of the worker.
pub fn conversion_stats(store: &JobStore, worker: &ConversionWorker) -> (stats: ConversionStats)
    ensures
        stats == (ConversionStats {
            pending: count_status(store@.rows, JobStatus::Pending) as usize,
            converting: count_status(store@.rows, JobStatus::Converting) as usize,
            done: count_status(store@.rows, JobStatus::Done) as usize,
            failed: count_status(store@.rows, JobStatus::Failed) as usize,
            skipped: count_status(store@.rows, JobStatus::Skipped) as usize,
            queue_size: worker@.queue_size,
            worker_running: worker@.running,
        }),
{
    ConversionStats {
        pending: store.count(JobStatus::Pending),
        converting: store.count(JobStatus::Converting),
        done: store.count(JobStatus::Done),
        failed: store.count(JobStatus::Failed),
        skipped: store.count(JobStatus::Skipped),
        queue_size: worker.get_queue_size(),
        worker_running: worker.is_running(),
    }
}

/// What is to be done to a stored setting.
#[derive(Clone, Debug, PartialEq, Eq)]
pub enum SettingChange {
    /// Nothing was asked for.
    Keep,
    /// The setting is removed.
    Clear,
    /// The setting gets this value.
    Store(String),
}

/// The mathematical content of a [`SettingChange`].
pub enum SettingChangeView {
    Keep,
    Clear,
    Store(Seq<char>),
}

impl View for SettingChange {
    type V = SettingChangeView;

    open spec fn view(&self) -> SettingChangeView {
        match self {
            SettingChange::Keep => SettingChangeView::Keep,
            SettingChange::Clear => SettingChangeView::Clear,
            SettingChange::Store(v) => SettingChangeView::Store(v@),
        }
    }
}

/// What a request does to a folder setting: nothing if none was sent, the
/// removal if the value sent is blank, and otherwise the trimmed value.
pub open spec fn folder_change(requested: Option<Seq<char>>) -> SettingChangeView {
    match requested {
        None => SettingChangeView::Keep,
        Some(v) => if trimmed_of(v).len() == 0 {
            SettingChangeView::Clear
        } else {
            SettingChangeView::Store(trimmed_of(v))
        },
    }
}

/// Decides what a requested value, already trimmed, does to a folder
/// setting: nothing if none was sent, the removal if it is empty, and
/// otherwise the value is stored.
pub fn change_folder_to(trimmed: Option<&str>) -> (r: SettingChange)
    ensures
        r@ == (match trimmed {
            None => SettingChangeView::Keep,
            Some(v) => if v@.len() == 0 {
                SettingChangeView::Clear
            } else {
                SettingChangeView::Store(v@)
            },
        }),
{
    match trimmed {
        None => SettingChange::Keep,
        Some(v) => {
            if v.is_empty() {
                SettingChange::Clear
            } else {
                SettingChange::Store(v.to_owned())
            }
        },
    }
}

/// Decides what a request does to a folder setting.
pub fn plan_folder(requested: Option<&str>) -> (r: SettingChange)
    ensures
        r@ == folder_change(opt_view(requested)),
{
    match requested {
        None => change_folder_to(None),
        Some(v) => change_folder_to(Some(trim(v))),
    }
}

/// The watched folder was to be set to a path that is not a directory.
#[derive(Clone, Debug, PartialEq, Eq)]
pub struct SourceNotFound {
    pub path: String,
}

impl SourceNotFound {
    /// The message shown to the user.
    pub fn message(&self) -> (r: String)
        ensures
            r@ == "Source directory not found: "@ + self.path@,
    {
        String::from_str("Source directory not found: ").concat(self.path.as_str())
    }
}

/// Decides what a request does to the watched folder. A blank value ends
/// any watch and removes the setting. Any other value must name an
/// existing directory: `is_dir` says whether the trimmed value does.
pub fn plan_watch_folder<H>(
    requested: Option<&str>,
    is_dir: bool,
    watcher: &mut FolderWatcher<H>,
) -> (r: Result<SettingChange, SourceNotFound>)
    ensures
        match folder_change(opt_view(requested)) {
            SettingChangeView::Keep => r matches Ok(c) && c@ == SettingChangeView::Keep
                && final(watcher)@ == old(watcher)@,
            SettingChangeView::Clear => r matches Ok(c) && c@ == SettingChangeView::Clear
                && final(watcher)@.handle is None && final(watcher)@.path is None,
            SettingChangeView::Store(v) => final(watcher)@ == old(watcher)@ && if is_dir {
                r matches Ok(c) && c@ == SettingChangeView::Store(v)
            } else {
                r matches Err(e) && e.path@ == v
            },
        },
{
    match plan_folder(requested) {
        SettingChange::Keep => Ok(SettingChange::Keep),
        SettingChange::Clear => {
            watcher.stop();
            Ok(SettingChange::Clear)
        },
        SettingChange::Store(v) => {
            if is_dir {
                Ok(SettingChange::Store(v))
            } else {
                Err(SourceNotFound { path: v })
            }
        },
    }
}

/// The value under which the auto-convert setting is stored.
pub fn auto_convert_value(on: bool) -> (r: &'static str)
    ensures
        r@ == (if on {
            "1"@
        } else {
            "0"@
        }),
        auto_convert_on(Some(r@)) == on,
{
    proof {
        reveal_strlit("1");
        reveal_strlit("0");
        assert("1"@[0] == '1');
        assert("0"@[0] == '0');
    }
    if on {
        "1"
    } else {
        "0"
    }
}

/// Whether the watcher is to run: a watched folder is set, it is not
/// empty, and it is an existing directory.
pub fn should_watch(watch_folder: Option<&str>, is_dir: bool) -> (r: bool)
    ensures
        r == (configured(opt_view(watch_folder)) && is_dir),
{
    match watch_folder {
        Some(p) => !p.is_empty() && is_dir,
        None => false,
    }
}

/// The folder a setting names, if it is set and not empty.
pub fn configured_folder(setting: Option<&str>) -> (r: Option<&str>)
    ensures
        r is Some == configured(opt_view(setting)),
        r matches Some(folder) ==> setting == Some(folder),
{
    match setting {
        Some(folder) => if folder.is_empty() {
            None
        } else {
            Some(folder)
        },
        None => None,
    }
}

/// Why a single conversion could not be asked for.
#[derive(Clone, Copy, Debug, PartialEq, Eq, Structural)]
pub enum ConvertSingleError {
    /// There is no download with that id.
    DownloadNotFound,
    /// No output directory is configured.
    NoOutputDir,
    /// The job table's ids are used up.
    StoreFull,
}

impl ConvertSingleError {
    /// The message shown to the user.
    pub open spec fn text(self) -> Seq<char> {
        match self {
            ConvertSingleError::DownloadNotFound => "Download not found"@,
            ConvertSingleError::NoOutputDir => "No output folder configured"@,
            ConvertSingleError::StoreFull => "No conversion id left"@,
        }
    }

    /// The message shown to the user.
    pub fn message(self) -> (r: &'static str)
        ensures
            r@ == self.text(),
    {
        match self {
            ConvertSingleError::DownloadNotFound => "Download not found",
            ConvertSingleError::NoOutputDir => "No output folder configured",
            ConvertSingleError::StoreFull => "No conversion id left",
        }
    }
}

/// Asks for the conversion of one registered download. Refused if there is
/// no such download or no output directory is configured, tested in that
/// order; otherwise it is an enqueue for the download's path.
pub fn convert_single(
    download_id: i64,
    output_dir: Option<&str>,
    downloads: &DownloadRegistry,
    store: &mut JobStore,
    worker: &mut ConversionWorker,
    now: u64,
) -> (r: Result<i64, ConvertSingleError>)
    requires
        downloads.wf(),
        old(store).wf(),
    ensures
        final(store).wf(),
        !downloads@.has(download_id) ==> r == Err::<i64, _>(ConvertSingleError::DownloadNotFound),
        downloads@.has(download_id) && !configured(opt_view(output_dir)) ==> r == Err::<i64, _>(
            ConvertSingleError::NoOutputDir,
        ),
        !downloads@.has(download_id) || !configured(opt_view(output_dir)) ==> final(store)@ == old(
            store,
        )@ && final(worker)@ == old(worker)@,
        downloads@.has(download_id) && configured(opt_view(output_dir)) ==> {
            let row = downloads@.rows[downloads@.position(download_id)];
            let e = after_enqueue(
                old(store)@,
                old(worker)@,
                download_id,
                row.filepath,
                row.extension,
                now,
            );
            &&& final(store)@ == e.table
            &&& final(worker)@ == e.worker
            &&& match e.id {
                Some(id) => r == Ok::<_, ConvertSingleError>(id),
                None => r == Err::<i64, _>(ConvertSingleError::StoreFull),
            }
        },
{
    let row = match downloads.get(download_id) {
        Some(row) => row,
        None => {
            return Err(ConvertSingleError::DownloadNotFound);
        },
    };
    let dir = match output_dir {
        Some(d) => {
            if d.is_empty() {
                return Err(ConvertSingleError::NoOutputDir);
            }
            d
        },
        None => {
            return Err(ConvertSingleError::NoOutputDir);
        },
    };
    match worker.enqueue(
        store,
        download_id,
        row.filepath.as_str(),
        row.extension.as_str(),
        dir,
        now,
    ) {
        Ok(id) => Ok(id),
        Err(_) => Err(ConvertSingleError::StoreFull),
    }
}

/// Removes a download together with the jobs that belong to it. Returns
/// whether there was such a download.
pub fn delete_download(download_id: i64, downloads: &mut DownloadRegistry, store: &mut JobStore)
    -> (removed: bool)
    requires
        old(downloads).wf(),
        old(store).wf(),
    ensures
        final(downloads).wf(),
        final(store).wf(),
        final(store)@ == (JobTable {
            rows: without_download(old(store)@.rows, download_id),
            ..old(store)@
        }),
        removed == old(downloads)@.has(download_id),
        removed ==> final(downloads)@ == old(downloads)@.without(
            old(downloads)@.position(download_id),
        ),
        !removed ==> final(downloads)@ == old(downloads)@,
{
    let _jobs = store.remove_for_download(download_id);
    downloads.remove(download_id)
}

/// The counter after `n` more jobs were handed to the queue.
pub open spec fn counted_up_by(queue_size: usize, n: nat) -> usize
    decreases n,
{
    if n == 0 {
        queue_size
    } else {
        counted_up(counted_up_by(queue_size, (n - 1) as nat))
    }
}

/// What bringing the watcher in line with the settings comes to. The
/// watch is wanted when a watched folder is set, is not empty, and is an
/// existing directory. If it is not wanted, no watch is on afterwards and
/// `Ok(false)` is returned. If it is wanted, the watch is installed on
/// that folder: on success it is on, on exactly that path, with the
/// handle that `install` returned, and `Ok(true)` is returned; on failure
/// no watch is on and the error of `install` is returned.
pub open spec fn watch_restored<H, F: FnOnce(&str) -> Result<H, WatchError>>(
    watch_folder: Option<&str>,
    is_dir: bool,
    install: F,
    after: WatchSession<H>,
    r: Result<bool, WatchError>,
) -> bool {
    let wanted = configured(opt_view(watch_folder)) && is_dir;
    match r {
        Ok(on) => {
            &&& on == wanted
            &&& !on ==> after == WatchSession::<H>::idle()
            &&& on ==> after.path == Some(watch_folder->0@) && (after.handle matches Some(handle)
                && install.ensures((watch_folder->0,), Ok(handle)))
        },
        Err(e) => {
            &&& wanted
            &&& after == WatchSession::<H>::idle()
            &&& install.ensures((watch_folder->0,), Err(e))
        },
    }
}

/// Brings the watcher in line with the settings: starts a watch on the
/// watched folder if one is set and is an existing directory (`is_dir`
/// says whether it is), and ends any watch otherwise. `install` installs
/// the operating system's watch on the path it is given; it is called at
/// most once, and only if the watch is wanted.
pub fn restart_services<H, F: FnOnce(&str) -> Result<H, WatchError>>(
    watcher: &mut FolderWatcher<H>,
    watch_folder: Option<&str>,
    is_dir: bool,
    install: F,
) -> (r: Result<bool, WatchError>)
    requires
        configured(opt_view(watch_folder)) && is_dir ==> install.requires((watch_folder->0,)),
    ensures
        watch_restored(watch_folder, is_dir, install, final(watcher)@, r),
{
    if should_watch(watch_folder, is_dir) {
        let folder = match watch_folder {
            Some(folder) => folder,
            None => {
                return Ok(false);
            },
        };
        match watcher.start(folder, is_dir, install) {
            Ok(_) => Ok(true),
            Err(e) => Err(e),
        }
    } else {
        watcher.stop();
        Ok(false)
    }
}

/// Where the watch can always be installed, it is on after the watcher was
/// brought in line with the settings if and only if a watched folder is
/// set, is not empty and is an existing directory, and it is then on
/// exactly that folder.
pub proof fn lemma_watch_follows_settings<H, F: FnOnce(&str) -> Result<H, WatchError>>(
    watch_folder: Option<&str>,
    is_dir: bool,
    install: F,
    after: WatchSession<H>,
    r: Result<bool, WatchError>,
)
    requires
        watch_restored(watch_folder, is_dir, install, after, r),
        forall|path: &str, e: WatchError| !install.ensures((path,), Err(e)),
    ensures
        r is Ok,
        after.handle is Some <==> configured(opt_view(watch_folder)) && is_dir,
        after.handle is Some ==> after.path == Some(watch_folder->0@),
        after.handle is None ==> after.path is None,
{
}

/// What startup did: whether the watch is on, or why it could not be
/// installed, and how many interrupted jobs were queued again.
#[derive(Debug)]
pub struct Startup {
    pub watch: Result<bool, WatchError>,
    pub requeued: usize,
}

/// What recovery does to the job table and the worker, and the number of
/// jobs it queues. With an output directory configured, every job that was
/// left pending or converting is made pending and counted. Without one,
/// nothing is done.
pub open spec fn jobs_requeued(
    output_dir: Option<Seq<char>>,
    table: JobTable,
    worker: WorkerView,
    after_table: JobTable,
    after_worker: WorkerView,
    requeued: usize,
) -> bool {
    if configured(output_dir) {
        &&& after_table == table.after_recovery()
        &&& requeued == interrupted_jobs(table.rows, output_dir->0).len()
        &&& after_worker == (WorkerView {
            queue_size: counted_up_by(worker.queue_size, requeued as nat),
            ..worker
        })
    } else {
        &&& after_table == table
        &&& after_worker == worker
        &&& requeued == 0
    }
}

/// Startup. First the watcher is restored: the watch is on afterwards if
/// and only if a watched folder is set, is an existing directory, and the
/// watch could be installed, and it is then on exactly that folder. Then
/// the interrupted jobs are recovered: with an output directory
/// configured, every job that was left pending or converting is made
/// pending and handed to the queue again, in the order of the table;
/// without one they stay as they are until the next startup. A watch that
/// cannot be installed does not stand in the way of the recovery.
pub fn restore_on_startup<H, F: FnOnce(&str) -> Result<H, WatchError>>(
    store: &mut JobStore,
    worker: &mut ConversionWorker,
    watcher: &mut FolderWatcher<H>,
    watch_folder: Option<&str>,
    is_dir: bool,
    install: F,
    output_dir: Option<&str>,
) -> (r: Startup)
    requires
        old(store).wf(),
        configured(opt_view(watch_folder)) && is_dir ==> install.requires((watch_folder->0,)),
    ensures
        final(store).wf(),
        watch_restored(watch_folder, is_dir, install, final(watcher)@, r.watch),
        jobs_requeued(
            opt_view(output_dir),
            old(store)@,
            old(worker)@,
            final(store)@,
            final(worker)@,
            r.requeued,
        ),
{
    let watch = restart_services(watcher, watch_folder, is_dir, install);
    let requeued = requeue_interrupted(store, worker, output_dir);
    Startup { watch, requeued }
}

/// Recovery of the interrupted jobs. With an output directory configured,
/// every job that was left pending or converting is made pending and
/// handed to the queue again, in the order of the table. Without one,
/// nothing is done. Returns the number of jobs that were queued.
pub fn requeue_interrupted(
    store: &mut JobStore,
    worker: &mut ConversionWorker,
    output_dir: Option<&str>,
) -> (requeued: usize)
    requires
        old(store).wf(),
    ensures
        final(store).wf(),
        jobs_requeued(
            opt_view(output_dir),
            old(store)@,
            old(worker)@,
            final(store)@,
            final(worker)@,
            requeued,
        ),
{
    let mut jobs = store.recover(output_dir);
    let n = jobs.len();
    proof {
        assert(job_views(jobs@).len() == jobs@.len());
    }
    let mut k: usize = 0;
    while k < n
        invariant
            k <= n,
            jobs.len() == n - k,
            worker@ == (WorkerView {
                queue_size: counted_up_by(old(worker)@.queue_size, k as nat),
                ..old(worker)@
            }),
        decreases n - k,
    {
        let job = jobs.remove(0);
        worker.reenqueue(job.conv_id, job.source_path, job.output_dir);
        k = k + 1;
    }
    n
}

/// A job that a crash left pending or converting is finished after the
/// next startup: recovery makes it pending and yields a work item for it,
/// and once the worker has processed that item, however its requests were
/// answered, the job is `done` or `failed` and its row says which.
pub proof fn lemma_recovered_job_finishes(
    table: JobTable,
    at: int,
    output_dir: Seq<char>,
    program: Option<Seq<char>>,
    replies: Seq<ReplyView>,
    downloads: DownloadTable,
    worker: WorkerView,
    now: u64,
)
    requires
        table.wf(),
        0 <= at < table.rows.len(),
        table.rows[at].status.interrupted(),
    ensures
        ({
            let id = table.rows[at].id;
            let job = ConvJobView {
                conv_id: id,
                source_path: table.rows[at].source_path,
                output_dir,
            };
            let recovered = table.after_recovery();
            let first = run_first(job, program, recovered, now);
            let end = run_all(
                first.step,
                replies,
                Books { table: first.table, downloads, worker },
                now,
            );
            &&& recovered.row(id).status == JobStatus::Pending
            &&& interrupted_jobs(table.rows, output_dir).contains(job)
            &&& end.step matches JobStepView::Finished(status) ==> status.terminal()
                && end.books.table.has(id) && end.books.table.row(id).status == status
        }),
{
    let id = table.rows[at].id;
    let job = ConvJobView { conv_id: id, source_path: table.rows[at].source_path, output_dir };
    let recovered = table.after_recovery();
    lemma_recovery(table, output_dir, at);
    lemma_position(recovered, id, at);
    lemma_run_first_in_step(job, program, recovered, now);
    let first = run_first(job, program, recovered, now);
    lemma_run_ends_terminal(
        first.step,
        id,
        replies,
        Books { table: first.table, downloads, worker },
        now,
    );
}

} // verus!
