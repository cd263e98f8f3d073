//! The folder watcher: which files count, when a watch is on, and what is
//! done with a file once it has arrived.

use crate::downloads::{centi_mb_of, size_centi_mb, DownloadRegistry, DownloadTable, DownloadView};
use crate::effects::{Event, EventView};
use crate::jobs::{configured, opt_view, JobStore, JobTable, StoreFull};
use crate::paths::{
    base_name, extension_of_name, extension_or_empty, file_name, file_name_of, file_name_or_empty,
    split_name,
};
use crate::text::{lowercase_of, str_eq, to_lowercase};
use crate::worker::{after_enqueue, ConversionWorker, Enqueued, WorkerView};
use vstd::prelude::*;
use vstd::string::*;

verus! {

/// Whether a lower-case extension is one of the audio formats that are
/// taken in.
pub open spec fn audio_extension(ext: Seq<char>) -> bool {
    ext == "mp3"@ || ext == "flac"@ || ext == "wav"@ || ext == "aiff"@ || ext == "aif"@ || ext
        == "ogg"@ || ext == "m4a"@ || ext == "wma"@ || ext == "alac"@
}

/// Whether a lower-case extension is one of the audio formats that are
/// taken in.
pub fn is_audio_extension(ext: &str) -> (r: bool)
    ensures
        r == audio_extension(ext@),
{
    str_eq(ext, "mp3") || str_eq(ext, "flac") || str_eq(ext, "wav") || str_eq(ext, "aiff")
        || str_eq(ext, "aif") || str_eq(ext, "ogg") || str_eq(ext, "m4a") || str_eq(ext, "wma")
        || str_eq(ext, "alac")
}

/// Whether a path names an audio file: its file name has an extension
/// that, in lower case, is one of the audio formats.
pub open spec fn audio_path(path: Seq<char>) -> bool {
    match file_name_of(path) {
        Some(name) => match extension_of_name(name) {
            Some(ext) => audio_extension(lowercase_of(ext)),
            None => false,
        },
        None => false,
    }
}

/// Whether a path names an audio file, going by its extension alone and
/// without regard to case.
pub fn is_audio_file(path: &str) -> (r: bool)
    ensures
        r == audio_path(path@),
{
    match file_name(path) {
        Some(name) => match split_name(name.as_str()).1 {
            Some(ext) => {
                let lower = to_lowercase(ext.as_str());
                is_audio_extension(lower.as_str())
            },
            None => false,
        },
        None => false,
    }
}

/// Whether a file-system event is about a file to take in: something was
/// created, it is a regular file, and its name is that of an audio file.
pub fn wants_event(created: bool, is_file: bool, path: &str) -> (r: bool)
    ensures
        r == (created && is_file && audio_path(path@)),
{
    created && is_file && is_audio_file(path)
}

/// Why a watch could not be started.
#[derive(Clone, Debug, PartialEq, Eq)]
pub enum WatchError {
    /// The path is not an existing directory.
    InvalidPath { path: String },
    /// The operating system's watcher could not be created.
    CreateFailed { detail: String },
    /// The watcher could not be put on the path.
    WatchFailed { detail: String },
}

/// The mathematical content of a [`WatchError`].
pub enum WatchErrorView {
    InvalidPath { path: Seq<char> },
    CreateFailed { detail: Seq<char> },
    WatchFailed { detail: Seq<char> },
}

impl View for WatchError {
    type V = WatchErrorView;

    open spec fn view(&self) -> WatchErrorView {
        match self {
            WatchError::InvalidPath { path } => WatchErrorView::InvalidPath { path: path@ },
            WatchError::CreateFailed { detail } => WatchErrorView::CreateFailed {
                detail: detail@,
            },
            WatchError::WatchFailed { detail } => WatchErrorView::WatchFailed { detail: detail@ },
        }
    }
}

impl WatchErrorView {
    /// The message shown to the user.
    pub open spec fn text(self) -> Seq<char> {
        match self {
            WatchErrorView::InvalidPath { path } => "Not a valid directory: "@ + path,
            WatchErrorView::CreateFailed { detail } => "Failed to create watcher: "@ + detail,
            WatchErrorView::WatchFailed { detail } => "Failed to watch path: "@ + detail,
        }
    }
}

impl WatchError {
    /// The message shown to the user.
    pub fn message(&self) -> (r: String)
        ensures
            r@ == self@.text(),
    {
        match self {
            WatchError::InvalidPath { path } => String::from_str("Not a valid directory: ").concat(
                path.as_str(),
            ),
            WatchError::CreateFailed { detail } => String::from_str(
                "Failed to create watcher: ",
            ).concat(detail.as_str()),
            WatchError::WatchFailed { detail } => String::from_str(
                "Failed to watch path: ",
            ).concat(detail.as_str()),
        }
    }
}

/// The watch on the download folder. `H` is the operating system's watch
/// handle; the watch lasts as long as the handle is kept.
pub struct FolderWatcher<H> {
    handle: Option<H>,
    watch_path: Option<String>,
}

/// The mathematical content of a [`FolderWatcher`]: the handle and the
/// path of the watch that is on, if one is.
pub struct WatchSession<H> {
    pub handle: Option<H>,
    pub path: Option<Seq<char>>,
}

impl<H> WatchSession<H> {
    /// No watch is on.
    pub open spec fn idle() -> WatchSession<H> {
        WatchSession { handle: None, path: None }
    }
}

impl<H> View for FolderWatcher<H> {
    type V = WatchSession<H>;

    closed spec fn view(&self) -> WatchSession<H> {
        WatchSession {
            handle: self.handle,
            path: match self.watch_path {
                Some(p) => Some(p@),
                None => None,
            },
        }
    }
}

impl<H> FolderWatcher<H> {
    /// A watcher with no watch on.
    pub fn new() -> (w: FolderWatcher<H>)
        ensures
            w@ == WatchSession::<H>::idle(),
    {
        FolderWatcher { handle: None, watch_path: None }
    }

    /// Starts a watch on `path`. Any watch that is on is ended first. Then
    /// the path is checked: `is_dir` says whether it is an existing
    /// directory, and if it is not the start is refused. Otherwise
    /// `install` is called once, with the path, to install the operating
    /// system's watch; the handle it returns is kept and the watch is on.
    /// If it fails, its error is returned and no watch is on.
    pub fn start<F: FnOnce(&str) -> Result<H, WatchError>>(
        &mut self,
        path: &str,
        is_dir: bool,
        install: F,
    ) -> (r: Result<(), WatchError>)
        requires
            is_dir ==> install.requires((path,)),
        ensures
            match r {
                Ok(_) => {
                    &&& is_dir
                    &&& final(self)@.path == Some(path@)
                    &&& final(self)@.handle matches Some(handle) && install.ensures(
                        (path,),
                        Ok(handle),
                    )
                },
                Err(e) => {
                    &&& final(self)@ == WatchSession::<H>::idle()
                    &&& !is_dir ==> e@ == (WatchErrorView::InvalidPath { path: path@ })
                    &&& is_dir ==> install.ensures((path,), Err(e))
                },
            },
    {
        self.stop();
        if !is_dir {
            return Err(WatchError::InvalidPath { path: path.to_owned() });
        }
        match install(path) {
            Ok(handle) => {
                self.attach(path, handle);
                Ok(())
            },
            Err(e) => Err(e),
        }
    }

    /// Takes over the installed watch on `path`. Any watch that was on is
    /// ended by it.
    pub fn attach(&mut self, path: &str, handle: H)
        ensures
            final(self)@ == (WatchSession { handle: Some(handle), path: Some(path@) }),
    {
        self.handle = Some(handle);
        self.watch_path = Some(path.to_owned());
    }

    /// Ends the watch, if one is on.
    pub fn stop(&mut self)
        ensures
            final(self)@ == WatchSession::<H>::idle(),
    {
        self.handle = None;
        self.watch_path = None;
    }

    /// Whether a watch is on.
    pub fn is_running(&self) -> (r: bool)
        ensures
            r == self@.handle is Some,
    {
        self.handle.is_some()
    }

    /// The path of the watch that is on.
    pub fn watch_path(&self) -> (r: Option<&String>)
        ensures
            r is Some == self@.path is Some,
            r matches Some(p) ==> self@.path == Some(p@),
    {
        match &self.watch_path {
            Some(p) => Some(p),
            None => None,
        }
    }
}

/// Whether the stored auto-convert setting is on. Only the value `1`
/// turns it on; a missing setting counts as on.
pub open spec fn auto_convert_on(setting: Option<Seq<char>>) -> bool {
    match setting {
        Some(v) => v == "1"@,
        None => true,
    }
}

/// Reads the stored auto-convert setting.
pub fn auto_convert_enabled(setting: Option<&str>) -> (r: bool)
    ensures
        r == auto_convert_on(opt_view(setting)),
{
    match setting {
        Some(v) => str_eq(v, "1"),
        None => true,
    }
}

/// What became of a new file: the id it was registered under, the event
/// to publish, and the conversion job that was found or made for it, if
/// any.
#[derive(Clone, Debug, PartialEq, Eq)]
pub struct Intake {
    pub download_id: i64,
    pub event: Event,
    pub conversion: Option<i64>,
}

/// The mathematical content of an [`Intake`].
pub struct IntakeView {
    pub download_id: i64,
    pub event: EventView,
    pub conversion: Option<i64>,
}

impl View for Intake {
    type V = IntakeView;

    open spec fn view(&self) -> IntakeView {
        IntakeView {
            download_id: self.download_id,
            event: self.event@,
            conversion: self.conversion,
        }
    }
}

/// The tables after a file was taken in, and what became of it.
pub struct IntakeOutcome {
    pub downloads: DownloadTable,
    pub table: JobTable,
    pub worker: WorkerView,
    pub intake: Option<IntakeView>,
}

/// The row under which the file at `path` is registered.
pub open spec fn download_row(id: i64, path: Seq<char>, size_bytes: u64, now: u64) -> DownloadView {
    download_row_with(
        id,
        path,
        file_name_or_empty(path),
        lowercase_of(extension_or_empty(path)),
        size_bytes,
        now,
    )
}

/// What asking for a conversion does when it is left to the settings: it
/// is asked for if auto-convert is on and an output directory is
/// configured, and not otherwise.
pub open spec fn after_auto_convert(
    table: JobTable,
    worker: WorkerView,
    setting: Option<Seq<char>>,
    output_dir: Option<Seq<char>>,
    download_id: i64,
    path: Seq<char>,
    extension: Seq<char>,
    now: u64,
) -> Enqueued {
    if auto_convert_on(setting) && configured(output_dir) {
        after_enqueue(table, worker, download_id, path, extension, now)
    } else {
        Enqueued { table, worker, id: None }
    }
}

/// The row under which a file is registered, given its name and its
/// extension in lower case.
pub open spec fn download_row_with(
    id: i64,
    path: Seq<char>,
    filename: Seq<char>,
    extension: Seq<char>,
    size_bytes: u64,
    now: u64,
) -> DownloadView {
    DownloadView {
        id,
        filename,
        filepath: path,
        extension,
        size_centi_mb: centi_mb_of(size_bytes as nat) as u64,
        detected_at: now,
    }
}

/// What taking in the file at `path` does, given its name and its
/// extension in lower case. A file that is registered already is left
/// alone, and so is one for which no id is left. Any other is registered,
/// its discovery is to be published, and a conversion is asked for if the
/// settings say so.
pub open spec fn after_intake(
    downloads: DownloadTable,
    table: JobTable,
    worker: WorkerView,
    path: Seq<char>,
    filename: Seq<char>,
    extension: Seq<char>,
    size_bytes: u64,
    setting: Option<Seq<char>>,
    output_dir: Option<Seq<char>>,
    now: u64,
) -> IntakeOutcome {
    if downloads.knows(path) || downloads.next_id == i64::MAX {
        IntakeOutcome { downloads, table, worker, intake: None }
    } else {
        let row = download_row_with(downloads.next_id, path, filename, extension, size_bytes, now);
        let queued = after_auto_convert(
            table,
            worker,
            setting,
            output_dir,
            row.id,
            path,
            row.extension,
            now,
        );
        IntakeOutcome {
            downloads: downloads.with_new(row),
            table: queued.table,
            worker: queued.worker,
            intake: Some(
                IntakeView {
                    download_id: row.id,
                    event: EventView::FileDiscovered { id: row.id, filename: row.filename },
                    conversion: queued.id,
                },
            ),
        }
    }
}

/// What the end of the wait for the file at `path` does. A file that did
/// not become ready is dropped: nothing is registered, published or asked
/// for. For a file that did, it is as [`after_intake`], for the file name
/// of the path and its extension in lower case.
pub open spec fn after_new_file(
    downloads: DownloadTable,
    table: JobTable,
    worker: WorkerView,
    path: Seq<char>,
    ready: bool,
    size_bytes: u64,
    setting: Option<Seq<char>>,
    output_dir: Option<Seq<char>>,
    now: u64,
) -> IntakeOutcome {
    if !ready {
        IntakeOutcome { downloads, table, worker, intake: None }
    } else {
        after_intake(
            downloads,
            table,
            worker,
            path,
            file_name_or_empty(path),
            lowercase_of(extension_or_empty(path)),
            size_bytes,
            setting,
            output_dir,
            now,
        )
    }
}

/// Asks for a conversion of a registered file if auto-convert is on and an
/// output directory is configured. Returns the job's id if there is one.
pub fn maybe_auto_convert(
    store: &mut JobStore,
    worker: &mut ConversionWorker,
    setting: Option<&str>,
    output_dir: Option<&str>,
    download_id: i64,
    filepath: &str,
    extension: &str,
    now: u64,
) -> (r: Option<i64>)
    requires
        old(store).wf(),
    ensures
        final(store).wf(),
        (Enqueued { table: final(store)@, worker: final(worker)@, id: r }) == after_auto_convert(
            old(store)@,
            old(worker)@,
            opt_view(setting),
            opt_view(output_dir),
            download_id,
            filepath@,
            extension@,
            now,
        ),
{
    if !auto_convert_enabled(setting) {
        return None;
    }
    match output_dir {
        Some(dir) => {
            if dir.is_empty() {
                None
            } else {
                match worker.enqueue(store, download_id, filepath, extension, dir, now) {
                    Ok(id) => Some(id),
                    Err(_) => None,
                }
            }
        },
        None => None,
    }
}

/// Takes in a file that has arrived completely, given its name and its
/// extension in lower case: registers it unless it is registered already,
/// and asks for its conversion if the settings say so. `size_bytes` is the
/// file's size, or 0 if it could not be read.
pub fn intake_file(
    path: &str,
    filename: String,
    extension: &str,
    size_bytes: u64,
    setting: Option<&str>,
    output_dir: Option<&str>,
    downloads: &mut DownloadRegistry,
    store: &mut JobStore,
    worker: &mut ConversionWorker,
    now: u64,
) -> (r: Option<Intake>)
    requires
        old(downloads).wf(),
        old(store).wf(),
    ensures
        final(downloads).wf(),
        final(store).wf(),
        (IntakeOutcome {
            downloads: final(downloads)@,
            table: final(store)@,
            worker: final(worker)@,
            intake: match r {
                Some(i) => Some(i@),
                None => None,
            },
        }) == after_intake(
            old(downloads)@,
            old(store)@,
            old(worker)@,
            path@,
            filename@,
            extension@,
            size_bytes,
            opt_view(setting),
            opt_view(output_dir),
            now,
        ),
{
    let size = size_centi_mb(size_bytes);
    let id = match downloads.register(filename.as_str(), path, extension, size, now) {
        Ok(Some(id)) => id,
        Ok(None) => {
            return None;
        },
        Err(_) => {
            return None;
        },
    };
    let conversion = maybe_auto_convert(store, worker, setting, output_dir, id, path, extension, now);
    Some(Intake { download_id: id, event: Event::FileDiscovered { id, filename }, conversion })
}

/// Deals with a new file once the wait for it is over. `ready` is how the
/// wait ended (see [`crate::stabilize::wait_for_file_ready`]): a file that
/// did not become ready is dropped and nothing changes. A file that did is
/// registered unless it is registered already, and its conversion is asked
/// for if the settings say so. `size_bytes` is the file's size, or 0 if it
/// could not be read.
pub fn handle_new_file(
    path: &str,
    ready: bool,
    size_bytes: u64,
    setting: Option<&str>,
    output_dir: Option<&str>,
    downloads: &mut DownloadRegistry,
    store: &mut JobStore,
    worker: &mut ConversionWorker,
    now: u64,
) -> (r: Option<Intake>)
    requires
        old(downloads).wf(),
        old(store).wf(),
    ensures
        final(downloads).wf(),
        final(store).wf(),
        (IntakeOutcome {
            downloads: final(downloads)@,
            table: final(store)@,
            worker: final(worker)@,
            intake: match r {
                Some(i) => Some(i@),
                None => None,
            },
        }) == after_new_file(
            old(downloads)@,
            old(store)@,
            old(worker)@,
            path@,
            ready,
            size_bytes,
            opt_view(setting),
            opt_view(output_dir),
            now,
        ),
{
    if !ready {
        return None;
    }
    let filename = base_name(path);
    let ext = crate::paths::extension(path);
    let extension = to_lowercase(ext.as_str());
    intake_file(
        path,
        filename,
        extension.as_str(),
        size_bytes,
        setting,
        output_dir,
        downloads,
        store,
        worker,
        now,
    )
}

/// One entry of a directory listing.
#[derive(Clone, Debug, PartialEq, Eq)]
pub struct ScanEntry {
    /// The entry's full path.
    pub path: String,
    /// Whether it is a regular file.
    pub is_file: bool,
    /// Its size, or 0 if that could not be read.
    pub size_bytes: u64,
}

/// The mathematical content of a [`ScanEntry`].
pub struct ScanEntryView {
    pub path: Seq<char>,
    pub is_file: bool,
    pub size_bytes: u64,
}

impl View for ScanEntry {
    type V = ScanEntryView;

    open spec fn view(&self) -> ScanEntryView {
        ScanEntryView { path: self.path@, is_file: self.is_file, size_bytes: self.size_bytes }
    }
}

/// The contents of a directory listing.
pub open spec fn entry_views(entries: Seq<ScanEntry>) -> Seq<ScanEntryView> {
    Seq::new(entries.len(), |i: int| entries[i]@)
}

/// The contents of a list of events.
pub open spec fn event_views(events: Seq<Event>) -> Seq<EventView> {
    Seq::new(events.len(), |i: int| events[i]@)
}

/// An audio file of a directory listing, with what is derived from its
/// path.
#[derive(Clone, Debug, PartialEq, Eq)]
pub struct Candidate {
    /// The file's full path.
    pub path: String,
    /// Its name without the directory.
    pub filename: String,
    /// Its extension in lower case.
    pub extension: String,
    /// Its size, or 0 if that could not be read.
    pub size_bytes: u64,
}

/// The mathematical content of a [`Candidate`].
pub struct CandidateView {
    pub path: Seq<char>,
    pub filename: Seq<char>,
    pub extension: Seq<char>,
    pub size_bytes: u64,
}

impl View for Candidate {
    type V = CandidateView;

    open spec fn view(&self) -> CandidateView {
        CandidateView {
            path: self.path@,
            filename: self.filename@,
            extension: self.extension@,
            size_bytes: self.size_bytes,
        }
    }
}

/// The contents of a list of candidates.
pub open spec fn candidate_views(candidates: Seq<Candidate>) -> Seq<CandidateView> {
    Seq::new(candidates.len(), |i: int| candidates[i]@)
}

/// The audio files of a listing, in its order: the entries that are
/// regular files and have the name of an audio file.
pub open spec fn candidates_of(entries: Seq<ScanEntryView>) -> Seq<CandidateView>
    decreases entries.len(),
{
    if entries.len() == 0 {
        Seq::empty()
    } else {
        let before = candidates_of(entries.drop_last());
        let e = entries.last();
        if e.is_file && audio_path(e.path) {
            before.push(
                CandidateView {
                    path: e.path,
                    filename: file_name_or_empty(e.path),
                    extension: lowercase_of(extension_or_empty(e.path)),
                    size_bytes: e.size_bytes,
                },
            )
        } else {
            before
        }
    }
}

/// A file that a scan registered.
pub struct Found {
    pub id: i64,
    pub path: Seq<char>,
    pub filename: Seq<char>,
    pub extension: Seq<char>,
}

/// How far a scan has got.
pub struct Sweep {
    /// The registry as the scan leaves it.
    pub downloads: DownloadTable,
    /// The number of audio files seen.
    pub scanned: nat,
    /// The files that were registered, in the order of the listing.
    pub found: Seq<Found>,
    /// Whether the scan stopped because the registry's ids were used up.
    pub full: bool,
}

/// The scan after one more audio file. The file is counted; if it is not
/// registered yet it is registered, unless no id is left, which stops the
/// scan.
pub open spec fn sweep_one(s: Sweep, c: CandidateView, now: u64) -> Sweep {
    if s.full {
        s
    } else if s.downloads.knows(c.path) {
        Sweep { scanned: s.scanned + 1, ..s }
    } else if s.downloads.next_id == i64::MAX {
        Sweep { scanned: s.scanned + 1, full: true, ..s }
    } else {
        let row = download_row_with(
            s.downloads.next_id,
            c.path,
            c.filename,
            c.extension,
            c.size_bytes,
            now,
        );
        Sweep {
            downloads: s.downloads.with_new(row),
            scanned: s.scanned + 1,
            found: s.found.push(
                Found { id: row.id, path: c.path, filename: c.filename, extension: c.extension },
            ),
            full: false,
        }
    }
}

/// The scan of the audio files of a listing, one by one.
pub open spec fn sweep(candidates: Seq<CandidateView>, downloads: DownloadTable, now: u64) -> Sweep
    decreases candidates.len(),
{
    if candidates.len() == 0 {
        Sweep { downloads, scanned: 0, found: Seq::empty(), full: false }
    } else {
        sweep_one(sweep(candidates.drop_last(), downloads, now), candidates.last(), now)
    }
}

/// The events that announce the files a scan registered.
pub open spec fn discoveries(found: Seq<Found>) -> Seq<EventView> {
    Seq::new(
        found.len(),
        |i: int| EventView::FileDiscovered { id: found[i].id, filename: found[i].filename },
    )
}

/// The job table and the worker as a row of enqueue calls leaves them.
pub struct Queued {
    pub table: JobTable,
    pub worker: WorkerView,
}

/// Asking for the conversion of every file in `found`, in order. A call
/// that fails for want of ids changes nothing and the next is made.
pub open spec fn queue_all(found: Seq<Found>, table: JobTable, worker: WorkerView, now: u64)
    -> Queued
    decreases found.len(),
{
    if found.len() == 0 {
        Queued { table, worker }
    } else {
        let before = queue_all(found.drop_last(), table, worker, now);
        let f = found.last();
        let e = after_enqueue(before.table, before.worker, f.id, f.path, f.extension, now);
        Queued { table: e.table, worker: e.worker }
    }
}

/// Once a scan has stopped, the rest of the listing changes nothing.
proof fn lemma_sweep_stays_full(
    candidates: Seq<CandidateView>,
    upto: int,
    downloads: DownloadTable,
    now: u64,
)
    requires
        0 <= upto <= candidates.len(),
        sweep(candidates.take(upto), downloads, now).full,
    ensures
        sweep(candidates, downloads, now) == sweep(candidates.take(upto), downloads, now),
    decreases candidates.len() - upto,
{
    if upto == candidates.len() {
        assert(candidates.take(upto) =~= candidates);
    } else {
        assert(candidates.take(upto + 1).drop_last() =~= candidates.take(upto));
        lemma_sweep_stays_full(candidates, upto + 1, downloads, now);
    }
}

/// What a scan reports.
#[derive(Clone, Debug, PartialEq, Eq)]
pub struct ScanReport {
    /// The number of audio files in the listing.
    pub scanned: usize,
    /// The number of those that were not registered before.
    pub added: usize,
    /// The events to publish, one for each file that was registered.
    pub events: Vec<Event>,
}

/// What a scan of the given audio files does and reports.
///
/// Every file that is not registered yet is registered. If `auto_convert`
/// is set and an output directory is given, the conversion of each of them
/// is asked for. The scan fails only when the registry's ids are used up;
/// the files registered before that stay registered and no conversion is
/// asked for.
pub open spec fn scan_outcome(
    candidates: Seq<CandidateView>,
    auto_convert: bool,
    output_dir: Option<Seq<char>>,
    downloads: DownloadTable,
    table: JobTable,
    worker: WorkerView,
    now: u64,
    after_downloads: DownloadTable,
    after_table: JobTable,
    after_worker: WorkerView,
    report: Result<ScanReport, StoreFull>,
) -> bool {
    let s = sweep(candidates, downloads, now);
    let asked = auto_convert && output_dir is Some && !s.full;
    let q = queue_all(s.found, table, worker, now);
    &&& after_downloads == s.downloads
    &&& report is Err <==> s.full
    &&& report matches Ok(rep) ==> rep.scanned == s.scanned && rep.added == s.found.len()
        && event_views(rep.events@) == discoveries(s.found)
    &&& asked ==> after_table == q.table && after_worker == q.worker
    &&& !asked ==> after_table == table && after_worker == worker
}

/// Picks the audio files out of a directory listing.
pub fn candidates(listing: &Vec<ScanEntry>) -> (r: Vec<Candidate>)
    ensures
        candidate_views(r@) == candidates_of(entry_views(listing@)),
{
    let mut out: Vec<Candidate> = Vec::new();
    let ghost all = entry_views(listing@);
    let mut i: usize = 0;
    proof {
        assert(all.take(0) =~= Seq::empty());
        assert(candidate_views(out@) =~= Seq::empty());
    }
    while i < listing.len()
        invariant
            i <= listing.len(),
            all == entry_views(listing@),
            candidate_views(out@) == candidates_of(all.take(i as int)),
        decreases listing.len() - i,
    {
        let ghost before = candidate_views(out@);
        proof {
            assert(all.take(i + 1).drop_last() =~= all.take(i as int));
            assert(all.take(i + 1).last() == listing@[i as int]@);
        }
        let entry = &listing[i];
        if entry.is_file && is_audio_file(entry.path.as_str()) {
            let path = entry.path.as_str();
            let ext = crate::paths::extension(path);
            out.push(
                Candidate {
                    path: entry.path.clone(),
                    filename: base_name(path),
                    extension: to_lowercase(ext.as_str()),
                    size_bytes: entry.size_bytes,
                },
            );
            proof {
                assert(candidate_views(out@) =~= before.push(out@[before.len() as int]@));
            }
        }
        i = i + 1;
    }
    proof {
        assert(all.take(i as int) =~= all);
    }
    out
}

/// Scans the audio files of a directory listing: registers every one that
/// is not registered yet and, if `auto_convert` is set and an output
/// directory is given, asks for the conversion of each of them.
pub fn scan_candidates(
    candidates: &Vec<Candidate>,
    auto_convert: bool,
    output_dir: Option<&str>,
    downloads: &mut DownloadRegistry,
    store: &mut JobStore,
    worker: &mut ConversionWorker,
    now: u64,
) -> (r: Result<ScanReport, StoreFull>)
    requires
        old(downloads).wf(),
        old(store).wf(),
    ensures
        final(downloads).wf(),
        final(store).wf(),
        scan_outcome(
            candidate_views(candidates@),
            auto_convert,
            opt_view(output_dir),
            old(downloads)@,
            old(store)@,
            old(worker)@,
            now,
            final(downloads)@,
            final(store)@,
            final(worker)@,
            r,
        ),
{
    let n = candidates.len();
    let mut scanned: usize = 0;
    let mut events: Vec<Event> = Vec::new();
    let mut added: Vec<(i64, usize)> = Vec::new();
    let mut i: usize = 0;
    let ghost all = candidate_views(candidates@);
    proof {
        assert(all.take(0) =~= Seq::empty());
        assert(event_views(events@) =~= discoveries(Seq::empty()));
    }
    while i < n
        invariant
            i <= n,
            n == candidates.len(),
            all == candidate_views(candidates@),
            downloads.wf(),
            store.wf(),
            store@ == old(store)@,
            worker@ == old(worker)@,
            scanned == i,
            ({
                let s = sweep(all.take(i as int), old(downloads)@, now);
                &&& !s.full
                &&& downloads@ == s.downloads
                &&& scanned == s.scanned
                &&& added@.len() == s.found.len()
                &&& forall|k: int|
                    0 <= k < added@.len() ==> (#[trigger] added@[k]).0 == s.found[k].id
                        && added@[k].1 < n && s.found[k].path == all[added@[k].1 as int].path
                        && s.found[k].extension == all[added@[k].1 as int].extension
                &&& event_views(events@) == discoveries(s.found)
            }),
        decreases n - i,
    {
        let ghost before = sweep(all.take(i as int), old(downloads)@, now);
        let ghost prev_events = events@;
        let ghost prev_added = added@;
        proof {
            assert(all.take(i + 1).drop_last() =~= all.take(i as int));
            assert(all.take(i + 1).last() == candidates@[i as int]@);
        }
        let c = &candidates[i];
        scanned = scanned + 1;
        let size = size_centi_mb(c.size_bytes);
        match downloads.register(
            c.filename.as_str(),
            c.path.as_str(),
            c.extension.as_str(),
            size,
            now,
        ) {
            Ok(None) => {},
            Ok(Some(id)) => {
                added.push((id, i));
                events.push(Event::FileDiscovered { id, filename: c.filename.clone() });
                proof {
                    let after = sweep(all.take(i + 1), old(downloads)@, now);
                    let v = candidates@[i as int]@;
                    assert(after == sweep_one(before, v, now));
                    let f = Found {
                        id,
                        path: v.path,
                        filename: v.filename,
                        extension: v.extension,
                    };
                    assert(after.found == before.found.push(f));
                    assert(prev_events.len() == before.found.len()) by {
                        assert(event_views(prev_events).len() == prev_events.len());
                        assert(discoveries(before.found).len() == before.found.len());
                    }
                    assert(events@ == prev_events.push(events@[prev_events.len() as int]));
                    assert(event_views(events@) =~= discoveries(after.found)) by {
                        assert forall|j: int| 0 <= j < events@.len() implies event_views(
                            events@,
                        )[j] == discoveries(after.found)[j] by {
                            if j < prev_events.len() {
                                assert(events@[j] == prev_events[j]);
                                assert(event_views(prev_events)[j] == discoveries(before.found)[j]);
                            }
                        }
                    }
                    assert forall|k: int| 0 <= k < added@.len() implies (#[trigger] added@[k]).0
                        == after.found[k].id && added@[k].1 < n && after.found[k].path
                        == all[added@[k].1 as int].path && after.found[k].extension
                        == all[added@[k].1 as int].extension by {
                        if k < prev_added.len() {
                            assert(added@[k] == prev_added[k]);
                        }
                    }
                }
            },
            Err(e) => {
                proof {
                    lemma_sweep_stays_full(all, i + 1, old(downloads)@, now);
                }
                return Err(e);
            },
        }
        i = i + 1;
    }
    proof {
        assert(all.take(n as int) =~= all);
    }
    let ghost s = sweep(all, old(downloads)@, now);
    let count = added.len();
    if auto_convert {
        match output_dir {
            Some(dir) => {
                let mut k: usize = 0;
                proof {
                    assert(s.found.take(0) =~= Seq::empty());
                }
                while k < added.len()
                    invariant
                        k <= added.len(),
                        n == candidates.len(),
                        all == candidate_views(candidates@),
                        added@.len() == s.found.len(),
                        forall|j: int|
                            0 <= j < added@.len() ==> (#[trigger] added@[j]).0 == s.found[j].id
                                && added@[j].1 < n && s.found[j].path == all[added@[j].1 as int].path
                                && s.found[j].extension == all[added@[j].1 as int].extension,
                        store.wf(),
                        ({
                            let q = queue_all(s.found.take(k as int), old(store)@, old(worker)@, now);
                            store@ == q.table && worker@ == q.worker
                        }),
                    decreases added.len() - k,
                {
                    proof {
                        assert(s.found.take(k + 1).drop_last() =~= s.found.take(k as int));
                        assert(s.found.take(k + 1).last() == s.found[k as int]);
                    }
                    let (id, at) = added[k];
                    let c = &candidates[at];
                    let _queued = worker.enqueue(
                        store,
                        id,
                        c.path.as_str(),
                        c.extension.as_str(),
                        dir,
                        now,
                    );
                    k = k + 1;
                }
                proof {
                    assert(s.found.take(k as int) =~= s.found);
                }
            },
            None => {},
        }
    }
    Ok(ScanReport { scanned, added: count, events })
}

/// Scans a directory listing once: registers every audio file that is not
/// registered yet and, if `auto_convert` is set and an output directory is
/// given, asks for the conversion of each of them.
///
/// `listing` is `None` where the path is not a directory; the scan then
/// reports nothing. The scan fails only when the registry's ids are used
/// up; the files registered before that stay registered and no conversion
/// is asked for.
pub fn scan_existing(
    listing: Option<&Vec<ScanEntry>>,
    auto_convert: bool,
    output_dir: Option<&str>,
    downloads: &mut DownloadRegistry,
    store: &mut JobStore,
    worker: &mut ConversionWorker,
    now: u64,
) -> (r: Result<ScanReport, StoreFull>)
    requires
        old(downloads).wf(),
        old(store).wf(),
    ensures
        final(downloads).wf(),
        final(store).wf(),
        listing is None ==> {
            &&& r matches Ok(rep) && rep.scanned == 0 && rep.added == 0 && rep.events@.len() == 0
            &&& final(downloads)@ == old(downloads)@
            &&& final(store)@ == old(store)@
            &&& final(worker)@ == old(worker)@
        },
        listing matches Some(entries) ==> scan_outcome(
            candidates_of(entry_views(entries@)),
            auto_convert,
            opt_view(output_dir),
            old(downloads)@,
            old(store)@,
            old(worker)@,
            now,
            final(downloads)@,
            final(store)@,
            final(worker)@,
            r,
        ),
{
    match listing {
        Some(entries) => {
            let found = candidates(entries);
            scan_candidates(&found, auto_convert, output_dir, downloads, store, worker, now)
        },
        None => Ok(ScanReport { scanned: 0, added: 0, events: Vec::new() }),
    }
}

/// Registering a file under a new path keeps every file registered once.
proof fn lemma_new_row_keeps_paths_unique(table: DownloadTable, row: DownloadView)
    requires
        table.paths_unique(),
        !table.knows(row.filepath),
    ensures
        table.with_new(row).paths_unique(),
{
    let after = table.with_new(row).rows;
    assert forall|i: int, j: int| 0 <= i < j < after.len() implies (#[trigger] after[i]).filepath != (
    #[trigger] after[j]).filepath by {
        if j == table.rows.len() {
            assert(table.rows[i].filepath != row.filepath);
        } else {
            assert(table.rows[i].filepath != table.rows[j].filepath);
        }
    }
}

/// Where every file is registered once, the end of the wait for a new
/// file keeps it so, however the wait ended.
pub proof fn lemma_new_file_keeps_paths_unique(
    downloads: DownloadTable,
    table: JobTable,
    worker: WorkerView,
    path: Seq<char>,
    ready: bool,
    size_bytes: u64,
    setting: Option<Seq<char>>,
    output_dir: Option<Seq<char>>,
    now: u64,
)
    requires
        downloads.paths_unique(),
    ensures
        after_new_file(
            downloads,
            table,
            worker,
            path,
            ready,
            size_bytes,
            setting,
            output_dir,
            now,
        ).downloads.paths_unique(),
{
    if ready && !downloads.knows(path) && downloads.next_id != i64::MAX {
        lemma_new_row_keeps_paths_unique(
            downloads,
            download_row(downloads.next_id, path, size_bytes, now),
        );
    }
}

/// A file that did not become ready leaves no trace: no download is
/// registered, no event is to be published, no conversion is asked for.
pub proof fn lemma_unready_file_is_dropped(
    downloads: DownloadTable,
    table: JobTable,
    worker: WorkerView,
    path: Seq<char>,
    size_bytes: u64,
    setting: Option<Seq<char>>,
    output_dir: Option<Seq<char>>,
    now: u64,
)
    ensures
        after_new_file(downloads, table, worker, path, false, size_bytes, setting, output_dir, now)
            == (IntakeOutcome { downloads, table, worker, intake: None }),
{
}

/// Where every file is registered once, a scan keeps it so, whatever the
/// listing holds and even if it names a file twice.
pub proof fn lemma_scan_keeps_paths_unique(
    candidates: Seq<CandidateView>,
    downloads: DownloadTable,
    now: u64,
)
    requires
        downloads.paths_unique(),
    ensures
        sweep(candidates, downloads, now).downloads.paths_unique(),
    decreases candidates.len(),
{
    if candidates.len() > 0 {
        lemma_scan_keeps_paths_unique(candidates.drop_last(), downloads, now);
        let before = sweep(candidates.drop_last(), downloads, now);
        let c = candidates.last();
        if !before.full && !before.downloads.knows(c.path) && before.downloads.next_id
            != i64::MAX {
            lemma_new_row_keeps_paths_unique(
                before.downloads,
                download_row_with(
                    before.downloads.next_id,
                    c.path,
                    c.filename,
                    c.extension,
                    c.size_bytes,
                    now,
                ),
            );
        }
    }
}

} // verus!
