//! What the pipeline asks of its surroundings, and what it is told back.
//!
//! The pipeline itself touches no file, process or event channel. It hands
//! out a [`Request`], the surrounding program carries it out, and the
//! outcome comes back as a [`Reply`].

use crate::status::JobStatus;
use crate::text::string_views;
use vstd::prelude::*;

verus! {

/// A notification for whoever listens (a user interface, a log).
#[derive(Clone, Debug, PartialEq, Eq)]
pub enum Event {
    /// A job changed its status.
    JobStatusChanged { id: i64, status: JobStatus },
    /// A new file was registered as a download.
    FileDiscovered { id: i64, filename: String },
}

/// The mathematical content of an [`Event`].
pub enum EventView {
    JobStatusChanged { id: i64, status: JobStatus },
    FileDiscovered { id: i64, filename: Seq<char> },
}

impl View for Event {
    type V = EventView;

    open spec fn view(&self) -> EventView {
        match self {
            Event::JobStatusChanged { id, status } => EventView::JobStatusChanged {
                id: *id,
                status: *status,
            },
            Event::FileDiscovered { id, filename } => EventView::FileDiscovered {
                id: *id,
                filename: filename@,
            },
        }
    }
}

impl Event {
    /// The name under which the event is published.
    pub open spec fn channel(self) -> Seq<char> {
        match self {
            Event::JobStatusChanged { .. } => "job-status-changed"@,
            Event::FileDiscovered { .. } => "file-discovered"@,
        }
    }

    /// The name under which the event is published.
    pub fn name(&self) -> (r: &'static str)
        ensures
            r@ == self.channel(),
    {
        match self {
            Event::JobStatusChanged { .. } => "job-status-changed",
            Event::FileDiscovered { .. } => "file-discovered",
        }
    }
}

/// One thing for the surrounding program to do.
#[derive(Clone, Debug, PartialEq, Eq)]
pub enum Request {
    /// Is there a regular file at `path`? Answer with [`Reply::Flag`].
    IsFile { path: String },
    /// Is there anything at `path`? Answer with [`Reply::Flag`].
    Exists { path: String },
    /// Create the directory and its parents; fine if it is there already.
    CreateDirAll { path: String },
    /// Copy the bytes of `from` to `to`.
    CopyFile { from: String, to: String },
    /// Run `program` with `args`, wait for it, and answer with
    /// [`Reply::Exited`], or [`Reply::Failed`] if it could not be started.
    Run { program: String, args: Vec<String> },
    /// Run `program -version` with its output discarded, to see whether it
    /// is there. Answer as for `Run`.
    Probe { program: String },
    /// Delete the file if it is there; the outcome does not matter.
    RemoveFile { path: String },
    /// How many bytes does the file hold? Answer with [`Reply::Size`].
    FileSize { path: String },
    /// Move the file.
    Rename { from: String, to: String },
    /// Publish the event; the outcome does not matter.
    Emit { event: Event },
}

/// The mathematical content of a [`Request`].
pub enum RequestView {
    IsFile { path: Seq<char> },
    Exists { path: Seq<char> },
    CreateDirAll { path: Seq<char> },
    CopyFile { from: Seq<char>, to: Seq<char> },
    Run { program: Seq<char>, args: Seq<Seq<char>> },
    Probe { program: Seq<char> },
    RemoveFile { path: Seq<char> },
    FileSize { path: Seq<char> },
    Rename { from: Seq<char>, to: Seq<char> },
    Emit { event: EventView },
}

impl View for Request {
    type V = RequestView;

    open spec fn view(&self) -> RequestView {
        match self {
            Request::IsFile { path } => RequestView::IsFile { path: path@ },
            Request::Exists { path } => RequestView::Exists { path: path@ },
            Request::CreateDirAll { path } => RequestView::CreateDirAll { path: path@ },
            Request::CopyFile { from, to } => RequestView::CopyFile { from: from@, to: to@ },
            Request::Run { program, args } => RequestView::Run {
                program: program@,
                args: string_views(args@),
            },
            Request::Probe { program } => RequestView::Probe { program: program@ },
            Request::RemoveFile { path } => RequestView::RemoveFile { path: path@ },
            Request::FileSize { path } => RequestView::FileSize { path: path@ },
            Request::Rename { from, to } => RequestView::Rename { from: from@, to: to@ },
            Request::Emit { event } => RequestView::Emit { event: event@ },
        }
    }
}

/// How a request turned out.
#[derive(Clone, Debug, PartialEq, Eq)]
pub enum Reply {
    /// The answer to a yes-or-no question.
    Flag { yes: bool },
    /// The operation was carried out.
    Completed,
    /// The operation could not be carried out; `detail` is the system's
    /// message.
    Failed { detail: String },
    /// The program ran and exited; `stderr` is all it wrote to its
    /// diagnostic stream.
    Exited { success: bool, stderr: Vec<u8> },
    /// The file's size.
    Size { bytes: u64 },
}

/// The mathematical content of a [`Reply`].
pub enum ReplyView {
    Flag { yes: bool },
    Completed,
    Failed { detail: Seq<char> },
    Exited { success: bool, stderr: Seq<u8> },
    Size { bytes: u64 },
}

impl View for Reply {
    type V = ReplyView;

    open spec fn view(&self) -> ReplyView {
        match self {
            Reply::Flag { yes } => ReplyView::Flag { yes: *yes },
            Reply::Completed => ReplyView::Completed,
            Reply::Failed { detail } => ReplyView::Failed { detail: detail@ },
            Reply::Exited { success, stderr } => ReplyView::Exited {
                success: *success,
                stderr: stderr@,
            },
            Reply::Size { bytes } => ReplyView::Size { bytes: *bytes },
        }
    }
}

impl ReplyView {
    /// Whether the reply says yes: the flag is set, the operation was
    /// carried out, the program exited successfully, or a size was read.
    pub open spec fn positive(self) -> bool {
        match self {
            ReplyView::Flag { yes } => yes,
            ReplyView::Completed => true,
            ReplyView::Failed { .. } => false,
            ReplyView::Exited { success, .. } => success,
            ReplyView::Size { .. } => true,
        }
    }

    /// The system's message, where the reply carries one.
    pub open spec fn detail(self) -> Seq<char> {
        match self {
            ReplyView::Failed { detail } => detail,
            _ => Seq::empty(),
        }
    }
}

impl Reply {
    /// Whether the reply says yes.
    pub fn is_positive(&self) -> (r: bool)
        ensures
            r == self@.positive(),
    {
        match self {
            Reply::Flag { yes } => *yes,
            Reply::Completed => true,
            Reply::Failed { .. } => false,
            Reply::Exited { success, .. } => *success,
            Reply::Size { .. } => true,
        }
    }

    /// The system's message, or the empty string if the reply has none.
    pub fn into_detail(self) -> (r: String)
        ensures
            r@ == self@.detail(),
    {
        match self {
            Reply::Failed { detail } => detail,
            _ => String::new(),
        }
    }
}

} // verus!
