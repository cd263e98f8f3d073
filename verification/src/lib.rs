//! Decision core of an audio intake pipeline: files dropped into a watched
//! folder are registered, queued as conversion jobs and converted to AIFF.
//!
//! The crate decides and keeps the books; it touches no file, process or
//! clock. The surrounding program reads the disk, the clock and its
//! database, hands plain values in, and carries out the requests that come
//! back. Every function states exactly what it returns and changes, over
//! the mathematical content of the values it works on, and is proved
//! against that statement.
//!
//! * [`status`]: the life cycle of a job.
//! * [`jobs`], [`downloads`]: the two tables.
//! * [`worker`]: the queue, and the processing of one job.
//! * [`transcode`]: the conversion of one file, and the search for the
//!   transcoder.
//! * [`stabilize`]: the wait for a file to be complete.
//! * [`watcher`]: which files count, and what is done with a new one.
//! * [`control`]: settings, statistics, housekeeping, startup recovery.
//! * [`effects`]: the requests to the surrounding program and its replies.
//! * [`importer`], [`library`]: playlist exports and the song library.
//! * [`paths`], [`text`]: file names and strings.

pub mod control;
pub mod downloads;
pub mod effects;
pub mod importer;
pub mod jobs;
pub mod library;
pub mod paths;
pub mod stabilize;
pub mod status;
pub mod text;
pub mod transcode;
pub mod watcher;
pub mod worker;
