use eyebags_core::downloads::DownloadRegistry;
use eyebags_core::effects::Event;
use eyebags_core::jobs::JobStore;
use eyebags_core::status::JobStatus;
use eyebags_core::watcher::{
    auto_convert_enabled, handle_new_file, is_audio_extension, is_audio_file, maybe_auto_convert,
    scan_existing, wants_event, FolderWatcher, ScanEntry, WatchError,
};
use eyebags_core::worker::ConversionWorker;

#[test]
fn the_audio_extensions() {
    for ext in ["mp3", "flac", "wav", "aiff", "aif", "ogg", "m4a", "wma", "alac"] {
        assert!(is_audio_extension(ext), "{}", ext);
    }
    for ext in ["", "txt", "mp4", "MP3", "wave", "aifff", "mp", "jpg"] {
        assert!(!is_audio_extension(ext), "{}", ext);
    }
}

#[test]
fn audio_files_are_known_by_extension_whatever_the_case() {
    assert!(is_audio_file("/downloads/track.wav"));
    assert!(is_audio_file("/downloads/track.WAV"));
    assert!(is_audio_file("/downloads/Track.Mp3"));
    assert!(is_audio_file("/downloads/a.b.FLAC"));
    assert!(is_audio_file("relative.m4a"));
    assert!(!is_audio_file("/downloads/track.txt"));
    assert!(!is_audio_file("/downloads/track"));
    assert!(!is_audio_file("/downloads/.wav"));
    assert!(!is_audio_file("/downloads/wav"));
    assert!(!is_audio_file("/downloads/track.wav.part"));
    assert!(!is_audio_file("/downloads/track."));
    assert!(!is_audio_file(""));
    assert!(!is_audio_file("/"));
}

#[test]
fn only_created_regular_audio_files_are_wanted() {
    assert!(wants_event(true, true, "/downloads/track.wav"));
    assert!(!wants_event(false, true, "/downloads/track.wav"));
    assert!(!wants_event(true, false, "/downloads/track.wav"));
    assert!(!wants_event(true, true, "/downloads/notes.txt"));
}

#[test]
fn the_watcher_starts_idle() {
    let w: FolderWatcher<u8> = FolderWatcher::new();
    assert!(!w.is_running());
    assert_eq!(w.watch_path(), None);
}

#[test]
fn start_and_attach_turn_the_watch_on() {
    let mut w: FolderWatcher<&str> = FolderWatcher::new();
    assert!(w.start("/downloads", true, |_| Ok("handle")).is_ok());
    assert!(w.is_running());
    assert_eq!(w.watch_path().map(|p| p.as_str()), Some("/downloads"));
    w.stop();
    assert!(!w.is_running());
    assert_eq!(w.watch_path(), None);
    w.stop();
    assert!(!w.is_running());
}

#[test]
fn start_on_a_path_that_is_no_directory_is_refused() {
    let mut w: FolderWatcher<u8> = FolderWatcher::new();
    let mut asked = false;
    let e = w
        .start("/nowhere", false, |_| {
            asked = true;
            Ok(0)
        })
        .unwrap_err();
    assert!(!asked);
    assert_eq!(e, WatchError::InvalidPath { path: "/nowhere".to_string() });
    assert_eq!(e.message(), "Not a valid directory: /nowhere");
    assert!(!w.is_running());
}

#[test]
fn start_ends_the_watch_that_was_on() {
    struct Guard(std::rc::Rc<std::cell::Cell<bool>>);
    impl Drop for Guard {
        fn drop(&mut self) {
            self.0.set(true);
        }
    }
    let dropped = std::rc::Rc::new(std::cell::Cell::new(false));
    let mut w: FolderWatcher<Guard> = FolderWatcher::new();
    w.attach("/old", Guard(dropped.clone()));
    assert!(w.is_running());
    assert!(w.start("/nowhere", false, |_| Err(WatchError::CreateFailed { detail: String::new() })).is_err());
    assert!(dropped.get());
    assert!(!w.is_running());
    assert_eq!(w.watch_path(), None);
}

#[test]
fn watcher_backend_errors_have_messages() {
    assert_eq!(
        WatchError::CreateFailed { detail: "too many watches".to_string() }.message(),
        "Failed to create watcher: too many watches"
    );
    assert_eq!(
        WatchError::WatchFailed { detail: "denied".to_string() }.message(),
        "Failed to watch path: denied"
    );
}

#[test]
fn the_auto_convert_setting() {
    assert!(auto_convert_enabled(None));
    assert!(auto_convert_enabled(Some("1")));
    assert!(!auto_convert_enabled(Some("0")));
    assert!(!auto_convert_enabled(Some("")));
    assert!(!auto_convert_enabled(Some("true")));
    assert!(!auto_convert_enabled(Some("11")));
}

#[test]
fn auto_convert_needs_the_setting_and_an_output_directory() {
    let cases = [
        (None, Some("/library"), true),
        (Some("1"), Some("/library"), true),
        (Some("0"), Some("/library"), false),
        (Some("1"), None, false),
        (Some("1"), Some(""), false),
        (None, None, false),
    ];
    for (setting, dir, expected) in cases {
        let (mut w, mut rx) = ConversionWorker::start();
        let mut s = JobStore::new();
        let r = maybe_auto_convert(&mut s, &mut w, setting, dir, 5, "/downloads/a.wav", "wav", 0);
        assert_eq!(r.is_some(), expected);
        assert_eq!(s.len(), if expected { 1 } else { 0 });
        assert_eq!(w.get_queue_size(), if expected { 1 } else { 0 });
        assert_eq!(rx.try_recv().is_ok(), expected);
    }
}

#[test]
fn a_new_file_is_registered_and_queued() {
    let (mut w, mut rx) = ConversionWorker::start();
    let mut s = JobStore::new();
    let mut d = DownloadRegistry::new();
    let intake = handle_new_file(
        "/downloads/Track One.WAV",
        true,
        5 * 1024 * 1024,
        Some("1"),
        Some("/library"),
        &mut d,
        &mut s,
        &mut w,
        99,
    )
    .unwrap();
    assert_eq!(intake.download_id, 1);
    assert_eq!(intake.event, Event::FileDiscovered { id: 1, filename: "Track One.WAV".to_string() });
    assert_eq!(intake.event.name(), "file-discovered");
    assert_eq!(intake.conversion, Some(1));
    let row = d.get(1).unwrap();
    assert_eq!(row.filename, "Track One.WAV");
    assert_eq!(row.filepath, "/downloads/Track One.WAV");
    assert_eq!(row.extension, "wav");
    assert_eq!(row.size_centi_mb, 500);
    assert_eq!(row.detected_at, 99);
    let job = s.get(1).unwrap();
    assert_eq!(job.status, JobStatus::Pending);
    assert_eq!(job.download_id, Some(1));
    assert_eq!(job.source_ext, "wav");
    assert_eq!(rx.try_recv().unwrap().output_dir, "/library");
}

#[test]
fn a_known_file_is_left_alone() {
    let (mut w, mut rx) = ConversionWorker::start();
    let mut s = JobStore::new();
    let mut d = DownloadRegistry::new();
    assert!(handle_new_file("/downloads/a.wav", true, 1, None, Some("/library"), &mut d, &mut s, &mut w, 1).is_some());
    assert!(rx.try_recv().is_ok());
    assert!(handle_new_file("/downloads/a.wav", true, 1, None, Some("/library"), &mut d, &mut s, &mut w, 2).is_none());
    assert_eq!(d.len(), 1);
    assert_eq!(s.len(), 1);
    assert_eq!(w.get_queue_size(), 1);
    assert!(rx.try_recv().is_err());
}

#[test]
fn a_new_file_without_auto_convert_is_only_registered() {
    let (mut w, mut rx) = ConversionWorker::start();
    let mut s = JobStore::new();
    let mut d = DownloadRegistry::new();
    let intake = handle_new_file("/downloads/a.mp3", true, 0, Some("0"), Some("/library"), &mut d, &mut s, &mut w, 1).unwrap();
    assert_eq!(intake.conversion, None);
    assert_eq!(d.len(), 1);
    assert_eq!(d.get(1).unwrap().size_centi_mb, 0);
    assert_eq!(s.len(), 0);
    assert!(rx.try_recv().is_err());
}

fn entry(path: &str, is_file: bool, size: u64) -> ScanEntry {
    ScanEntry { path: path.to_string(), is_file, size_bytes: size }
}

#[test]
fn a_scan_of_something_that_is_no_directory_reports_nothing() {
    let (mut w, _rx) = ConversionWorker::start();
    let mut s = JobStore::new();
    let mut d = DownloadRegistry::new();
    let r = scan_existing(None, true, Some("/library"), &mut d, &mut s, &mut w, 0).unwrap();
    assert_eq!((r.scanned, r.added), (0, 0));
    assert!(r.events.is_empty());
}

#[test]
fn a_scan_registers_new_audio_files_and_queues_them() {
    let (mut w, mut rx) = ConversionWorker::start();
    let mut s = JobStore::new();
    let mut d = DownloadRegistry::new();
    d.register("old.flac", "/downloads/old.flac", "flac", 1, 0).unwrap();
    let listing = vec![
        entry("/downloads/a.wav", true, 1024 * 1024),
        entry("/downloads/notes.txt", true, 10),
        entry("/downloads/old.flac", true, 10),
        entry("/downloads/sub.mp3", false, 0),
        entry("/downloads/B.MP3", true, 2 * 1024 * 1024),
    ];
    let r = scan_existing(Some(&listing), true, Some("/library"), &mut d, &mut s, &mut w, 7).unwrap();
    assert_eq!((r.scanned, r.added), (3, 2));
    assert_eq!(
        r.events,
        vec![
            Event::FileDiscovered { id: 2, filename: "a.wav".to_string() },
            Event::FileDiscovered { id: 3, filename: "B.MP3".to_string() },
        ]
    );
    assert_eq!(d.len(), 3);
    assert_eq!(d.get(3).unwrap().extension, "mp3");
    assert_eq!(d.get(3).unwrap().size_centi_mb, 200);
    assert_eq!(s.len(), 2);
    assert_eq!(s.get(1).unwrap().source_path, "/downloads/a.wav");
    assert_eq!(s.get(1).unwrap().download_id, Some(2));
    assert_eq!(s.get(2).unwrap().source_path, "/downloads/B.MP3");
    assert_eq!(s.get(2).unwrap().source_ext, "mp3");
    assert_eq!(w.get_queue_size(), 2);
    assert_eq!(rx.try_recv().unwrap().source_path, "/downloads/a.wav");
    assert_eq!(rx.try_recv().unwrap().source_path, "/downloads/B.MP3");
}

#[test]
fn a_scan_without_auto_convert_or_output_directory_queues_nothing() {
    for (auto, dir) in [(false, Some("/library")), (true, None)] {
        let (mut w, mut rx) = ConversionWorker::start();
        let mut s = JobStore::new();
        let mut d = DownloadRegistry::new();
        let listing = vec![entry("/downloads/a.wav", true, 1)];
        let r = scan_existing(Some(&listing), auto, dir, &mut d, &mut s, &mut w, 7).unwrap();
        assert_eq!((r.scanned, r.added), (1, 1));
        assert_eq!(d.len(), 1);
        assert_eq!(s.len(), 0);
        assert!(rx.try_recv().is_err());
    }
}

#[test]
fn a_second_scan_adds_nothing() {
    let (mut w, _rx) = ConversionWorker::start();
    let mut s = JobStore::new();
    let mut d = DownloadRegistry::new();
    let listing = vec![entry("/downloads/a.wav", true, 1), entry("/downloads/b.ogg", true, 1)];
    let first = scan_existing(Some(&listing), true, Some("/library"), &mut d, &mut s, &mut w, 7).unwrap();
    assert_eq!((first.scanned, first.added), (2, 2));
    let second = scan_existing(Some(&listing), true, Some("/library"), &mut d, &mut s, &mut w, 8).unwrap();
    assert_eq!((second.scanned, second.added), (2, 0));
    assert!(second.events.is_empty());
    assert_eq!(d.len(), 2);
    assert_eq!(s.len(), 2);
    assert_eq!(w.get_queue_size(), 2);
}

#[test]
fn a_file_listed_twice_is_registered_once() {
    let (mut w, _rx) = ConversionWorker::start();
    let mut s = JobStore::new();
    let mut d = DownloadRegistry::new();
    let listing = vec![entry("/downloads/a.wav", true, 1), entry("/downloads/a.wav", true, 1)];
    let r = scan_existing(Some(&listing), true, Some("/library"), &mut d, &mut s, &mut w, 7).unwrap();
    assert_eq!((r.scanned, r.added), (2, 1));
    assert_eq!(d.len(), 1);
    assert_eq!(s.len(), 1);
}

#[test]
fn candidates_are_the_regular_audio_files() {
    let listing = vec![
        entry("/downloads/a.wav", true, 11),
        entry("/downloads/notes.txt", true, 10),
        entry("/downloads/dir.mp3", false, 0),
        entry("/downloads/B.Flac", true, 22),
    ];
    let found = eyebags_core::watcher::candidates(&listing);
    assert_eq!(
        found,
        vec![
            eyebags_core::watcher::Candidate {
                path: "/downloads/a.wav".to_string(),
                filename: "a.wav".to_string(),
                extension: "wav".to_string(),
                size_bytes: 11,
            },
            eyebags_core::watcher::Candidate {
                path: "/downloads/B.Flac".to_string(),
                filename: "B.Flac".to_string(),
                extension: "flac".to_string(),
                size_bytes: 22,
            },
        ]
    );
    assert!(eyebags_core::watcher::candidates(&Vec::new()).is_empty());
}

#[test]
fn scanning_candidates_registers_under_the_given_names() {
    let (mut w, mut rx) = ConversionWorker::start();
    let mut s = JobStore::new();
    let mut d = DownloadRegistry::new();
    let found = vec![eyebags_core::watcher::Candidate {
        path: "/x/y.bin".to_string(),
        filename: "shown.name".to_string(),
        extension: "ogg".to_string(),
        size_bytes: 1024 * 1024,
    }];
    let r = eyebags_core::watcher::scan_candidates(&found, true, Some(""), &mut d, &mut s, &mut w, 4).unwrap();
    assert_eq!((r.scanned, r.added), (1, 1));
    assert_eq!(r.events, vec![Event::FileDiscovered { id: 1, filename: "shown.name".to_string() }]);
    assert_eq!(d.get(1).unwrap().filename, "shown.name");
    assert_eq!(d.get(1).unwrap().extension, "ogg");
    assert_eq!(d.get(1).unwrap().size_centi_mb, 100);
    assert_eq!(s.get(1).unwrap().source_ext, "ogg");
    assert_eq!(rx.try_recv().unwrap().output_dir, "");
}

#[test]
fn a_scan_stops_when_the_registry_is_full() {
    let (mut w, mut rx) = ConversionWorker::start();
    let mut s = JobStore::new();
    let mut d = DownloadRegistry::restore(vec![eyebags_core::downloads::Download {
        id: i64::MAX - 2,
        filename: "old".to_string(),
        filepath: "/old".to_string(),
        extension: String::new(),
        size_centi_mb: 0,
        detected_at: 0,
    }])
    .unwrap();
    let listing = vec![
        entry("/downloads/a.wav", true, 1),
        entry("/downloads/b.wav", true, 1),
        entry("/downloads/c.wav", true, 1),
    ];
    assert!(scan_existing(Some(&listing), true, Some("/library"), &mut d, &mut s, &mut w, 7).is_err());
    assert_eq!(d.len(), 2);
    assert!(d.contains_path("/downloads/a.wav"));
    assert!(!d.contains_path("/downloads/b.wav"));
    assert_eq!(s.len(), 0);
    assert_eq!(w.get_queue_size(), 0);
    assert!(rx.try_recv().is_err());
}

#[test]
fn intake_with_given_name_and_extension() {
    let (mut w, _rx) = ConversionWorker::start();
    let mut s = JobStore::new();
    let mut d = DownloadRegistry::new();
    let intake = eyebags_core::watcher::intake_file(
        "/downloads/a.wav",
        "label".to_string(),
        "xyz",
        0,
        Some("1"),
        Some("/library"),
        &mut d,
        &mut s,
        &mut w,
        1,
    )
    .unwrap();
    assert_eq!(intake.event, Event::FileDiscovered { id: 1, filename: "label".to_string() });
    assert_eq!(d.get(1).unwrap().extension, "xyz");
    assert_eq!(s.get(1).unwrap().source_ext, "xyz");
}

#[test]
fn start_installs_the_watch_on_the_path_it_was_given() {
    let mut w: FolderWatcher<String> = FolderWatcher::new();
    assert!(w.start("/downloads", true, |path| Ok(format!("watch on {}", path))).is_ok());
    assert!(w.is_running());
    assert_eq!(w.watch_path().map(|p| p.as_str()), Some("/downloads"));
}

#[test]
fn a_watch_that_cannot_be_installed_leaves_the_watcher_idle() {
    let mut w: FolderWatcher<u8> = FolderWatcher::new();
    w.attach("/old", 1);
    let e = w
        .start("/downloads", true, |_| Err(WatchError::WatchFailed { detail: "denied".to_string() }))
        .unwrap_err();
    assert_eq!(e, WatchError::WatchFailed { detail: "denied".to_string() });
    assert!(!w.is_running());
    assert_eq!(w.watch_path(), None);
}

#[test]
fn a_file_that_did_not_become_ready_is_dropped() {
    let (mut w, mut rx) = ConversionWorker::start();
    let mut s = JobStore::new();
    let mut d = DownloadRegistry::new();
    let r = handle_new_file("/downloads/a.wav", false, 0, Some("1"), Some("/library"), &mut d, &mut s, &mut w, 1);
    assert!(r.is_none());
    assert_eq!(d.len(), 0);
    assert_eq!(s.len(), 0);
    assert_eq!(w.get_queue_size(), 0);
    assert!(rx.try_recv().is_err());
    let r = handle_new_file("/downloads/a.wav", false, 4096, None, Some("/library"), &mut d, &mut s, &mut w, 2);
    assert!(r.is_none());
    assert_eq!(d.len(), 0);
    assert!(handle_new_file("/downloads/a.wav", true, 4096, None, Some("/library"), &mut d, &mut s, &mut w, 3).is_some());
    assert_eq!(d.len(), 1);
}
