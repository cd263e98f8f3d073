use eyebags_core::control::{
    auto_convert_value, change_folder_to, configured_folder, conversion_stats, convert_single, delete_download, get_watch_config,
    plan_folder, plan_watch_folder, requeue_interrupted, restart_services, restore_on_startup,
    should_watch, ConversionStats,
    ConvertSingleError, SettingChange, WatchConfig,
};
use eyebags_core::downloads::DownloadRegistry;
use eyebags_core::jobs::{Conversion, JobStore};
use eyebags_core::status::JobStatus;
use eyebags_core::watcher::{FolderWatcher, WatchError};
use eyebags_core::worker::ConversionWorker;

fn row(id: i64, path: &str, status: JobStatus) -> Conversion {
    Conversion {
        id,
        download_id: Some(1),
        source_path: path.to_string(),
        output_path: String::new(),
        source_ext: "wav".to_string(),
        status,
        error_msg: String::new(),
        size_centi_mb: 0,
        started_at: None,
        finished_at: None,
        created_at: 0,
    }
}

#[test]
fn the_settings_as_shown() {
    let (mut worker, _rx) = ConversionWorker::start();
    worker.reenqueue(1, "/a".to_string(), "/o".to_string());
    let mut watcher: FolderWatcher<u8> = FolderWatcher::new();
    watcher.attach("/downloads", 0);
    assert_eq!(
        get_watch_config(Some("/downloads"), Some("/library"), Some("0"), &watcher, &worker),
        WatchConfig {
            path: "/downloads".to_string(),
            output_folder: "/library".to_string(),
            auto_convert: false,
            active: true,
            converter_running: true,
            queue_size: 1,
        }
    );
    watcher.stop();
    worker.shut_down();
    assert_eq!(
        get_watch_config(None, None, None, &watcher, &worker),
        WatchConfig {
            path: String::new(),
            output_folder: String::new(),
            auto_convert: true,
            active: false,
            converter_running: false,
            queue_size: 1,
        }
    );
}

#[test]
fn statistics_count_by_status() {
    let (mut worker, _rx) = ConversionWorker::start();
    worker.reenqueue(1, "/a".to_string(), "/o".to_string());
    worker.reenqueue(2, "/b".to_string(), "/o".to_string());
    let store = JobStore::restore(vec![
        row(1, "/a", JobStatus::Pending),
        row(2, "/b", JobStatus::Pending),
        row(3, "/c", JobStatus::Converting),
        row(4, "/d", JobStatus::Done),
        row(5, "/e", JobStatus::Done),
        row(6, "/f", JobStatus::Done),
        row(7, "/g", JobStatus::Failed),
        row(8, "/h", JobStatus::Skipped),
    ])
    .unwrap();
    assert_eq!(
        conversion_stats(&store, &worker),
        ConversionStats {
            pending: 2,
            converting: 1,
            done: 3,
            failed: 1,
            skipped: 1,
            queue_size: 2,
            worker_running: true,
        }
    );
    assert_eq!(
        conversion_stats(&JobStore::new(), &worker),
        ConversionStats {
            pending: 0,
            converting: 0,
            done: 0,
            failed: 0,
            skipped: 0,
            queue_size: 2,
            worker_running: true,
        }
    );
}

#[test]
fn folder_settings_are_trimmed_cleared_or_kept() {
    assert_eq!(plan_folder(None), SettingChange::Keep);
    assert_eq!(plan_folder(Some("")), SettingChange::Clear);
    assert_eq!(plan_folder(Some("  \t")), SettingChange::Clear);
    assert_eq!(plan_folder(Some(" /library ")), SettingChange::Store("/library".to_string()));
}

#[test]
fn the_watched_folder_must_exist() {
    let mut w: FolderWatcher<u8> = FolderWatcher::new();
    w.attach("/old", 1);
    assert_eq!(plan_watch_folder(None, false, &mut w).ok(), Some(SettingChange::Keep));
    assert!(w.is_running());
    assert_eq!(
        plan_watch_folder(Some(" /downloads "), true, &mut w).ok(),
        Some(SettingChange::Store("/downloads".to_string()))
    );
    assert!(w.is_running());
    let e = plan_watch_folder(Some("/nowhere"), false, &mut w).unwrap_err();
    assert_eq!(e.path, "/nowhere");
    assert_eq!(e.message(), "Source directory not found: /nowhere");
    assert!(w.is_running());
}

#[test]
fn a_blank_watched_folder_stops_the_watcher() {
    let mut w: FolderWatcher<u8> = FolderWatcher::new();
    w.attach("/old", 1);
    assert_eq!(plan_watch_folder(Some("  "), true, &mut w).ok(), Some(SettingChange::Clear));
    assert!(!w.is_running());
    assert_eq!(w.watch_path(), None);
}

#[test]
fn the_auto_convert_setting_is_stored_as_one_or_zero() {
    assert_eq!(auto_convert_value(true), "1");
    assert_eq!(auto_convert_value(false), "0");
}

#[test]
fn the_watcher_runs_only_on_an_existing_configured_folder() {
    assert!(should_watch(Some("/downloads"), true));
    assert!(!should_watch(Some("/downloads"), false));
    assert!(!should_watch(Some(""), true));
    assert!(!should_watch(None, true));
}

#[test]
fn a_single_conversion_is_an_enqueue_for_the_download() {
    let (mut worker, mut rx) = ConversionWorker::start();
    let mut store = JobStore::new();
    let mut downloads = DownloadRegistry::new();
    downloads.register("a.flac", "/downloads/a.flac", "flac", 10, 0).unwrap();
    assert_eq!(convert_single(1, Some("/library"), &downloads, &mut store, &mut worker, 3), Ok(1));
    let job = store.get(1).unwrap();
    assert_eq!(job.source_path, "/downloads/a.flac");
    assert_eq!(job.source_ext, "flac");
    assert_eq!(job.download_id, Some(1));
    assert_eq!(job.status, JobStatus::Pending);
    assert_eq!(rx.try_recv().unwrap().output_dir, "/library");
    assert_eq!(convert_single(1, Some("/library"), &downloads, &mut store, &mut worker, 4), Ok(1));
    assert_eq!(store.len(), 1);
    assert_eq!(worker.get_queue_size(), 1);
}

#[test]
fn a_single_conversion_can_be_refused() {
    let (mut worker, mut rx) = ConversionWorker::start();
    let mut downloads = DownloadRegistry::new();
    downloads.register("a.flac", "/downloads/a.flac", "flac", 10, 0).unwrap();
    let mut store = JobStore::new();
    assert_eq!(
        convert_single(9, None, &downloads, &mut store, &mut worker, 0),
        Err(ConvertSingleError::DownloadNotFound)
    );
    assert_eq!(
        convert_single(1, None, &downloads, &mut store, &mut worker, 0),
        Err(ConvertSingleError::NoOutputDir)
    );
    assert_eq!(
        convert_single(1, Some(""), &downloads, &mut store, &mut worker, 0),
        Err(ConvertSingleError::NoOutputDir)
    );
    let mut full = JobStore::restore(vec![row(i64::MAX - 1, "/x", JobStatus::Failed)]).unwrap();
    assert_eq!(
        convert_single(1, Some("/library"), &downloads, &mut full, &mut worker, 0),
        Err(ConvertSingleError::StoreFull)
    );
    assert_eq!(store.len(), 0);
    assert_eq!(worker.get_queue_size(), 0);
    assert!(rx.try_recv().is_err());
    assert_eq!(ConvertSingleError::DownloadNotFound.message(), "Download not found");
    assert_eq!(ConvertSingleError::NoOutputDir.message(), "No output folder configured");
    assert_eq!(ConvertSingleError::StoreFull.message(), "No conversion id left");
}

#[test]
fn deleting_a_download_takes_its_jobs_along() {
    let mut downloads = DownloadRegistry::new();
    downloads.register("a.wav", "/a.wav", "wav", 0, 0).unwrap();
    downloads.register("b.wav", "/b.wav", "wav", 0, 0).unwrap();
    let mut other = row(2, "/b.wav", JobStatus::Done);
    other.download_id = Some(2);
    let mut store = JobStore::restore(vec![row(1, "/a.wav", JobStatus::Done), other.clone()]).unwrap();
    assert!(delete_download(1, &mut downloads, &mut store));
    assert_eq!(downloads.len(), 1);
    assert_eq!(downloads.at(0).id, 2);
    assert_eq!(store.len(), 1);
    assert_eq!(store.at(0), &other);
    assert!(!delete_download(1, &mut downloads, &mut store));
    assert_eq!(store.len(), 1);
}

#[test]
fn startup_recovery_requeues_interrupted_jobs() {
    let (mut worker, mut rx) = ConversionWorker::start();
    let mut store = JobStore::restore(vec![
        row(1, "/a.wav", JobStatus::Done),
        row(2, "/b.wav", JobStatus::Pending),
        row(3, "/c.wav", JobStatus::Converting),
        row(4, "/d.wav", JobStatus::Failed),
    ])
    .unwrap();
    assert_eq!(requeue_interrupted(&mut store, &mut worker, Some("/library")), 2);
    assert_eq!(store.get(1).unwrap().status, JobStatus::Done);
    assert_eq!(store.get(2).unwrap().status, JobStatus::Pending);
    assert_eq!(store.get(3).unwrap().status, JobStatus::Pending);
    assert_eq!(store.get(4).unwrap().status, JobStatus::Failed);
    assert_eq!(worker.get_queue_size(), 2);
    let first = rx.try_recv().unwrap();
    let second = rx.try_recv().unwrap();
    assert_eq!((first.conv_id, first.source_path.as_str(), first.output_dir.as_str()), (2, "/b.wav", "/library"));
    assert_eq!((second.conv_id, second.source_path.as_str(), second.output_dir.as_str()), (3, "/c.wav", "/library"));
    assert!(rx.try_recv().is_err());
}

#[test]
fn startup_recovery_waits_for_an_output_directory() {
    for dir in [None, Some("")] {
        let (mut worker, mut rx) = ConversionWorker::start();
        let mut store = JobStore::restore(vec![
            row(2, "/b.wav", JobStatus::Pending),
            row(3, "/c.wav", JobStatus::Converting),
        ])
        .unwrap();
        assert_eq!(requeue_interrupted(&mut store, &mut worker, dir), 0);
        assert_eq!(store.get(2).unwrap().status, JobStatus::Pending);
        assert_eq!(store.get(3).unwrap().status, JobStatus::Converting);
        assert_eq!(worker.get_queue_size(), 0);
        assert!(rx.try_recv().is_err());
    }
}

#[test]
fn a_folder_setting_counts_when_it_is_not_empty() {
    assert_eq!(configured_folder(Some("/library")), Some("/library"));
    assert_eq!(configured_folder(Some(" ")), Some(" "));
    assert_eq!(configured_folder(Some("")), None);
    assert_eq!(configured_folder(None), None);
}

#[test]
fn a_trimmed_folder_value_is_kept_cleared_or_stored() {
    assert_eq!(change_folder_to(None), SettingChange::Keep);
    assert_eq!(change_folder_to(Some("")), SettingChange::Clear);
    assert_eq!(change_folder_to(Some(" ")), SettingChange::Store(" ".to_string()));
    assert_eq!(change_folder_to(Some("/library")), SettingChange::Store("/library".to_string()));
}

#[test]
fn the_watcher_follows_the_settings() {
    let cases = [
        (Some("/downloads"), true, true),
        (Some("/downloads"), false, false),
        (Some(""), true, false),
        (None, true, false),
        (None, false, false),
    ];
    for (folder, is_dir, expected) in cases {
        let mut w: FolderWatcher<String> = FolderWatcher::new();
        w.attach("/before", "old".to_string());
        let mut installed_on = None;
        let r = restart_services(&mut w, folder, is_dir, |path| {
            installed_on = Some(path.to_string());
            Ok("new".to_string())
        });
        assert_eq!(r.ok(), Some(expected));
        assert_eq!(w.is_running(), expected);
        if expected {
            assert_eq!(w.watch_path().map(|p| p.as_str()), folder);
            assert_eq!(installed_on.as_deref(), folder);
        } else {
            assert_eq!(w.watch_path(), None);
            assert_eq!(installed_on, None);
        }
    }
}

#[test]
fn a_failed_install_is_reported_and_leaves_no_watch() {
    let mut w: FolderWatcher<u8> = FolderWatcher::new();
    w.attach("/before", 1);
    let r = restart_services(&mut w, Some("/downloads"), true, |_| {
        Err(WatchError::CreateFailed { detail: "too many watches".to_string() })
    });
    assert_eq!(r.err(), Some(WatchError::CreateFailed { detail: "too many watches".to_string() }));
    assert!(!w.is_running());
}

#[test]
fn startup_restores_the_watch_and_the_jobs() {
    let (mut worker, mut rx) = ConversionWorker::start();
    let mut store = JobStore::restore(vec![
        row(1, "/a.wav", JobStatus::Converting),
        row(2, "/b.wav", JobStatus::Done),
    ])
    .unwrap();
    let mut w: FolderWatcher<u8> = FolderWatcher::new();
    let s = restore_on_startup(&mut store, &mut worker, &mut w, Some("/downloads"), true, |_| Ok(3), Some("/library"));
    assert_eq!(s.watch.ok(), Some(true));
    assert_eq!(s.requeued, 1);
    assert!(w.is_running());
    assert_eq!(w.watch_path().map(|p| p.as_str()), Some("/downloads"));
    assert_eq!(store.get(1).unwrap().status, JobStatus::Pending);
    assert_eq!(rx.try_recv().unwrap().conv_id, 1);
}

#[test]
fn startup_without_a_watch_still_recovers_the_jobs() {
    for (folder, is_dir) in [(None, false), (Some("/gone"), false), (Some(""), true)] {
        let (mut worker, mut rx) = ConversionWorker::start();
        let mut store = JobStore::restore(vec![row(1, "/a.wav", JobStatus::Pending)]).unwrap();
        let mut w: FolderWatcher<u8> = FolderWatcher::new();
        let s = restore_on_startup(&mut store, &mut worker, &mut w, folder, is_dir, |_| Ok(3), Some("/library"));
        assert_eq!(s.watch.ok(), Some(false));
        assert_eq!(s.requeued, 1);
        assert!(!w.is_running());
        assert!(rx.try_recv().is_ok());
    }
    let (mut worker, _rx) = ConversionWorker::start();
    let mut store = JobStore::restore(vec![row(1, "/a.wav", JobStatus::Pending)]).unwrap();
    let mut w: FolderWatcher<u8> = FolderWatcher::new();
    let s = restore_on_startup(
        &mut store,
        &mut worker,
        &mut w,
        Some("/downloads"),
        true,
        |_| Err(WatchError::WatchFailed { detail: "denied".to_string() }),
        None,
    );
    assert!(s.watch.is_err());
    assert_eq!(s.requeued, 0);
    assert!(!w.is_running());
}
