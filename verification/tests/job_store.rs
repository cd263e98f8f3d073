use eyebags_core::jobs::{Conversion, JobStore, RetryError, StoreFull};
use eyebags_core::status::JobStatus;

fn row(id: i64, path: &str, status: JobStatus) -> Conversion {
    Conversion {
        id,
        download_id: Some(id * 10),
        source_path: path.to_string(),
        output_path: String::new(),
        source_ext: "wav".to_string(),
        status,
        error_msg: String::new(),
        size_centi_mb: 0,
        started_at: None,
        finished_at: None,
        created_at: 5,
    }
}

#[test]
fn new_store_is_empty() {
    let s = JobStore::new();
    assert_eq!(s.len(), 0);
    assert!(s.get(1).is_none());
    assert_eq!(s.find_active("/downloads/a.wav"), None);
    assert_eq!(s.count(JobStatus::Pending), 0);
}

#[test]
fn insert_creates_a_pending_row() {
    let mut s = JobStore::new();
    assert_eq!(s.insert_pending(7, "/downloads/a.wav", "wav", 100), Ok(1));
    assert_eq!(s.insert_pending(8, "/downloads/b.mp3", "mp3", 101), Ok(2));
    assert_eq!(s.len(), 2);
    assert_eq!(
        s.get(1),
        Some(&Conversion {
            id: 1,
            download_id: Some(7),
            source_path: "/downloads/a.wav".to_string(),
            output_path: String::new(),
            source_ext: "wav".to_string(),
            status: JobStatus::Pending,
            error_msg: String::new(),
            size_centi_mb: 0,
            started_at: None,
            finished_at: None,
            created_at: 100,
        })
    );
    assert_eq!(s.at(1).id, 2);
    assert_eq!(s.at(1).source_ext, "mp3");
}

#[test]
fn insert_fails_when_ids_are_used_up() {
    let mut s = JobStore::restore(vec![row(i64::MAX - 1, "/a.wav", JobStatus::Done)]).unwrap();
    assert_eq!(s.insert_pending(1, "/b.wav", "wav", 0), Err(StoreFull));
    assert_eq!(s.len(), 1);
}

#[test]
fn find_active_sees_pending_converting_done() {
    for status in [JobStatus::Pending, JobStatus::Converting, JobStatus::Done] {
        let s = JobStore::restore(vec![row(3, "/a.wav", status)]).unwrap();
        assert_eq!(s.find_active("/a.wav"), Some(3));
        assert_eq!(s.find_active("/b.wav"), None);
    }
    for status in [JobStatus::Failed, JobStatus::Skipped] {
        let s = JobStore::restore(vec![row(3, "/a.wav", status)]).unwrap();
        assert_eq!(s.find_active("/a.wav"), None);
    }
}

#[test]
fn find_active_returns_the_oldest() {
    let s = JobStore::restore(vec![
        row(1, "/a.wav", JobStatus::Failed),
        row(2, "/a.wav", JobStatus::Done),
        row(3, "/a.wav", JobStatus::Pending),
    ])
    .unwrap();
    assert_eq!(s.find_active("/a.wav"), Some(2));
}

#[test]
fn worker_transitions_are_recorded() {
    let mut s = JobStore::new();
    let id = s.insert_pending(1, "/a.wav", "wav", 10).unwrap();
    assert!(s.mark_converting(id, 20));
    let r = s.get(id).unwrap();
    assert_eq!(r.status, JobStatus::Converting);
    assert_eq!(r.started_at, Some(20));
    assert_eq!(r.finished_at, None);
    assert!(s.mark_done(id, "/library/a.aiff", 512, 30));
    let r = s.get(id).unwrap();
    assert_eq!(r.status, JobStatus::Done);
    assert_eq!(r.output_path, "/library/a.aiff");
    assert_eq!(r.size_centi_mb, 512);
    assert_eq!(r.started_at, Some(20));
    assert_eq!(r.finished_at, Some(30));
    assert_eq!(r.error_msg, "");
}

#[test]
fn failure_is_recorded_with_its_message() {
    let mut s = JobStore::new();
    let id = s.insert_pending(1, "/a.wav", "wav", 10).unwrap();
    assert!(s.mark_converting(id, 20));
    assert!(s.mark_failed(id, "boom", 25));
    let r = s.get(id).unwrap();
    assert_eq!(r.status, JobStatus::Failed);
    assert_eq!(r.error_msg, "boom");
    assert_eq!(r.finished_at, Some(25));
    assert_eq!(r.output_path, "");
}

#[test]
fn transitions_out_of_turn_are_refused() {
    let mut s = JobStore::new();
    let id = s.insert_pending(1, "/a.wav", "wav", 10).unwrap();
    let before = s.get(id).unwrap().clone();
    assert!(!s.mark_done(id, "/library/a.aiff", 1, 2));
    assert!(!s.mark_failed(id, "x", 2));
    assert_eq!(s.get(id), Some(&before));
    assert!(s.mark_converting(id, 3));
    assert!(!s.mark_converting(id, 4));
    assert_eq!(s.get(id).unwrap().started_at, Some(3));
    assert!(s.mark_done(id, "/library/a.aiff", 1, 5));
    assert!(!s.mark_failed(id, "late", 6));
    assert!(!s.mark_converting(id, 7));
    assert_eq!(s.get(id).unwrap().status, JobStatus::Done);
}

#[test]
fn transitions_on_missing_jobs_change_nothing() {
    let mut s = JobStore::new();
    s.insert_pending(1, "/a.wav", "wav", 10).unwrap();
    assert!(!s.mark_converting(99, 1));
    assert!(!s.mark_done(99, "/x", 1, 1));
    assert!(!s.mark_failed(99, "x", 1));
    assert!(!s.relocate(99, "/y"));
    assert_eq!(s.len(), 1);
    assert_eq!(s.get(1).unwrap().status, JobStatus::Pending);
}

#[test]
fn relocation_changes_the_source_path_only() {
    let mut s = JobStore::restore(vec![row(4, "/downloads/a.wav", JobStatus::Done)]).unwrap();
    assert!(s.relocate(4, "/downloads/_converted/a.wav"));
    let mut want = row(4, "/downloads/_converted/a.wav", JobStatus::Done);
    want.download_id = Some(40);
    assert_eq!(s.get(4), Some(&want));
    assert_eq!(s.find_active("/downloads/a.wav"), None);
    assert_eq!(s.find_active("/downloads/_converted/a.wav"), Some(4));
}

#[test]
fn retry_resets_a_failed_job() {
    let mut failed = row(2, "/a.wav", JobStatus::Failed);
    failed.error_msg = "boom".to_string();
    failed.started_at = Some(1);
    failed.finished_at = Some(2);
    let mut s = JobStore::restore(vec![failed]).unwrap();
    let job = s.retry(2, Some("/library")).unwrap();
    assert_eq!(job.conv_id, 2);
    assert_eq!(job.source_path, "/a.wav");
    assert_eq!(job.output_dir, "/library");
    assert_eq!(s.get(2), Some(&row(2, "/a.wav", JobStatus::Pending)));
}

#[test]
fn retry_of_a_job_that_did_not_fail_is_rejected() {
    for status in [JobStatus::Pending, JobStatus::Converting, JobStatus::Done, JobStatus::Skipped] {
        let mut s = JobStore::restore(vec![row(2, "/a.wav", status)]).unwrap();
        assert_eq!(s.retry(2, Some("/library")).err(), Some(RetryError::NotFailed));
        assert_eq!(s.get(2), Some(&row(2, "/a.wav", status)));
    }
}

#[test]
fn retry_errors_in_order() {
    let mut s = JobStore::restore(vec![
        row(1, "/a.wav", JobStatus::Failed),
        row(2, "/b.wav", JobStatus::Done),
    ])
    .unwrap();
    assert_eq!(s.retry(9, None).err(), Some(RetryError::NotFound));
    assert_eq!(s.retry(2, None).err(), Some(RetryError::NotFailed));
    assert_eq!(s.retry(1, None).err(), Some(RetryError::NoOutputDir));
    assert_eq!(s.retry(1, Some("")).err(), Some(RetryError::NoOutputDir));
    assert_eq!(s.get(1).unwrap().status, JobStatus::Failed);
    assert_eq!(RetryError::NotFound.message(), "Conversion not found");
    assert_eq!(RetryError::NotFailed.message(), "Can only retry failed conversions");
    assert_eq!(RetryError::NoOutputDir.message(), "No output folder configured");
}

#[test]
fn recovery_resets_interrupted_jobs() {
    let mut converting = row(2, "/b.wav", JobStatus::Converting);
    converting.started_at = Some(77);
    let mut s = JobStore::restore(vec![
        row(1, "/a.wav", JobStatus::Pending),
        converting,
        row(3, "/c.wav", JobStatus::Done),
        row(4, "/d.wav", JobStatus::Failed),
        row(5, "/e.wav", JobStatus::Skipped),
    ])
    .unwrap();
    let jobs = s.recover(Some("/library"));
    assert_eq!(jobs.len(), 2);
    assert_eq!((jobs[0].conv_id, jobs[0].source_path.as_str(), jobs[0].output_dir.as_str()), (1, "/a.wav", "/library"));
    assert_eq!((jobs[1].conv_id, jobs[1].source_path.as_str(), jobs[1].output_dir.as_str()), (2, "/b.wav", "/library"));
    assert_eq!(s.get(1).unwrap().status, JobStatus::Pending);
    assert_eq!(s.get(2).unwrap().status, JobStatus::Pending);
    assert_eq!(s.get(2).unwrap().started_at, Some(77));
    assert_eq!(s.get(3).unwrap().status, JobStatus::Done);
    assert_eq!(s.get(4).unwrap().status, JobStatus::Failed);
    assert_eq!(s.get(5).unwrap().status, JobStatus::Skipped);
}

#[test]
fn recovery_without_output_directory_does_nothing() {
    for dir in [None, Some("")] {
        let mut s = JobStore::restore(vec![
            row(1, "/a.wav", JobStatus::Pending),
            row(2, "/b.wav", JobStatus::Converting),
        ])
        .unwrap();
        assert!(s.recover(dir).is_empty());
        assert_eq!(s.get(1).unwrap().status, JobStatus::Pending);
        assert_eq!(s.get(2).unwrap().status, JobStatus::Converting);
    }
}

#[test]
fn counts_by_status() {
    let s = JobStore::restore(vec![
        row(1, "/a.wav", JobStatus::Pending),
        row(2, "/b.wav", JobStatus::Done),
        row(3, "/c.wav", JobStatus::Done),
        row(4, "/d.wav", JobStatus::Failed),
    ])
    .unwrap();
    assert_eq!(s.count(JobStatus::Pending), 1);
    assert_eq!(s.count(JobStatus::Converting), 0);
    assert_eq!(s.count(JobStatus::Done), 2);
    assert_eq!(s.count(JobStatus::Failed), 1);
    assert_eq!(s.count(JobStatus::Skipped), 0);
}

#[test]
fn restore_demands_growing_ids() {
    assert!(JobStore::restore(Vec::new()).is_some());
    assert!(JobStore::restore(vec![row(5, "/a", JobStatus::Done), row(9, "/b", JobStatus::Done)]).is_some());
    assert!(JobStore::restore(vec![row(5, "/a", JobStatus::Done), row(5, "/b", JobStatus::Done)]).is_none());
    assert!(JobStore::restore(vec![row(9, "/a", JobStatus::Done), row(5, "/b", JobStatus::Done)]).is_none());
    assert!(JobStore::restore(vec![row(i64::MAX, "/a", JobStatus::Done)]).is_none());
}

#[test]
fn restore_continues_after_the_last_id() {
    let mut s = JobStore::restore(vec![row(5, "/a", JobStatus::Done), row(9, "/b", JobStatus::Done)]).unwrap();
    assert_eq!(s.insert_pending(1, "/c", "wav", 0), Ok(10));
    let mut e = JobStore::restore(Vec::new()).unwrap();
    assert_eq!(e.insert_pending(1, "/c", "wav", 0), Ok(1));
}

#[test]
fn jobs_of_a_download_are_removed_together() {
    let mut a = row(1, "/a.wav", JobStatus::Failed);
    a.download_id = Some(7);
    let mut b = row(2, "/b.wav", JobStatus::Done);
    b.download_id = Some(8);
    let mut c = row(3, "/a.wav", JobStatus::Pending);
    c.download_id = Some(7);
    let mut d = row(4, "/d.wav", JobStatus::Done);
    d.download_id = None;
    let mut s = JobStore::restore(vec![a, b.clone(), c, d.clone()]).unwrap();
    assert_eq!(s.remove_for_download(7), 2);
    assert_eq!(s.len(), 2);
    assert_eq!(s.at(0), &b);
    assert_eq!(s.at(1), &d);
    assert_eq!(s.remove_for_download(7), 0);
    assert_eq!(s.insert_pending(1, "/n.wav", "wav", 0), Ok(5));
}
