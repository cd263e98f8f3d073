use eyebags_core::jobs::{Conversion, JobStore, RetryError, StoreFull};
use eyebags_core::status::JobStatus;
use eyebags_core::worker::{retry_conversion, work_item, ConversionWorker, QUEUE_CAPACITY};

fn row(id: i64, path: &str, status: JobStatus) -> Conversion {
    Conversion {
        id,
        download_id: None,
        source_path: path.to_string(),
        output_path: String::new(),
        source_ext: "wav".to_string(),
        status,
        error_msg: String::new(),
        size_centi_mb: 0,
        started_at: None,
        finished_at: None,
        created_at: 0,
    }
}

#[test]
fn worker_starts_empty_and_running() {
    let (w, rx) = ConversionWorker::start();
    assert!(w.is_running());
    assert_eq!(w.get_queue_size(), 0);
    assert_eq!(QUEUE_CAPACITY, 256);
    assert_eq!(rx.max_capacity(), 256);
    assert_eq!(rx.len(), 0);
}

#[test]
fn enqueue_records_counts_and_queues() {
    let (mut w, mut rx) = ConversionWorker::start();
    let mut s = JobStore::new();
    let id = w.enqueue(&mut s, 3, "/downloads/a.wav", "wav", "/library", 50).unwrap();
    assert_eq!(id, 1);
    assert_eq!(w.get_queue_size(), 1);
    let row = s.get(1).unwrap();
    assert_eq!(row.status, JobStatus::Pending);
    assert_eq!(row.download_id, Some(3));
    assert_eq!(row.source_path, "/downloads/a.wav");
    assert_eq!(row.source_ext, "wav");
    assert_eq!(row.created_at, 50);
    let job = rx.try_recv().unwrap();
    assert_eq!(job.conv_id, 1);
    assert_eq!(job.source_path, "/downloads/a.wav");
    assert_eq!(job.output_dir, "/library");
    assert!(rx.try_recv().is_err());
}

#[test]
fn enqueue_returns_the_existing_job() {
    for status in [JobStatus::Pending, JobStatus::Converting, JobStatus::Done] {
        let (mut w, mut rx) = ConversionWorker::start();
        let mut s = JobStore::restore(vec![row(4, "/downloads/a.wav", status)]).unwrap();
        assert_eq!(w.enqueue(&mut s, 9, "/downloads/a.wav", "wav", "/library", 1), Ok(4));
        assert_eq!(s.len(), 1);
        assert_eq!(s.get(4), Some(&row(4, "/downloads/a.wav", status)));
        assert_eq!(w.get_queue_size(), 0);
        assert!(rx.try_recv().is_err());
    }
}

#[test]
fn enqueue_twice_is_enqueue_once() {
    let (mut w, mut rx) = ConversionWorker::start();
    let mut s = JobStore::new();
    let first = w.enqueue(&mut s, 1, "/downloads/a.wav", "wav", "/library", 1).unwrap();
    let second = w.enqueue(&mut s, 2, "/downloads/a.wav", "WAV", "/elsewhere", 2).unwrap();
    assert_eq!(first, second);
    assert_eq!(s.len(), 1);
    assert_eq!(w.get_queue_size(), 1);
    assert!(rx.try_recv().is_ok());
    assert!(rx.try_recv().is_err());
}

#[test]
fn a_failed_job_does_not_block_a_new_one() {
    let (mut w, _rx) = ConversionWorker::start();
    let mut s = JobStore::restore(vec![row(4, "/downloads/a.wav", JobStatus::Failed)]).unwrap();
    assert_eq!(w.enqueue(&mut s, 9, "/downloads/a.wav", "wav", "/library", 1), Ok(5));
    assert_eq!(s.len(), 2);
    assert_eq!(w.get_queue_size(), 1);
}

#[test]
fn enqueue_fails_without_ids() {
    let (mut w, mut rx) = ConversionWorker::start();
    let mut s = JobStore::restore(vec![row(i64::MAX - 1, "/a.wav", JobStatus::Failed)]).unwrap();
    assert_eq!(w.enqueue(&mut s, 9, "/b.wav", "wav", "/library", 1), Err(StoreFull));
    assert_eq!(s.len(), 1);
    assert_eq!(w.get_queue_size(), 0);
    assert!(rx.try_recv().is_err());
}

#[test]
fn jobs_leave_the_queue_in_arrival_order() {
    let (mut w, mut rx) = ConversionWorker::start();
    let mut s = JobStore::new();
    for i in 0..10 {
        let path = format!("/downloads/{}.wav", i);
        w.enqueue(&mut s, i, &path, "wav", "/library", 0).unwrap();
    }
    for i in 0..10 {
        let job = rx.try_recv().unwrap();
        assert_eq!(job.conv_id, i + 1);
        assert_eq!(job.source_path, format!("/downloads/{}.wav", i));
    }
}

#[test]
fn a_full_queue_drops_the_push_but_keeps_the_record() {
    let (mut w, mut rx) = ConversionWorker::start();
    let mut s = JobStore::new();
    for i in 0..300i64 {
        let path = format!("/downloads/{}.wav", i);
        assert_eq!(w.enqueue(&mut s, i, &path, "wav", "/library", 0), Ok(i + 1));
    }
    assert_eq!(s.len(), 300);
    assert_eq!(s.count(JobStatus::Pending), 300);
    assert_eq!(w.get_queue_size(), 300);
    let mut received = 0;
    while let Ok(job) = rx.try_recv() {
        received += 1;
        assert_eq!(job.conv_id, received);
    }
    assert_eq!(received, 256);
}

#[test]
fn reenqueue_counts_and_queues_without_a_record() {
    let (mut w, mut rx) = ConversionWorker::start();
    w.reenqueue(42, "/downloads/a.wav".to_string(), "/library".to_string());
    assert_eq!(w.get_queue_size(), 1);
    let job = rx.try_recv().unwrap();
    assert_eq!((job.conv_id, job.source_path.as_str(), job.output_dir.as_str()), (42, "/downloads/a.wav", "/library"));
}

#[test]
fn the_counter_goes_down_after_every_job() {
    let (mut w, _rx) = ConversionWorker::start();
    w.reenqueue(1, "/a".to_string(), "/o".to_string());
    w.reenqueue(2, "/b".to_string(), "/o".to_string());
    assert_eq!(w.get_queue_size(), 2);
    w.job_finished();
    assert_eq!(w.get_queue_size(), 1);
    w.job_finished();
    assert_eq!(w.get_queue_size(), 0);
}

#[test]
fn the_counter_wraps_like_an_atomic() {
    let (mut w, _rx) = ConversionWorker::start();
    w.job_finished();
    assert_eq!(w.get_queue_size(), usize::MAX);
    w.reenqueue(1, "/a".to_string(), "/o".to_string());
    assert_eq!(w.get_queue_size(), 0);
}

#[test]
fn enqueue_survives_a_closed_queue() {
    let (mut w, rx) = ConversionWorker::start();
    drop(rx);
    let mut s = JobStore::new();
    assert_eq!(w.enqueue(&mut s, 1, "/a.wav", "wav", "/library", 0), Ok(1));
    assert_eq!(s.get(1).unwrap().status, JobStatus::Pending);
    assert_eq!(w.get_queue_size(), 1);
}

#[test]
fn shutting_down_clears_the_flag() {
    let (mut w, _rx) = ConversionWorker::start();
    w.reenqueue(1, "/a".to_string(), "/o".to_string());
    w.shut_down();
    assert!(!w.is_running());
    assert_eq!(w.get_queue_size(), 1);
}

#[test]
fn retry_requeues_a_failed_job() {
    let (mut w, mut rx) = ConversionWorker::start();
    let mut failed = row(3, "/downloads/a.wav", JobStatus::Failed);
    failed.error_msg = "ffmpeg not found".to_string();
    failed.started_at = Some(1);
    failed.finished_at = Some(2);
    let mut s = JobStore::restore(vec![failed]).unwrap();
    assert_eq!(retry_conversion(&mut s, &mut w, 3, Some("/library")), Ok(()));
    assert_eq!(s.get(3), Some(&row(3, "/downloads/a.wav", JobStatus::Pending)));
    assert_eq!(w.get_queue_size(), 1);
    let job = rx.try_recv().unwrap();
    assert_eq!((job.conv_id, job.source_path.as_str(), job.output_dir.as_str()), (3, "/downloads/a.wav", "/library"));
}

#[test]
fn retry_is_rejected_unless_the_job_failed() {
    for status in [JobStatus::Pending, JobStatus::Converting, JobStatus::Done, JobStatus::Skipped] {
        let (mut w, mut rx) = ConversionWorker::start();
        let mut s = JobStore::restore(vec![row(3, "/a.wav", status)]).unwrap();
        assert_eq!(retry_conversion(&mut s, &mut w, 3, Some("/library")), Err(RetryError::NotFailed));
        assert_eq!(s.get(3), Some(&row(3, "/a.wav", status)));
        assert_eq!(w.get_queue_size(), 0);
        assert!(rx.try_recv().is_err());
    }
}

#[test]
fn retry_needs_a_job_and_an_output_directory() {
    let (mut w, mut rx) = ConversionWorker::start();
    let mut s = JobStore::restore(vec![row(3, "/a.wav", JobStatus::Failed)]).unwrap();
    assert_eq!(retry_conversion(&mut s, &mut w, 8, Some("/library")), Err(RetryError::NotFound));
    assert_eq!(retry_conversion(&mut s, &mut w, 3, None), Err(RetryError::NoOutputDir));
    assert_eq!(retry_conversion(&mut s, &mut w, 3, Some("")), Err(RetryError::NoOutputDir));
    assert_eq!(s.get(3).unwrap().status, JobStatus::Failed);
    assert_eq!(w.get_queue_size(), 0);
    assert!(rx.try_recv().is_err());
}

#[test]
fn a_work_item_holds_what_it_was_made_of() {
    let job = work_item(9, "/downloads/a.wav".to_string(), "/library".to_string());
    assert_eq!(job.conv_id, 9);
    assert_eq!(job.source_path, "/downloads/a.wav");
    assert_eq!(job.output_dir, "/library");
}

#[test]
fn reenqueue_offers_exactly_the_work_item() {
    let (mut w, mut rx) = ConversionWorker::start();
    w.reenqueue(5, "/x/y.flac".to_string(), "/out".to_string());
    w.reenqueue(6, "/x/z.flac".to_string(), "".to_string());
    assert_eq!(rx.try_recv().unwrap(), work_item(5, "/x/y.flac".to_string(), "/out".to_string()));
    assert_eq!(rx.try_recv().unwrap(), work_item(6, "/x/z.flac".to_string(), String::new()));
    assert!(rx.try_recv().is_err());
}
