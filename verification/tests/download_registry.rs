use eyebags_core::downloads::{size_centi_mb, Download, DownloadRegistry};
use eyebags_core::jobs::StoreFull;

fn dl(id: i64, path: &str) -> Download {
    Download {
        id,
        filename: path.rsplit('/').next().unwrap().to_string(),
        filepath: path.to_string(),
        extension: "wav".to_string(),
        size_centi_mb: 100,
        detected_at: 9,
    }
}

#[test]
fn sizes_in_hundredths_of_a_mebibyte() {
    assert_eq!(size_centi_mb(0), 0);
    assert_eq!(size_centi_mb(1024 * 1024), 100);
    assert_eq!(size_centi_mb(5 * 1024 * 1024), 500);
    assert_eq!(size_centi_mb(1536 * 1024), 150);
    // 5242 bytes are 0.4999 hundredths, 5243 bytes are 0.50001.
    assert_eq!(size_centi_mb(5242), 0);
    assert_eq!(size_centi_mb(5243), 1);
    assert_eq!(size_centi_mb(u64::MAX), 1759218604441600);
}

#[test]
fn sizes_agree_with_rounding_in_floating_point() {
    for bytes in [1u64, 999, 5242, 5243, 10485, 10486, 1_000_000, 123_456_789, 7_777_777_777] {
        let mb = (bytes as f64) / (1024.0 * 1024.0);
        let rounded = (mb * 100.0).round();
        assert_eq!(size_centi_mb(bytes), rounded as u64, "{}", bytes);
    }
}

#[test]
fn a_file_is_registered_once() {
    let mut r = DownloadRegistry::new();
    assert!(!r.contains_path("/downloads/a.wav"));
    assert_eq!(r.register("a.wav", "/downloads/a.wav", "wav", 500, 11), Ok(Some(1)));
    assert!(r.contains_path("/downloads/a.wav"));
    assert_eq!(r.register("a.wav", "/downloads/a.wav", "wav", 500, 12), Ok(None));
    assert_eq!(r.len(), 1);
    assert_eq!(
        r.get(1),
        Some(&Download {
            id: 1,
            filename: "a.wav".to_string(),
            filepath: "/downloads/a.wav".to_string(),
            extension: "wav".to_string(),
            size_centi_mb: 500,
            detected_at: 11,
        })
    );
    assert_eq!(r.register("b.wav", "/downloads/b.wav", "wav", 1, 13), Ok(Some(2)));
    assert_eq!(r.at(1).filename, "b.wav");
}

#[test]
fn registration_fails_when_ids_are_used_up() {
    let mut r = DownloadRegistry::restore(vec![dl(i64::MAX - 1, "/a.wav")]).unwrap();
    assert_eq!(r.register("b.wav", "/b.wav", "wav", 0, 0), Err(StoreFull));
    assert_eq!(r.register("a.wav", "/a.wav", "wav", 0, 0), Ok(None));
    assert_eq!(r.len(), 1);
}

#[test]
fn renaming_follows_a_moved_file() {
    let mut r = DownloadRegistry::restore(vec![dl(1, "/d/a.wav"), dl(2, "/d/b.wav")]).unwrap();
    assert_eq!(r.rename_path("/d/a.wav", "/d/_converted/a.wav"), 1);
    assert_eq!(r.get(1).unwrap().filepath, "/d/_converted/a.wav");
    assert_eq!(r.get(1).unwrap().filename, "a.wav");
    assert_eq!(r.get(2).unwrap().filepath, "/d/b.wav");
    assert_eq!(r.rename_path("/d/missing.wav", "/x"), 0);
    assert!(!r.contains_path("/d/a.wav"));
    assert!(r.contains_path("/d/_converted/a.wav"));
}

#[test]
fn removal_by_id() {
    let mut r = DownloadRegistry::restore(vec![dl(1, "/a"), dl(2, "/b"), dl(3, "/c")]).unwrap();
    assert!(r.remove(2));
    assert!(!r.remove(2));
    assert_eq!(r.len(), 2);
    assert_eq!(r.at(0).id, 1);
    assert_eq!(r.at(1).id, 3);
    assert!(r.get(2).is_none());
    assert_eq!(r.register("d", "/d", "", 0, 0), Ok(Some(4)));
}

#[test]
fn restoring_a_registry() {
    assert!(DownloadRegistry::restore(Vec::new()).is_some());
    assert!(DownloadRegistry::restore(vec![dl(2, "/a"), dl(1, "/b")]).is_none());
    assert!(DownloadRegistry::restore(vec![dl(1, "/a"), dl(1, "/b")]).is_none());
    assert!(DownloadRegistry::restore(vec![dl(i64::MAX, "/a")]).is_none());
    let mut r = DownloadRegistry::restore(vec![dl(4, "/a"), dl(8, "/b")]).unwrap();
    assert_eq!(r.register("c", "/c", "", 0, 0), Ok(Some(9)));
}
