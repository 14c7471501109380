use bgworker::reaper::{index_dir_name, orphans};
use bgworker::registry::{Distance, IndexOptions, WorkerStartup};

fn cfg() -> IndexOptions {
    IndexOptions { dims: 4, distance: Distance::L2 }
}

#[test]
fn dir_names_are_decimal() {
    assert_eq!(index_dir_name(0), "0");
    assert_eq!(index_dir_name(123), "123");
    assert_eq!(index_dir_name(u32::MAX), "4294967295");
}

#[test]
fn reaper_deletes_exactly_unclaimed_dirs() {
    let mut record = WorkerStartup::new();
    record.insert(1, cfg());
    record.insert(20, cfg());
    let dirs: Vec<String> = ["1", "2", "20", "020", "x", "20"]
        .iter()
        .map(|s| s.to_string())
        .collect();
    assert_eq!(orphans(&dirs, &record), vec!["2".to_string(), "020".to_string(), "x".to_string()]);
}

#[test]
fn reaper_with_empty_record_deletes_all() {
    let record = WorkerStartup::new();
    let dirs = vec!["5".to_string(), "6".to_string()];
    assert_eq!(orphans(&dirs, &record), dirs);
    assert!(orphans(&Vec::new(), &record).is_empty());
}

#[test]
fn reaper_keeps_all_when_all_claimed() {
    let mut record = WorkerStartup::new();
    record.insert(5, cfg());
    record.insert(6, cfg());
    let dirs = vec!["6".to_string(), "5".to_string()];
    assert!(orphans(&dirs, &record).is_empty());
}
