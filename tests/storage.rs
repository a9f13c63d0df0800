use knast::lifecycle::{OciStatus, ProcessStatus, StoreError};
use knast::storage::Storage;
use knast::table::Table;

fn record(status: ProcessStatus, pid: i32) -> OciStatus {
    OciStatus {
        oci_version: "1.0.2-dev-freebsd".to_string(),
        status,
        pid,
        jid: 0,
        exit_status: None,
        exited_at: 0,
    }
}

#[test]
fn test_happy_path() {
    let mut cache: Table<Vec<u8>> = Table::new();
    cache.insert(b"test/lorem", b"ipsum".to_vec());
    assert_eq!(cache.get(b"test/lorem"), Some(&b"ipsum".to_vec()));
    assert!(cache.contains(b"test/lorem"));
    assert_eq!(cache.get(b"test/dolor"), None);
}

#[test]
fn test_compare_and_swap() {
    let mut storage = Storage::new("/var/db/knast");
    storage.compare_and_swap(b"test/lorem", None, Some(record(ProcessStatus::Created, 0))).expect("CAS failed unexpectedly");
    storage
        .compare_and_swap(
            b"test/lorem",
            Some(record(ProcessStatus::Created, 0)),
            Some(record(ProcessStatus::Running, 7)),
        )
        .expect("CAS failed unexpectedly");
    let err = storage
        .compare_and_swap(
            b"test/lorem",
            Some(record(ProcessStatus::Created, 0)),
            Some(record(ProcessStatus::Stopped, 0)),
        )
        .unwrap_err();
    assert_eq!(err, StoreError::Conflict);
    assert_eq!(err.message(), "Compare and swap conflict");
    let stored = storage.container_processes.get(b"test/lorem").unwrap();
    assert_eq!((stored.status, stored.pid), (ProcessStatus::Running, 7));
    assert_eq!(storage.compare_and_swap(b"test/lorem", None, None), Err(StoreError::Conflict));
    storage.compare_and_swap(b"test/lorem", Some(record(ProcessStatus::Running, 7)), None).unwrap();
    assert!(!storage.container_processes.contains(b"test/lorem"));
}

#[test]
fn test_remove() {
    let mut cache: Table<Vec<u8>> = Table::new();
    cache.insert(b"test/lorem", b"ipsum".to_vec());
    cache.remove(b"test/lorem");
    assert_eq!(cache.get(b"test/lorem"), None);
    cache.remove(b"test/lorem");
    assert!(!cache.contains(b"test/lorem"));
}
