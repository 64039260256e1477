use lib::fs_core::snapshot::SnapshotManager;
use lib::shared::VexfsError;

#[test]
fn create_get_and_list() {
    let mut m = SnapshotManager::new();
    assert_eq!(m.create_snapshot("a".to_string(), None, Ok(500)), Ok(1));
    assert_eq!(m.create_snapshot("b".to_string(), Some(1), Ok(501)), Ok(2));
    let b = m.get_snapshot(2).unwrap();
    assert_eq!(b.name, "b");
    assert_eq!(b.root_inode, 501);
    assert_eq!(b.parent_snapshot, Some(1));
    assert_eq!(b.ref_count, 1);
    let list = m.list_snapshots().unwrap();
    assert_eq!(list.len(), 2);
    assert_eq!(list[0].id, 1);
    assert_eq!(list[1].id, 2);
    let stats = m.get_stats().unwrap();
    assert_eq!(stats.total_snapshots, 2);
    assert_eq!(stats.active_snapshots, 2);
}

#[test]
fn failed_copy_uses_up_the_id() {
    let mut m = SnapshotManager::new();
    let err = VexfsError::InvalidOperation("no space".to_string());
    assert_eq!(m.create_snapshot("a".to_string(), None, Err(err.clone())), Err(err));
    assert_eq!(m.create_snapshot("b".to_string(), None, Ok(7)), Ok(2));
    assert_eq!(m.get_stats().unwrap().total_snapshots, 1);
    assert_eq!(
        m.get_snapshot(1).unwrap_err(),
        VexfsError::InvalidArgument("snapshot not found".to_string())
    );
}

#[test]
fn delete_refusals() {
    let mut m = SnapshotManager::new();
    assert_eq!(
        m.delete_snapshot(9, false),
        Err(VexfsError::InvalidArgument("snapshot not found".to_string()))
    );
    m.create_snapshot("a".to_string(), None, Ok(1)).unwrap();
    // one reference only: marked, still listed
    assert_eq!(m.delete_snapshot(1, false), Ok(()));
    assert!(m.get_snapshot(1).unwrap().is_marked_for_deletion());
    assert_eq!(m.list_snapshots().unwrap().len(), 1);
}

#[test]
fn forced_delete_removes_at_once() {
    let mut m = SnapshotManager::new();
    m.create_snapshot("a".to_string(), None, Ok(1)).unwrap();
    m.create_snapshot("b".to_string(), None, Ok(2)).unwrap();
    assert_eq!(m.delete_snapshot(1, true), Ok(()));
    assert!(m.get_snapshot(1).is_err());
    assert_eq!(m.get_stats().unwrap().active_snapshots, 1);
    assert_eq!(m.get_stats().unwrap().total_snapshots, 2);
}

#[test]
fn garbage_collection_removes_deleted_snapshots() {
    let mut m = SnapshotManager::new();
    m.create_snapshot("a".to_string(), None, Ok(1)).unwrap();
    m.create_snapshot("b".to_string(), None, Ok(2)).unwrap();
    m.delete_snapshot(1, false).unwrap();
    // marked only: still listed until the collector runs
    assert_eq!(m.list_snapshots().unwrap().len(), 2);
    let r = m.garbage_collect().unwrap();
    assert_eq!(r.snapshots_deleted, 1);
    assert_eq!(r.errors, 0);
    assert!(m.get_snapshot(1).is_err());
    assert!(m.get_snapshot(2).is_ok());
    assert_eq!(m.get_stats().unwrap().active_snapshots, 1);
    assert_eq!(m.get_stats().unwrap().gc_runs, 1);
    // a second run finds nothing more
    let r = m.garbage_collect().unwrap();
    assert_eq!(r.snapshots_deleted, 0);
    assert_eq!(m.get_stats().unwrap().gc_runs, 2);
}
