use lib::fs_core::cow_integration::{CowConfig, CowFilesystemOperations};
use lib::fs_core::inode::InodeManager;
use lib::shared::VexfsError;

#[test]
fn read_takes_the_part_of_the_block_asked_for() {
    let ops = CowFilesystemOperations::new(CowConfig::default()).unwrap();
    let block: Vec<u8> = (0..16u8).collect();
    assert_eq!(ops.cow_read_file(5, 4096 + 2, 3, Ok(block.clone())).unwrap(), vec![2, 3, 4]);
    assert_eq!(ops.cow_read_file(5, 10, 100, Ok(block.clone())).unwrap(), vec![10, 11, 12, 13, 14, 15]);
    assert!(ops.cow_read_file(5, 20, 4, Ok(block)).unwrap().is_empty());
    let err = VexfsError::InodeNotFound(5);
    assert_eq!(ops.cow_read_file(5, 0, 4, Err(err.clone())), Err(err));
}

#[test]
fn write_grows_the_file() {
    let ops = CowFilesystemOperations::new(CowConfig::default()).unwrap();
    let mut manager = InodeManager::new().unwrap();
    assert_eq!(ops.cow_write_file(9, 100, &[1, 2, 3], &mut manager, Ok(77)), Ok(3));
    assert_eq!(manager.get_inode(9).unwrap().size, 103);
    assert_eq!(ops.cow_write_file(9, 0, &[1], &mut manager, Ok(78)), Ok(1));
    assert_eq!(manager.get_inode(9).unwrap().size, 103);
    let err = VexfsError::InvalidOperation("copy failed".to_string());
    assert_eq!(ops.cow_write_file(9, 500, &[1], &mut manager, Err(err.clone())), Err(err));
    assert_eq!(manager.get_inode(9).unwrap().size, 103);
}

#[test]
fn snapshots_through_the_file_operations() {
    let mut ops = CowFilesystemOperations::new(CowConfig::default()).unwrap();
    assert_eq!(ops.create_snapshot("base".to_string(), None, Ok(10)), Ok(1));
    assert_eq!(ops.create_incremental_snapshot("inc".to_string(), 1, Ok(11)), Ok(2));
    let list = ops.list_snapshots().unwrap();
    assert_eq!(list.len(), 2);
    assert_eq!(list[1].parent_snapshot, Some(1));
    assert!(ops.read_from_snapshot(3, 1, 0, 10, Ok(vec![1])).is_err());
    assert_eq!(ops.read_from_snapshot(1, 1, 0, 10, Ok(vec![1, 2])).unwrap(), vec![1, 2]);
    assert_eq!(ops.delete_snapshot(2, true), Ok(()));
    assert_eq!(ops.list_snapshots().unwrap().len(), 1);
    let gc = ops.garbage_collect().unwrap();
    assert_eq!((gc.snapshots_deleted, gc.cow_blocks_freed, gc.errors), (0, 0, 0));
    assert_eq!(ops.optimize().unwrap().operations_performed, 0);
    assert_eq!(ops.check_consistency().unwrap().errors_found, 0);
}

#[test]
fn restore_writes_snapshot_data_into_the_target() {
    let mut ops = CowFilesystemOperations::new(CowConfig::default()).unwrap();
    ops.create_snapshot("s".to_string(), None, Ok(10)).unwrap();
    let mut manager = InodeManager::new().unwrap();
    assert_eq!(ops.restore_from_snapshot(1, 4, 12, &mut manager, Ok(vec![0; 64]), Ok(5)), Ok(()));
    assert_eq!(manager.get_inode(12).unwrap().size, 64);
    assert!(ops.restore_from_snapshot(2, 4, 12, &mut manager, Ok(vec![0; 64]), Ok(5)).is_err());
}

use lib::fs_core::cow_integration::CowSnapshotIntegration;
use std::sync::Arc;

#[test]
fn background_tasks_start_and_stop() {
    let ops = Arc::new(CowFilesystemOperations::new(CowConfig::default()).unwrap());
    let mut integ = CowSnapshotIntegration::new(ops.clone());
    assert!(Arc::ptr_eq(integ.cow_ops(), &ops));
    assert_eq!(integ.start_background_tasks(), Ok(()));
    assert_eq!(integ.stop_background_tasks(), Ok(()));
}
