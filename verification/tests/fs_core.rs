use lib::fs_core::cow_integration::{CowConfig, GarbageCollectionSummary};
use lib::fs_core::inode::{Inode, InodeManager};
use lib::fs_core::locking::{acquire_read_lock_guard, acquire_write_lock_guard, FileLock, LockManager, LockType};
use lib::fs_core::path::{Path, PathComponent, PathResolver, PathValidator};
use lib::fs_core::permissions::{
    apply_umask, can_read, permission_bits, AccessCheck, AccessMode, PermissionChecker, SecurityPolicy,
    UserContext,
};
use lib::fs_core::snapshot::{
    DeltaChangeType, DeltaEntry, DeltaStorage, SnapshotFlags, SnapshotMetadata,
};
use lib::fs_core::{FileSystem, FsConfig, FsInitializer};
use lib::shared::{FileMode, FileType, VexfsError};

#[test]
fn test_inode_creation() {
    let inode = Inode::new(1, FileType::Regular, FileMode::new(0o644), 1000, 1000);
    assert_eq!(inode.ino, 1);
    assert_eq!(inode.file_type, FileType::Regular);
    assert_eq!(inode.uid, 1000);
    assert_eq!(inode.gid, 1000);
    assert!(inode.dirty);
}

#[test]
fn test_inode_stat_conversion() {
    let inode = Inode::new(42, FileType::Directory, FileMode::new(0o755), 0, 0);
    let stat = inode.to_stat();
    assert_eq!(stat.ino, 42);
    assert_eq!(stat.mode.permissions(), 0o755);
}

#[test]
fn test_inode_reference_counting() {
    let mut inode = Inode::new(1, FileType::Regular, FileMode::new(0o644), 0, 0);
    assert_eq!(inode.ref_count, 1);

    inode.inc_ref();
    assert_eq!(inode.ref_count, 2);

    let count = inode.dec_ref();
    assert_eq!(count, 1);
    assert_eq!(inode.ref_count, 1);
}

#[test]
fn test_file_lock_conflicts() {
    let lock1 = FileLock::new(LockType::Write, 0, 100, 1);
    let lock2 = FileLock::new(LockType::Read, 50, 100, 2);
    let lock3 = FileLock::new(LockType::Read, 200, 100, 3);

    assert!(lock1.conflicts_with(&lock2));
    assert!(!lock1.conflicts_with(&lock3));
}

#[test]
fn test_lock_manager_inode_locking() {
    let mut manager = LockManager::new();

    let lock1 = manager.lock_inode(1, LockType::Read, 100).unwrap();
    let lock2 = manager.lock_inode(1, LockType::Read, 101).unwrap();

    assert!(manager.lock_inode(1, LockType::Write, 102).is_err());

    manager.unlock(lock1).unwrap();
    manager.unlock(lock2).unwrap();

    let _lock3 = manager.lock_inode(1, LockType::Write, 102).unwrap();
}

#[test]
fn test_lock_cleanup() {
    let mut manager = LockManager::new();

    let _lock1 = manager.lock_inode(1, LockType::Read, 100).unwrap();
    let _lock2 = manager.lock_directory(2, LockType::Write, 100).unwrap();

    assert_eq!(manager.lock_stats(), (1, 1, 0));

    manager.unlock_all_for_owner(100).unwrap();

    assert_eq!(manager.lock_stats(), (0, 0, 0));
}

#[test]
fn test_fs_config() {
    let config = FsConfig::default();
    assert!(config.case_sensitive);
    assert_eq!(config.max_filename_length, 255);
    assert_eq!(config.default_file_mode, 0o644);
    assert_eq!(config.default_dir_mode, 0o755);
}

#[test]
fn test_feature_flags() {
    let config = FsConfig { enable_extended_attributes: true, enable_quotas: true, ..Default::default() };
    assert!(config.enable_extended_attributes);
    assert!(config.enable_quotas);
}

#[test]
fn test_path_component_creation() {
    assert_eq!(PathComponent::from_str(".").unwrap(), PathComponent::Current);
    assert_eq!(PathComponent::from_str("..").unwrap(), PathComponent::Parent);
    assert_eq!(PathComponent::from_str("/").unwrap(), PathComponent::Root);

    let normal = PathComponent::from_str("filename").unwrap();
    assert_eq!(normal, PathComponent::Normal("filename".to_string()));
}

#[test]
fn test_path_parsing() {
    let path = Path::from_str("/home/user/file.txt").unwrap();
    assert!(path.is_absolute());
    assert_eq!(path.components().len(), 4);

    let rel_path = Path::from_str("../file.txt").unwrap();
    assert!(!rel_path.is_absolute());
    assert_eq!(rel_path.components().len(), 2);
}

#[test]
fn test_path_normalization() {
    let path = Path::from_str("/home/user/../file.txt").unwrap();
    let normalized = path.normalize().unwrap();
    assert_eq!(normalized.to_string(), "/home/file.txt");

    let path2 = Path::from_str("/home/./user/file.txt").unwrap();
    let normalized2 = path2.normalize().unwrap();
    assert_eq!(normalized2.to_string(), "/home/user/file.txt");
}

#[test]
fn test_path_validation() {
    let valid_path = Path::from_str("/home/user/file.txt").unwrap();
    assert!(PathValidator::validate_path(&valid_path).is_ok());

    assert!(PathValidator::validate_component_name("valid_name").is_ok());
    assert!(PathValidator::validate_component_name("file\0name").is_err());
    assert!(PathValidator::validate_component_name("CON").is_err());
}

#[test]
fn test_path_joining() {
    let base = Path::from_str("/home/user").unwrap();
    let joined = base.join("file.txt").unwrap();
    assert_eq!(joined.to_string(), "/home/user/file.txt");
}

#[test]
fn test_traversal_safety() {
    let safe_path = Path::from_str("subdir/file.txt").unwrap();
    assert!(PathValidator::check_traversal_safety(&safe_path, 2).is_ok());

    let unsafe_path = Path::from_str("../../../etc/passwd").unwrap();
    assert!(PathValidator::check_traversal_safety(&unsafe_path, 1).is_err());
}

#[test]
fn path_errors_name_their_cause() {
    assert!(matches!(Path::from_str(""), Err(VexfsError::InvalidPath(m)) if m == "Empty path"));
    let long = "a".repeat(256);
    assert!(matches!(PathComponent::from_str(&long), Err(VexfsError::NameTooLong)));
    assert!(matches!(PathComponent::from_str("LPT3"), Err(VexfsError::InvalidPath(m)) if m == "Reserved name"));
    let deep = "/a".repeat(32);
    assert!(matches!(Path::from_str(&deep), Err(VexfsError::PathTooLong)));
    let ok = "/a".repeat(31);
    assert_eq!(Path::from_str(&ok).unwrap().components().len(), 32);
}

#[test]
fn path_pieces_skip_empty_names() {
    let p = Path::from_str("a//b/").unwrap();
    assert_eq!(p.components().len(), 2);
    assert_eq!(p.to_string(), "a/b");
    assert_eq!(Path::from_str("/").unwrap().to_string(), "/");
}

#[test]
fn path_normalize_edge_cases() {
    // ".." at the root of an absolute path is dropped.
    assert_eq!(Path::from_str("/..").unwrap().normalize().unwrap().to_string(), "/");
    // A relative path keeps a leading "..".
    assert_eq!(Path::from_str("../a").unwrap().normalize().unwrap().to_string(), "../a");
    // A ".." cancels only a name: unresolved ".." components are all kept.
    assert_eq!(Path::from_str("../..").unwrap().normalize().unwrap().to_string(), "../..");
    assert_eq!(Path::from_str("../../a").unwrap().normalize().unwrap().to_string(), "../../a");
    assert_eq!(Path::from_str("a/../../b").unwrap().normalize().unwrap().to_string(), "../b");
    // Normalising twice gives what normalising once gives.
    let once = Path::from_str("a/./b/../../..").unwrap().normalize().unwrap();
    let twice = once.normalize().unwrap();
    assert_eq!(once.to_string(), twice.to_string());
}

#[test]
fn path_parent_and_file_name() {
    let p = Path::from_str("/home/user").unwrap();
    let parent = p.parent().unwrap();
    assert_eq!(parent.to_string(), "/home");
    assert_eq!(p.file_name().unwrap().as_str(), "user");
    assert!(Path::from_str("/").unwrap().parent().is_none());
}

#[test]
fn path_validation_limits_parent_references() {
    // Unresolved ".." components all stay after normalising: sixteen are
    // accepted, seventeen are too many.
    let sixteen = "../".repeat(16);
    let p = Path::from_str(&sixteen[..sixteen.len() - 1]).unwrap();
    assert!(PathValidator::validate_path(&p).is_ok());
    let seventeen = "../".repeat(17);
    let q = Path::from_str(&seventeen[..seventeen.len() - 1]).unwrap();
    assert!(matches!(PathValidator::validate_path(&q), Err(VexfsError::InvalidPath(_))));
    assert!(PathValidator::check_traversal_safety(&Path::from_str("/a/..").unwrap(), 0).is_ok());
}

#[test]
fn path_resolution_walks_without_names() {
    let mut im = InodeManager::new().unwrap();
    let p = Path::from_str("/./..").unwrap();
    assert_eq!(PathResolver::resolve_path(&mut im, 7, &p).unwrap(), 1);
    let rel = Path::from_str(".").unwrap();
    assert_eq!(PathResolver::resolve_path(&mut im, 7, &rel).unwrap(), 7);
    let named = Path::from_str("/etc").unwrap();
    assert!(matches!(PathResolver::resolve_path(&mut im, 7, &named), Err(VexfsError::NotADirectory(1))));
    let (dir, name) = PathResolver::resolve_parent(&mut im, 7, &named).unwrap();
    assert_eq!(dir, 1);
    assert_eq!(name, "etc");
    assert_eq!(PathResolver::is_descendant(&mut im, 1, 2).unwrap(), false);
}

#[test]
fn test_access_mode() {
    let mode = AccessMode::new(true, false, true);
    assert_eq!(mode.to_octal(), 5);

    let from_octal = AccessMode::from_octal(6);
    assert!(from_octal.read);
    assert!(from_octal.write);
    assert!(!from_octal.execute);
}

#[test]
fn access_mode_octal_roundtrip() {
    for m in [AccessMode::read_only(), AccessMode::write_only(), AccessMode::read_write(), AccessMode::execute_only(), AccessMode::full()] {
        assert_eq!(AccessMode::from_octal(m.to_octal()), m);
    }
    assert_eq!(AccessMode::from_octal(0o17).to_octal(), 7);
    let f = AccessMode::from_flags(3);
    assert!(f.read && f.write && !f.execute);
}

#[test]
fn test_user_context() {
    let user = UserContext::new(1000, 1000, &[100, 200]);
    assert!(user.is_in_group(1000));
    assert!(user.is_in_group(100));
    assert!(!user.is_in_group(300));

    let root = UserContext::root();
    assert!(root.is_superuser);
}

#[test]
fn test_permission_validation() {
    let user = UserContext::new(1000, 1000, &[]);
    assert!(PermissionChecker::validate_mode(0o644, FileType::Regular, &user).is_ok());
    assert!(PermissionChecker::validate_mode(0o10000, FileType::Regular, &user).is_err());
}

#[test]
fn test_access_check_result() {
    assert!(AccessCheck::Granted.is_granted());
    assert!(!AccessCheck::Denied.is_granted());

    assert!(AccessCheck::Granted.to_result().is_ok());
    assert!(AccessCheck::Denied.to_result().is_err());
}

#[test]
fn permission_checks_by_class() {
    let mut im = InodeManager::new().unwrap();
    let owner = UserContext::new(5, 5, &[]);
    let other = UserContext::new(6, 6, &[]);
    // An inode read from disk is a regular file with mode 0o644 owned by 0.
    assert_eq!(PermissionChecker::check_read(&mut im, 3, &other).unwrap(), AccessCheck::Granted);
    assert_eq!(PermissionChecker::check_write(&mut im, 3, &other).unwrap(), AccessCheck::Denied);
    assert_eq!(PermissionChecker::check_execute(&mut im, 3, &UserContext::root()).unwrap(), AccessCheck::Denied);
    assert_eq!(PermissionChecker::check_chmod(&mut im, 3, &owner).unwrap(), AccessCheck::NotOwner);
    assert_eq!(PermissionChecker::check_chown(&mut im, 3, &owner, 5, 5).unwrap(), AccessCheck::NotOwner);
    assert!(matches!(
        PermissionChecker::validate_mode(0o4755, FileType::Directory, &owner),
        Err(VexfsError::PermissionDenied(m)) if m == "Cannot set setuid on directory"
    ));
    assert_eq!(PermissionChecker::calculate_effective_uid(&mut im, 3, &owner).unwrap(), 5);
}

#[test]
fn permission_helpers() {
    let inode = Inode::new(9, FileType::Regular, FileMode::new(0o640), 10, 20);
    assert!(can_read(&inode, &UserContext::new(11, 20, &[])));
    assert!(!can_read(&inode, &UserContext::new(11, 21, &[])));
    assert_eq!(permission_bits(FileMode::new(0o4755)), 0o755);
    assert_eq!(apply_umask(FileMode::new(0o777), 0o022).mode, 0o755);
    assert!(SecurityPolicy::should_audit("chown", 1, &UserContext::new(1, 1, &[])));
    assert!(!SecurityPolicy::should_audit("read", 1, &UserContext::new(1, 1, &[])));
    assert!(matches!(
        SecurityPolicy::validate_creation(&"x".repeat(256), FileMode::new(0o644), FileType::Regular, &UserContext::root()),
        Err(VexfsError::NameTooLong)
    ));
}

#[test]
fn test_snapshot_metadata() {
    let mut metadata = SnapshotMetadata::new(1, "test_snapshot".to_string(), 100);
    assert_eq!(metadata.id, 1);
    assert_eq!(metadata.name, "test_snapshot");
    assert_eq!(metadata.root_inode, 100);
    assert!(!metadata.is_readonly());
    assert!(!metadata.is_marked_for_deletion());

    metadata.add_child(2);
    assert_eq!(metadata.child_snapshots.len(), 1);
    assert_eq!(metadata.child_snapshots[0], 2);

    metadata.remove_child(2);
    assert_eq!(metadata.child_snapshots.len(), 0);
}

#[test]
fn snapshot_children_are_kept_once() {
    let mut metadata = SnapshotMetadata::new(1, "s".to_string(), 100);
    metadata.add_child(2);
    metadata.add_child(3);
    metadata.add_child(2);
    assert_eq!(metadata.child_snapshots, vec![2, 3]);
    metadata.remove_child(2);
    assert_eq!(metadata.child_snapshots, vec![3]);
}

#[test]
fn test_snapshot_flags() {
    let mut flags = SnapshotFlags::active();
    assert!(flags.contains(SnapshotFlags::active()));
    assert!(!flags.contains(SnapshotFlags::readonly()));

    flags.insert(SnapshotFlags::readonly());
    assert!(flags.contains(SnapshotFlags::readonly()));

    flags.remove(SnapshotFlags::active());
    assert!(!flags.contains(SnapshotFlags::active()));
    assert!(flags.contains(SnapshotFlags::readonly()));
}

#[test]
fn test_delta_entry() {
    let mut entry = DeltaEntry::new(100, DeltaChangeType::Modified);
    assert_eq!(entry.inode, 100);
    assert_eq!(entry.change_type, DeltaChangeType::Modified);

    entry.new_data = Some(vec![1, 2, 3, 4]);
    entry.old_data = Some(vec![5, 6]);

    let overhead = entry.space_overhead();
    assert!(overhead > 0);
    assert_eq!(overhead, std::mem::size_of::<DeltaEntry>() as u64 + 6);
}

#[test]
fn test_delta_storage() {
    let mut delta = DeltaStorage::new(1, 2);
    assert_eq!(delta.base_snapshot, 1);
    assert_eq!(delta.target_snapshot, 2);
    assert_eq!(delta.entries.len(), 0);

    let entry = DeltaEntry::new(100, DeltaChangeType::Created);
    delta.add_entry(entry);
    assert_eq!(delta.entries.len(), 1);
    assert_eq!(delta.total_size, std::mem::size_of::<DeltaEntry>() as u64);
}

#[test]
fn test_cow_config() {
    let config = CowConfig::default();
    assert!(config.auto_cow);
    assert_eq!(config.max_snapshots, 100);
    assert!(config.compress_snapshots);
    assert!(config.enable_incremental);
}

#[test]
fn test_garbage_collection_summary() {
    let mut summary = GarbageCollectionSummary::default();
    summary.snapshots_deleted = 5;
    summary.space_freed = 1024 * 1024;
    summary.cow_blocks_freed = 100;

    assert_eq!(summary.snapshots_deleted, 5);
    assert_eq!(summary.space_freed, 1024 * 1024);
    assert_eq!(summary.cow_blocks_freed, 100);
}


#[test]
fn write_inode_lock_is_exclusive() {
    let mut manager = LockManager::new();
    let w = manager.lock_inode(5, LockType::Write, 1).unwrap();
    assert!(matches!(manager.lock_inode(5, LockType::Read, 2), Err(VexfsError::LockConflict(_))));
    assert!(matches!(manager.lock_inode(5, LockType::Advisory, 2), Err(VexfsError::LockConflict(_))));
    assert!(matches!(manager.lock_inode(5, LockType::Write, 2), Err(VexfsError::LockConflict(_))));
    // Other inodes are not affected.
    manager.lock_inode(6, LockType::Read, 2).unwrap();
    manager.unlock(w).unwrap();
    manager.lock_inode(5, LockType::Read, 2).unwrap();
    manager.lock_inode(5, LockType::Advisory, 3).unwrap();
}

#[test]
fn write_directory_lock_is_exclusive() {
    let mut manager = LockManager::new();
    let w = manager.lock_directory(9, LockType::Write, 1).unwrap();
    assert!(matches!(manager.lock_directory(9, LockType::Read, 2), Err(VexfsError::LockConflict(_))));
    manager.unlock(w).unwrap();
    manager.lock_directory(9, LockType::Read, 2).unwrap();
    manager.lock_directory(9, LockType::Read, 3).unwrap();
    assert!(matches!(manager.lock_directory(9, LockType::Write, 4), Err(VexfsError::LockConflict(_))));
}

#[test]
fn unlocking_one_range_lock_keeps_the_others() {
    let mut manager = LockManager::new();
    let a = manager.lock_file_range(7, 0, 100, LockType::Read, 1).unwrap();
    let _b = manager.lock_file_range(7, 0, 100, LockType::Read, 2).unwrap();
    manager.unlock(a).unwrap();
    assert_eq!(manager.lock_stats(), (0, 0, 1));
    assert!(matches!(manager.lock_file_range(7, 0, 100, LockType::Write, 3), Err(VexfsError::LockConflict(_))));
    assert!(manager.is_file_range_locked(7, 50, 10));
}

#[test]
fn range_probe_sees_every_owner() {
    let mut manager = LockManager::new();
    assert!(!manager.is_file_range_locked(9, 0, 100));
    let id = manager.lock_file_range(9, 10, 10, LockType::Read, 0).unwrap();
    assert!(manager.is_file_range_locked(9, 15, 1));
    assert!(manager.is_file_range_locked(9, 0, 11));
    assert!(!manager.is_file_range_locked(9, 0, 10));
    assert!(!manager.is_file_range_locked(9, 20, 5));
    manager.unlock(id).unwrap();
    assert!(!manager.is_file_range_locked(9, 15, 1));
    assert_eq!(manager.lock_stats(), (0, 0, 0));
}

#[test]
fn lock_guard_release_gives_the_lock_back() {
    let mut manager = LockManager::new();
    let guard = acquire_write_lock_guard(&mut manager, 3).unwrap();
    guard.release().unwrap();
    assert!(!manager.is_inode_locked(3));
    assert_eq!(manager.lock_stats(), (0, 0, 0));
    let _w = manager.lock_inode(3, LockType::Write, 1).unwrap();
    assert!(acquire_write_lock_guard(&mut manager, 3).is_err());
    assert!(acquire_read_lock_guard(&mut manager, 3).is_err());
}

#[test]
fn inode_numbers_are_never_handed_out_twice() {
    let mut manager = InodeManager::new().unwrap();
    let a = manager.allocate_inode(FileType::Regular, FileMode::new(0o644), 0, 0).unwrap();
    assert_eq!(a, 2);
    manager.deallocate_inode(a).unwrap();
    // Freeing a number that is already free succeeds and changes nothing.
    assert_eq!(manager.deallocate_inode(a), Ok(()));
    // So does freeing a number never handed out; the root is refused.
    assert_eq!(manager.deallocate_inode(40), Ok(()));
    assert!(matches!(manager.deallocate_inode(1), Err(VexfsError::InvalidOperation(_))));
    let b = manager.allocate_inode(FileType::Regular, FileMode::new(0o644), 0, 0).unwrap();
    let c = manager.allocate_inode(FileType::Regular, FileMode::new(0o644), 0, 0).unwrap();
    assert_eq!(b, 2);
    assert_eq!(c, 3);
    assert_eq!(manager.cache_stats(), (2, 2));
}

#[test]
fn mkfs_creates_the_root_directory() {
    let mut fs = FileSystem::new(FsConfig::default()).unwrap();
    let config = FsConfig { enable_quotas: true, ..Default::default() };
    fs.mkfs(&config).unwrap();
    let root = fs.inode_manager.get_inode(1).unwrap();
    assert_eq!(root.ino, 1);
    assert_eq!(root.file_type, FileType::Directory);
    assert_eq!(root.mode.permissions(), 0o755);
    assert_eq!(root.uid, 0);
    assert_eq!(root.gid, 0);
    assert!(fs.get_config().enable_quotas);
    // The next inode handed out is not the root.
    assert_eq!(fs.inode_manager.allocate_inode(FileType::Regular, FileMode::new(0o644), 0, 0).unwrap(), 2);
}

#[test]
fn path_text_round_trip() {
    for text in ["/", "/home/user/file.txt", "a/b", "../x/./y", "/..", "name"] {
        assert_eq!(Path::from_str(text).unwrap().to_string(), text);
    }
}
