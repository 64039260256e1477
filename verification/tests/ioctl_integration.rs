use lib::ioctl_integration::{
    determine_permissions, determine_security_level, requires_audit, IoctlLogger, LogLevel, Permission,
    ResourceUsageAggregator, RotationStrategy, UserSecurityLevel, VectorIoctlOperation,
};
use lib::fs_core::permissions::UserContext;

#[test]
fn test_enhanced_ioctl_handler_creation() {
    assert_eq!(UserSecurityLevel::Guest as u8, 0);
    assert_eq!(UserSecurityLevel::System as u8, 4);
}

#[test]
fn test_security_levels() {
    assert!(UserSecurityLevel::System > UserSecurityLevel::Admin);
    assert!(UserSecurityLevel::Admin > UserSecurityLevel::User);
    assert!(UserSecurityLevel::User > UserSecurityLevel::Guest);
}

#[test]
fn test_operation_mapping() {
    let ops = vec![
        VectorIoctlOperation::AddEmbedding,
        VectorIoctlOperation::GetEmbedding,
        VectorIoctlOperation::VectorSearch,
        VectorIoctlOperation::HybridSearch,
    ];
    assert_eq!(ops.len(), 4);
}

#[test]
fn level_ranks_follow_declaration_order() {
    assert_eq!(UserSecurityLevel::Guest.rank(), 0);
    assert_eq!(UserSecurityLevel::User.rank(), 1);
    assert_eq!(UserSecurityLevel::PowerUser.rank(), 2);
    assert_eq!(UserSecurityLevel::Admin.rank(), 3);
    assert_eq!(UserSecurityLevel::System.rank(), 4);
}

#[test]
fn security_level_by_uid_and_gid() {
    assert_eq!(determine_security_level(0, 5000), UserSecurityLevel::System);
    assert_eq!(determine_security_level(1000, 99), UserSecurityLevel::Admin);
    assert_eq!(determine_security_level(1000, 100), UserSecurityLevel::PowerUser);
    assert_eq!(determine_security_level(1000, 999), UserSecurityLevel::PowerUser);
    assert_eq!(determine_security_level(1000, 1000), UserSecurityLevel::User);
}

#[test]
fn permissions_by_level() {
    assert_eq!(determine_permissions(UserSecurityLevel::Guest), vec![Permission::ReadVector]);
    assert_eq!(
        determine_permissions(UserSecurityLevel::User),
        vec![Permission::ReadVector, Permission::SearchVector]
    );
    assert_eq!(determine_permissions(UserSecurityLevel::PowerUser).len(), 3);
    assert_eq!(determine_permissions(UserSecurityLevel::Admin).len(), 5);
    let system = determine_permissions(UserSecurityLevel::System);
    assert_eq!(system.len(), 6);
    assert_eq!(system[5], Permission::Admin);
    // each level keeps what the level below grants
    for p in determine_permissions(UserSecurityLevel::PowerUser) {
        assert!(determine_permissions(UserSecurityLevel::Admin).contains(&p));
    }
}

#[test]
fn audited_operations() {
    assert!(requires_audit(&VectorIoctlOperation::DeleteEmbedding));
    assert!(requires_audit(&VectorIoctlOperation::IndexManagement));
    assert!(!requires_audit(&VectorIoctlOperation::AddEmbedding));
    assert!(!requires_audit(&VectorIoctlOperation::BatchSearch));
}

#[test]
fn logger_defaults_and_logging() {
    let logger = IoctlLogger::new();
    assert_eq!(logger.config.log_level, LogLevel::Info);
    assert_eq!(logger.config.rotation_config.max_file_size, 100 * 1024 * 1024);
    assert_eq!(logger.config.rotation_config.rotation_strategy, RotationStrategy::SizeAndTime);
    assert_eq!(logger.log_buffer.buffer_size, 1000);
    assert_eq!(
        logger.audit_config.audit_operations,
        vec![VectorIoctlOperation::DeleteEmbedding, VectorIoctlOperation::IndexManagement]
    );
    assert_eq!(logger.audit_config.retention_days, 90);
    let user = UserContext::new(1000, 1000, &[]);
    assert!(logger.log_operation(&user, &VectorIoctlOperation::AddEmbedding, &Ok(0)).is_ok());
}

#[test]
fn aggregator_tracks_memory_and_peak() {
    let mut agg = ResourceUsageAggregator::new();
    assert_eq!(agg.get_current_memory_usage(), 0);
    agg.track_memory_allocation(100);
    agg.track_memory_allocation(50);
    assert_eq!(agg.get_current_memory_usage(), 150);
    assert_eq!(agg.get_peak_memory_usage(), 150);
    agg.track_memory_deallocation(50);
    assert_eq!(agg.get_current_memory_usage(), 100);
    assert_eq!(agg.get_peak_memory_usage(), 150);
    agg.track_memory_allocation(10);
    assert_eq!(agg.get_peak_memory_usage(), 150);
}

#[test]
fn aggregator_counters_wrap() {
    let mut agg = ResourceUsageAggregator::new();
    agg.track_memory_deallocation(1);
    assert_eq!(agg.get_current_memory_usage(), usize::MAX);
    agg.track_memory_allocation(1);
    assert_eq!(agg.get_current_memory_usage(), 0);
    agg.track_cpu_usage(u64::MAX);
    agg.track_cpu_usage(2);
    assert_eq!(agg.get_total_cpu_time(), 1);
    agg.track_io_operation(4096);
    agg.track_io_operation(10);
    assert_eq!(agg.get_total_io_operations(), 2);
}
