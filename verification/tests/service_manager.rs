use lib::ipc::protocol::{
    HealthStatus, ServiceCapabilities, ServiceEndpoint, ServiceHealth, ServiceInfo, ServiceLoadInfo, ServiceState,
    VectorDataType,
};
use lib::ipc::service_manager::ServiceManager;
use lib::ipc::{IpcConfig, IpcError};

fn config() -> IpcConfig {
    IpcConfig {
        max_queue_size: 100,
        request_timeout_ms: 30000,
        max_concurrent_requests: 10,
        max_retry_attempts: 3,
        health_check_interval_sec: 30,
    }
}

fn info(id: &str, address: &str) -> ServiceInfo {
    ServiceInfo {
        id: id.to_string(),
        name: id.to_string(),
        version: "1".to_string(),
        capabilities: ServiceCapabilities {
            supported_dimensions: vec![128],
            supported_models: vec![],
            supported_data_types: vec![VectorDataType::Float32],
            max_batch_size: 8,
        },
        endpoint: ServiceEndpoint { address: address.to_string() },
    }
}

fn load(cpu: f32) -> ServiceLoadInfo {
    ServiceLoadInfo {
        cpu_usage_bits: cpu.to_bits(),
        memory_usage_bits: 0.0f32.to_bits(),
        active_requests: 0,
        queue_depth: 0,
        avg_response_time_ms: 0,
    }
}

#[test]
fn registration_checks_the_endpoint() {
    let mut manager = ServiceManager::new(config());
    assert_eq!(
        manager.register_service(info("a", "")),
        Err(IpcError::RegistrationFailed("Invalid endpoint address".to_string()))
    );
    assert_eq!(manager.register_service(info("a", "sock")), Ok(()));
    assert_eq!(
        manager.register_service(info("a", "sock")),
        Err(IpcError::RegistrationFailed("Service already registered".to_string()))
    );
    assert_eq!(manager.get_service("a").unwrap().status, ServiceState::Starting);
}

#[test]
fn monitoring_schedules_checks() {
    let mut manager = ServiceManager::new(config());
    manager.start_health_monitoring().unwrap();
    manager.start_discovery().unwrap();
    manager.register_service(info("a", "sock")).unwrap();
    let stats = manager.get_manager_stats();
    assert_eq!(stats.total_services, 1);
    assert_eq!(stats.pending_health_checks, 1);
    assert!(stats.discovery_active);
    assert!(stats.health_monitoring_active);
    manager.handle_heartbeat("a", load(0.2)).unwrap();
    assert_eq!(manager.get_manager_stats().pending_health_checks, 0);
    assert_eq!(manager.get_manager_stats().active_services, 1);
    let health = ServiceHealth { status: HealthStatus::Healthy, score: 95, last_check: 0, details: vec![] };
    manager.handle_health_response("a", health).unwrap();
    assert_eq!(manager.get_manager_stats().pending_health_checks, 1);
    let m = manager.perform_maintenance().unwrap();
    assert_eq!(m.expired_services, 0);
    assert_eq!(m.failed_health_checks, 0);
    assert_eq!(m.scheduled_health_checks, 0);
    manager.stop_health_monitoring().unwrap();
    assert_eq!(manager.get_manager_stats().pending_health_checks, 0);
    manager.stop_discovery().unwrap();
    assert!(!manager.get_manager_stats().discovery_active);
}

#[test]
fn unknown_services_are_reported() {
    let mut manager = ServiceManager::new(config());
    assert_eq!(manager.handle_heartbeat("x", load(0.1)), Err(IpcError::ServiceNotFound("x".to_string())));
    assert_eq!(manager.unregister_service("x"), Err(IpcError::ServiceNotFound("x".to_string())));
    let health = ServiceHealth { status: HealthStatus::Healthy, score: 1, last_check: 0, details: vec![] };
    assert_eq!(manager.handle_health_response("x", health), Err(IpcError::ServiceNotFound("x".to_string())));
    assert_eq!(manager.update_service_stats("x", 5, true), Err(IpcError::ServiceNotFound("x".to_string())));
}

#[test]
fn statistics_flow_through_the_registry() {
    let mut manager = ServiceManager::new(config());
    manager.register_service(info("a", "sock")).unwrap();
    manager.update_service_stats("a", 50, true).unwrap();
    manager.update_service_stats("a", 150, false).unwrap();
    let stats = manager.get_service_stats("a").unwrap();
    assert_eq!(stats.avg_response_time_us, 60);
    let ms = manager.get_manager_stats();
    assert_eq!(ms.total_requests, 2);
    assert_eq!(ms.successful_requests, 1);
    assert_eq!(ms.failed_requests, 1);
    assert_eq!(manager.unregister_service("a"), Ok(()));
    assert_eq!(manager.get_manager_stats().total_services, 0);
}
