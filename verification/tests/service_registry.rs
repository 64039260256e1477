use lib::ipc::protocol::{
    HealthStatus, ServiceCapabilities, ServiceEndpoint, ServiceHealth, ServiceInfo, ServiceLoadInfo, ServiceState,
    VectorDataType,
};
use lib::ipc::service_registry::{
    RegisteredService, RegistryConfig, ServiceFilter, ServiceRegistry, ServiceStats,
};
use lib::ipc::IpcError;

fn info(id: &str, dims: Vec<u32>, models: Vec<&str>) -> ServiceInfo {
    ServiceInfo {
        id: id.to_string(),
        name: format!("{} service", id),
        version: "1.0".to_string(),
        capabilities: ServiceCapabilities {
            supported_dimensions: dims,
            supported_models: models.into_iter().map(|m| m.to_string()).collect(),
            supported_data_types: vec![VectorDataType::Float32],
            max_batch_size: 32,
        },
        endpoint: ServiceEndpoint { address: "local".to_string() },
    }
}

fn load(cpu: f32, memory: f32) -> ServiceLoadInfo {
    ServiceLoadInfo {
        cpu_usage_bits: cpu.to_bits(),
        memory_usage_bits: memory.to_bits(),
        active_requests: 0,
        queue_depth: 0,
        avg_response_time_ms: 0,
    }
}

#[test]
fn registration_is_recorded_as_starting() {
    let mut registry = ServiceRegistry::new();
    assert_eq!(registry.register_service(info("alpha", vec![128], vec!["m1"])), Ok(()));
    let service = registry.get_service("alpha").unwrap();
    assert_eq!(service.status, ServiceState::Starting);
    assert_eq!(service.priority, 128);
    assert_eq!(service.health.status, HealthStatus::Unknown);
    assert_eq!(registry.get_service_stats("alpha").unwrap(), ServiceStats::default());
    assert_eq!(registry.get_active_service_count(), 0);
}

#[test]
fn registration_errors() {
    let mut registry = ServiceRegistry::new();
    assert_eq!(
        registry.register_service(info("", vec![128], vec![])),
        Err(IpcError::RegistrationFailed("Invalid service ID".to_string()))
    );
    assert_eq!(
        registry.register_service(info("beta", vec![], vec![])),
        Err(IpcError::RegistrationFailed("No supported dimensions".to_string()))
    );
    let mut zero_batch = info("beta", vec![64], vec![]);
    zero_batch.capabilities.max_batch_size = 0;
    assert_eq!(
        registry.register_service(zero_batch),
        Err(IpcError::RegistrationFailed("Invalid batch size".to_string()))
    );
    let mut no_name = info("beta", vec![64], vec![]);
    no_name.name = String::new();
    assert_eq!(
        registry.register_service(no_name),
        Err(IpcError::RegistrationFailed("Invalid service name".to_string()))
    );
    assert_eq!(registry.register_service(info("beta", vec![64], vec![])), Ok(()));
    assert_eq!(
        registry.register_service(info("beta", vec![64], vec![])),
        Err(IpcError::RegistrationFailed("Service already registered".to_string()))
    );
}

#[test]
fn full_registry_refuses() {
    let mut config = RegistryConfig::default();
    config.max_services = 1;
    let mut registry = ServiceRegistry::with_config(config);
    assert_eq!(registry.register_service(info("a", vec![8], vec![])), Ok(()));
    assert_eq!(
        registry.register_service(info("b", vec![8], vec![])),
        Err(IpcError::RegistrationFailed("Registry full".to_string()))
    );
}

#[test]
fn unregister_then_lookup_fails() {
    let mut registry = ServiceRegistry::new();
    registry.register_service(info("gamma", vec![8], vec![])).unwrap();
    assert_eq!(registry.unregister_service("gamma"), Ok(()));
    assert_eq!(registry.get_service("gamma").err(), Some(IpcError::ServiceNotFound("gamma".to_string())));
    assert_eq!(registry.get_service_stats("gamma"), Err(IpcError::ServiceNotFound("gamma".to_string())));
    assert_eq!(registry.unregister_service("gamma"), Err(IpcError::ServiceNotFound("gamma".to_string())));
}

#[test]
fn heartbeat_sets_state_from_load() {
    let mut registry = ServiceRegistry::new();
    registry.register_service(info("a", vec![8], vec![])).unwrap();
    registry.update_heartbeat("a", load(0.5, 0.2)).unwrap();
    assert_eq!(registry.get_service("a").unwrap().status, ServiceState::Ready);
    let stats = registry.get_service_stats("a").unwrap();
    assert_eq!(f32::from_bits(stats.current_load_bits), 0.5);
    assert_eq!(f32::from_bits(stats.peak_load_bits), 0.5);
    registry.update_heartbeat("a", load(0.1, 0.8)).unwrap();
    assert_eq!(registry.get_service("a").unwrap().status, ServiceState::Busy);
    registry.update_heartbeat("a", load(0.95, 0.1)).unwrap();
    assert_eq!(registry.get_service("a").unwrap().status, ServiceState::Overloaded);
    assert_eq!(f32::from_bits(registry.get_service_stats("a").unwrap().peak_load_bits), 0.95);
    registry.update_heartbeat("a", load(0.3, 0.3)).unwrap();
    let stats = registry.get_service_stats("a").unwrap();
    assert_eq!(f32::from_bits(stats.current_load_bits), 0.3);
    assert_eq!(f32::from_bits(stats.peak_load_bits), 0.95);
    assert_eq!(
        registry.update_heartbeat("zzz", load(0.3, 0.3)),
        Err(IpcError::ServiceNotFound("zzz".to_string()))
    );
}

#[test]
fn health_update_replaces_report() {
    let mut registry = ServiceRegistry::new();
    registry.register_service(info("a", vec![8], vec![])).unwrap();
    let health = ServiceHealth { status: HealthStatus::Healthy, score: 90, last_check: 7, details: vec![] };
    registry.update_health("a", health).unwrap();
    assert_eq!(registry.get_service("a").unwrap().health.score, 90);
    let health = ServiceHealth { status: HealthStatus::Healthy, score: 90, last_check: 7, details: vec![] };
    assert_eq!(registry.update_health("b", health), Err(IpcError::ServiceNotFound("b".to_string())));
}

#[test]
fn request_statistics_average_moves_a_tenth() {
    let mut registry = ServiceRegistry::new();
    registry.register_service(info("a", vec![8], vec![])).unwrap();
    registry.update_service_stats("a", 100, true).unwrap();
    registry.update_service_stats("a", 200, false).unwrap();
    let stats = registry.get_service_stats("a").unwrap();
    assert_eq!(stats.total_requests, 2);
    assert_eq!(stats.successful_requests, 1);
    assert_eq!(stats.failed_requests, 1);
    assert_eq!(stats.avg_response_time_us, 110);
    registry.record_error_rate("a", 0.5f64.to_bits()).unwrap();
    assert_eq!(f64::from_bits(registry.get_service_stats("a").unwrap().error_rate_bits), 0.5);
    assert_eq!(registry.update_service_stats("b", 1, true), Err(IpcError::ServiceNotFound("b".to_string())));
}

#[test]
fn queries_pick_available_services_by_id() {
    let mut registry = ServiceRegistry::new();
    registry.register_service(info("b", vec![128, 256], vec!["m1"])).unwrap();
    registry.register_service(info("a", vec![128], vec!["m2"])).unwrap();
    registry.register_service(info("c", vec![256], vec!["m1", "m2"])).unwrap();
    registry.update_heartbeat("a", load(0.1, 0.1)).unwrap();
    registry.update_heartbeat("b", load(0.8, 0.1)).unwrap();
    registry.update_heartbeat("c", load(0.99, 0.1)).unwrap();

    let ids = |v: Vec<&RegisteredService>| v.iter().map(|s| s.info.id.clone()).collect::<Vec<String>>();
    assert_eq!(ids(registry.get_active_services()), vec!["a", "b"]);
    assert_eq!(registry.get_active_service_count(), 2);
    assert_eq!(ids(registry.find_services_by_dimensions(128)), vec!["a", "b"]);
    assert_eq!(ids(registry.find_services_by_dimensions(256)), vec!["b"]);
    assert_eq!(ids(registry.find_services_by_model("m2")), vec!["a"]);
    assert_eq!(ids(registry.get_services_by_priority()), vec!["a", "b"]);

    let required = ServiceCapabilities {
        supported_dimensions: vec![128, 256],
        supported_models: vec!["m1".to_string(), "m9".to_string()],
        supported_data_types: vec![VectorDataType::Float32],
        max_batch_size: 16,
    };
    assert_eq!(ids(registry.find_services_by_capabilities(&required)), vec!["b"]);

    let mut filter = ServiceFilter::new();
    filter.max_load_bits = Some(0.5f32.to_bits());
    assert_eq!(ids(registry.find_services_with_filter(&filter)), vec!["a"]);
    assert_eq!(registry.loads(), vec![0.1f32.to_bits(), 0.8f32.to_bits(), 0.99f32.to_bits()]);
}

#[test]
fn filter_checks_each_condition() {
    let service = RegisteredService {
        info: info("a", vec![128], vec!["m1"]),
        registered_at: 0,
        last_heartbeat: 0,
        status: ServiceState::Ready,
        health: ServiceHealth { status: HealthStatus::Healthy, score: 70, last_check: 0, details: vec![] },
        load_info: load(0.4, 0.6),
        tags: vec!["gpu".to_string()],
        priority: 10,
    };
    assert!(ServiceFilter::new().matches(&service));
    let mut f = ServiceFilter::new();
    f.dimensions = Some(vec![128, 64]);
    assert!(!f.matches(&service));
    let mut f = ServiceFilter::new();
    f.data_types = Some(vec![VectorDataType::Int8]);
    assert!(!f.matches(&service));
    let mut f = ServiceFilter::new();
    f.models = Some(vec!["x".to_string(), "m1".to_string()]);
    assert!(f.matches(&service));
    let mut f = ServiceFilter::new();
    f.min_batch_size = Some(33);
    assert!(!f.matches(&service));
    let mut f = ServiceFilter::new();
    f.max_load_bits = Some(0.5f32.to_bits());
    assert!(!f.matches(&service));
    let mut f = ServiceFilter::new();
    f.min_health_score = Some(71);
    assert!(!f.matches(&service));
    let mut f = ServiceFilter::new();
    f.tags = Some(vec!["gpu".to_string()]);
    assert!(f.matches(&service));
    let mut f = ServiceFilter::new();
    f.min_priority = Some(11);
    assert!(!f.matches(&service));
}

#[test]
fn registry_statistics_sum_requests() {
    let mut registry = ServiceRegistry::new();
    registry.register_service(info("a", vec![8], vec![])).unwrap();
    registry.register_service(info("b", vec![8], vec![])).unwrap();
    registry.update_heartbeat("a", load(0.2, 0.2)).unwrap();
    registry.update_service_stats("a", 10, true).unwrap();
    registry.update_service_stats("b", 10, false).unwrap();
    registry.update_service_stats("b", 10, true).unwrap();
    let stats = registry.get_registry_stats(0.25f32.to_bits());
    assert_eq!(stats.total_services, 2);
    assert_eq!(stats.active_services, 1);
    assert_eq!(stats.total_requests, 3);
    assert_eq!(stats.successful_requests, 2);
    assert_eq!(stats.failed_requests, 1);
    assert_eq!(f32::from_bits(stats.average_load_bits), 0.25);
    assert!(registry.cleanup_expired_services().is_empty());
    assert_eq!(registry.get_registry_stats(0).total_services, 2);
}
