use lib::ipc::load_balancer::{
    AdvancedLoadBalancer, CircuitState, LoadBalancer, LoadBalancerConfig, LoadBalancingAlgorithm,
    LoadBalancingStrategy, RequestFilter,
};
use lib::ipc::protocol::{EmbeddingRequest, ServiceCapabilities, ServiceEndpoint, ServiceInfo, VectorDataType};
use lib::ipc::IpcError;

fn request(id: u64, dimensions: u32) -> EmbeddingRequest {
    EmbeddingRequest {
        request_id: id,
        dimensions,
        data: vec![],
        data_type: VectorDataType::Float32,
        model: None,
        parameters: vec![],
        priority: 128,
        timeout_ms: 1000,
    }
}

fn info(id: &str) -> ServiceInfo {
    ServiceInfo {
        id: id.to_string(),
        name: id.to_string(),
        version: "1".to_string(),
        capabilities: ServiceCapabilities {
            supported_dimensions: vec![128],
            supported_models: vec![],
            supported_data_types: vec![VectorDataType::Float32],
            max_batch_size: 8,
        },
        endpoint: ServiceEndpoint { address: "a".to_string() },
    }
}

#[test]
fn default_config_values() {
    let config = LoadBalancerConfig::default();
    assert_eq!(config.default_algorithm, LoadBalancingAlgorithm::LoadBased);
    assert!(!config.enable_sticky_sessions);
    assert_eq!(config.session_timeout_sec, 300);
    assert_eq!(f32::from_bits(config.health_weight_bits), 0.3);
    assert_eq!(f32::from_bits(config.load_weight_bits), 0.4);
    assert_eq!(config.circuit_breaker_threshold, 5);
}

#[test]
fn selection_fails_without_services_and_is_counted() {
    let mut balancer = LoadBalancer::new();
    let r = balancer.select_service(&request(1, 128));
    assert_eq!(r.err(), Some(IpcError::ServiceUnavailable("No services available".to_string())));
    let stats = balancer.get_stats();
    assert_eq!(stats.total_requests, 1);
    assert_eq!(stats.failed_selections, 1);
    assert_eq!(stats.sticky_session_hits, 0);
}

#[test]
fn circuit_breaker_opens_after_threshold_failures() {
    let mut config = LoadBalancerConfig::default();
    config.circuit_breaker_threshold = 3;
    let mut balancer = LoadBalancer::with_config(config);
    balancer.add_service(info("svc")).unwrap();
    for _ in 0..2 {
        balancer.record_response("svc", false, 10).unwrap();
    }
    assert_eq!(balancer.get_stats().circuit_breaker_trips, 0);
    balancer.record_response("svc", false, 10).unwrap();
    assert_eq!(balancer.get_stats().circuit_breaker_trips, 1);
    // The retry time (now + 60) has not come, so maintenance leaves it open.
    let m = balancer.perform_maintenance().unwrap();
    assert_eq!(m.circuit_breakers_reset, 0);
    assert_eq!(m.expired_sessions, 0);
    // A success clears the failures but an open breaker stays open.
    balancer.record_response("svc", true, 10).unwrap();
    balancer.record_response("svc", false, 10).unwrap();
    assert_eq!(balancer.get_stats().circuit_breaker_trips, 1);
    // Responses of unknown services change nothing.
    balancer.record_response("other", false, 10).unwrap();
    assert_eq!(balancer.get_stats().circuit_breaker_trips, 1);
    assert_eq!(CircuitState::Open, CircuitState::Open);
}

#[test]
fn weights_are_checked() {
    let mut balancer = LoadBalancer::new();
    assert_eq!(balancer.set_service_weight("svc", 2.5f32.to_bits()), Ok(()));
    assert_eq!(balancer.set_service_weight("svc", 10.0f32.to_bits()), Ok(()));
    assert_eq!(
        balancer.set_service_weight("svc", 10.5f32.to_bits()),
        Err(IpcError::InvalidMessage("Invalid weight".to_string()))
    );
    assert_eq!(
        balancer.set_service_weight("svc", (-0.5f32).to_bits()),
        Err(IpcError::InvalidMessage("Invalid weight".to_string()))
    );
    assert_eq!(balancer.remove_service("svc"), Ok(()));
}

#[test]
fn strategies_are_kept_by_priority() {
    let mut balancer = AdvancedLoadBalancer::new(LoadBalancerConfig::default());
    let filter = |lo: u32, hi: u32| RequestFilter {
        dimension_ranges: Some(vec![(lo, hi)]),
        data_types: None,
        models: None,
        batch_size_ranges: None,
    };
    balancer.add_strategy(LoadBalancingStrategy {
        algorithm: LoadBalancingAlgorithm::RoundRobin,
        request_filter: filter(0, 100),
        priority: 5,
    });
    balancer.add_strategy(LoadBalancingStrategy {
        algorithm: LoadBalancingAlgorithm::Priority,
        request_filter: filter(100, 200),
        priority: 9,
    });
    let r = balancer.select_service_with_strategy(&request(7, 150));
    assert_eq!(r.err(), Some(IpcError::ServiceUnavailable("No services available".to_string())));
    let r = balancer.select_service_with_strategy(&request(8, 5000));
    assert_eq!(r.err(), Some(IpcError::ServiceUnavailable("No services available".to_string())));
}
