use lib::ipc::protocol::{
    EmbeddingRequest, ResponseStatus, ServiceCapabilities, ServiceEndpoint, ServiceInfo, VectorDataType,
};
use lib::ipc::queue_manager::{AlertThresholds, MonitorConfig, QueueManager, QueueMonitor, QueuedRequest, RequestQueue};
use lib::ipc::{IpcConfig, IpcError};

fn config(max_queue_size: usize) -> IpcConfig {
    IpcConfig {
        max_queue_size,
        request_timeout_ms: 500,
        max_concurrent_requests: 4,
        max_retry_attempts: 1,
        health_check_interval_sec: 30,
    }
}

fn request(id: u64, priority: u8) -> EmbeddingRequest {
    EmbeddingRequest {
        request_id: id,
        dimensions: 4,
        data: vec![1, 2, 3],
        data_type: VectorDataType::Float32,
        model: None,
        parameters: vec![],
        priority,
        timeout_ms: 100,
    }
}

fn service(id: &str) -> ServiceInfo {
    ServiceInfo {
        id: id.to_string(),
        name: id.to_string(),
        version: "1".to_string(),
        capabilities: ServiceCapabilities {
            supported_dimensions: vec![4],
            supported_models: vec![],
            supported_data_types: vec![VectorDataType::Float32],
            max_batch_size: 4,
        },
        endpoint: ServiceEndpoint { address: "x".to_string() },
    }
}

#[test]
fn queued_requests_come_back_in_order() {
    let mut manager = QueueManager::new(config(8));
    let response = manager.queue_request(request(1, 10), service("a")).unwrap();
    assert_eq!(response.request_id, 1);
    assert_eq!(response.status, ResponseStatus::Success);
    assert_eq!(response.error, Some("Request queued".to_string()));
    manager.queue_request(request(2, 10), service("a")).unwrap();
    assert_eq!(manager.get_queue_size(), 2);
    assert_eq!(manager.get_stats().total_enqueued, 2);
    assert_eq!(manager.dequeue_next_request().unwrap().request_id, 1);
    assert_eq!(manager.dequeue_next_request().unwrap().request_id, 2);
    assert!(manager.dequeue_next_request().is_none());
    assert_eq!(manager.get_stats().total_dequeued, 2);
}

#[test]
fn full_service_queue_spills_to_priority_queue() {
    // Service queues hold a quarter of the capacity: 2 of 8.
    let mut manager = QueueManager::new(config(8));
    for id in 1..=3 {
        manager.queue_request(request(id, 200), service("a")).unwrap();
    }
    // The third went to the priority queue, which is served first.
    assert_eq!(manager.dequeue_next_request().unwrap().request_id, 3);
    assert_eq!(manager.dequeue_next_request().unwrap().request_id, 1);
    assert_eq!(manager.dequeue_request_for_service("a").unwrap().request_id, 2);
    assert!(manager.dequeue_request_for_service("a").is_none());
}

#[test]
fn flow_control_drops_when_full() {
    let mut manager = QueueManager::new(config(4));
    for id in 0..4 {
        manager.queue_request(request(id, 255), service(&format!("s{}", id))).unwrap();
    }
    assert_eq!(manager.queue_request(request(9, 255), service("z")).err(), Some(IpcError::QueueFull));
    assert_eq!(manager.get_stats().total_dropped, 1);
    // Low priority is dropped once the backpressure passes 0.9.
    manager.record_backpressure(0.95f32.to_bits());
    assert_eq!(manager.clear_service_queue("s0"), 1);
    assert_eq!(manager.queue_request(request(10, 5), service("z")).err(), Some(IpcError::QueueFull));
    assert!(manager.queue_request(request(11, 128), service("z")).is_ok());
    assert_eq!(f32::from_bits(manager.get_flow_control_state().level_bits), 0.95);
}

#[test]
fn clearing_counts_drops() {
    let mut manager = QueueManager::new(config(8));
    manager.queue_request(request(1, 1), service("a")).unwrap();
    manager.queue_request(request(2, 1), service("b")).unwrap();
    assert_eq!(manager.clear_service_queue("missing"), 0);
    assert_eq!(manager.clear_all_queues(), 2);
    assert_eq!(manager.get_queue_size(), 0);
    assert_eq!(manager.get_stats().total_dropped, 2);
}

#[test]
fn maintenance_drops_old_requests_and_empty_queues() {
    let mut manager = QueueManager::new(config(8));
    manager.queue_request(request(1, 1), service("a")).unwrap();
    // Requests are stamped 0 and the expiry threshold is 0: all expire.
    let result = manager.perform_maintenance().unwrap();
    assert_eq!(result.expired_requests, 1);
    assert_eq!(result.removed_empty_queues, 1);
    assert_eq!(manager.get_queue_size(), 0);
}

fn queued(id: u64, service_id: &str) -> QueuedRequest {
    QueuedRequest {
        request_id: id,
        request: request(id, 1),
        service_id: service_id.to_string(),
        queued_at: id,
        priority: 1,
        retry_count: 0,
        metadata: vec![],
    }
}

#[test]
fn request_queue_keeps_its_counts() {
    let mut queue = RequestQueue::new("q".to_string(), 3);
    assert!(queue.is_empty());
    assert_eq!(queue.size(), 0);
    queue.enqueue(queued(1, "a")).unwrap();
    queue.enqueue(queued(2, "b")).unwrap();
    queue.enqueue(queued(3, "a")).unwrap();
    assert!(queue.is_full());
    assert_eq!(queue.enqueue(queued(4, "a")).err(), Some(IpcError::QueueFull));
    assert_eq!(queue.dequeue_for_service("b").unwrap().request_id, 2);
    assert_eq!(queue.dequeue().unwrap().request_id, 1);
    assert_eq!(queue.remove_expired(2), 0);
    assert_eq!(queue.remove_expired(3), 1);
    queue.enqueue(queued(5, "c")).unwrap();
    assert_eq!(queue.clear(), 1);
    // Every request that entered left by being taken or dropped.
    let s = queue.stats;
    assert_eq!(s.total_enqueued, 4);
    assert_eq!(s.total_dequeued, 2);
    assert_eq!(s.total_dropped, 2);
    assert_eq!(s.total_enqueued, s.total_dequeued + s.total_dropped + queue.size() as u64);
}

#[test]
fn monitor_keeps_no_old_snapshots() {
    let manager = QueueManager::new(config(8));
    let mut monitor = QueueMonitor::new(MonitorConfig { interval_sec: 1, retention_sec: 0, enable_alerts: false });
    monitor.record_metrics(&manager);
    assert!(monitor.get_recent_metrics(0).is_empty());
    let thresholds = AlertThresholds::default();
    assert_eq!(f32::from_bits(thresholds.critical_utilization_bits), 0.9);
    assert_eq!(thresholds.high_wait_time_ms, 1000);
}
