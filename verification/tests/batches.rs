use lib::fs_core::permissions::UserContext;
use lib::ipc::protocol::{EmbeddingResponse, ResponseStatus};
use lib::ipc::request_handler::RequestHandler;
use lib::ipc::response_manager::{CallbackType, ResponseCallback, ResponseManager};
use lib::ipc::{IpcConfig, IpcError};
use lib::vector_storage::VectorDataType;

fn config(max_concurrent_requests: usize) -> IpcConfig {
    IpcConfig {
        max_queue_size: 10,
        request_timeout_ms: 5000,
        max_concurrent_requests,
        max_retry_attempts: 3,
        health_check_interval_sec: 30,
    }
}

fn good() -> (u32, Vec<u8>, VectorDataType, Option<String>) {
    (2, vec![0u8; 8], VectorDataType::Float32, None)
}

#[test]
fn batch_accepts_every_request_in_order() {
    let mut h = RequestHandler::new(config(8));
    let user = UserContext::new(1000, 1000, &[]);
    let ids = h.submit_batch_request(vec![good(), good(), good()], 3, &user).unwrap();
    assert_eq!(ids, vec![1, 2, 3]);
    assert_eq!(h.get_total_requests(), 3);
    assert_eq!(h.get_active_request(2).unwrap().priority, 3);
}

#[test]
fn batch_stops_at_an_invalid_request() {
    let mut h = RequestHandler::new(config(8));
    let user = UserContext::new(1000, 1000, &[]);
    let bad = (0, vec![1u8], VectorDataType::Int8, None);
    let r = h.submit_batch_request(vec![good(), bad, good()], 1, &user);
    assert!(matches!(r, Err(IpcError::InvalidMessage(m)) if m == "Invalid dimensions"));
    // the first request stays accepted, the third was never submitted
    assert_eq!(h.get_total_requests(), 1);
    assert!(h.get_active_request(1).is_ok());
    assert!(h.get_active_request(2).is_err());
}

#[test]
fn batch_stops_when_the_handler_is_full() {
    let mut h = RequestHandler::new(config(2));
    let user = UserContext::new(1000, 1000, &[]);
    let r = h.submit_batch_request(vec![good(), good(), good()], 1, &user);
    assert!(matches!(r, Err(IpcError::QueueFull)));
    assert_eq!(h.get_total_requests(), 2);
    assert!(h.get_active_request(1).is_ok());
    assert!(h.get_active_request(2).is_ok());
}

#[test]
fn batch_refusals_before_any_request() {
    let mut h = RequestHandler::new(config(8));
    let user = UserContext::new(1000, 1000, &[]);
    assert!(matches!(h.submit_batch_request(vec![], 1, &user), Err(IpcError::InvalidMessage(m)) if m == "Empty batch request"));
    let many = vec![good(); 11];
    assert!(matches!(h.submit_batch_request(many, 1, &user), Err(IpcError::InvalidMessage(m)) if m == "Batch too large"));
    assert_eq!(h.get_total_requests(), 0);
}

fn response(id: u64, status: ResponseStatus) -> EmbeddingResponse {
    EmbeddingResponse {
        request_id: id,
        status,
        embedding: None,
        error: None,
        processing_time_us: 5,
        model_used: None,
        metadata: vec![],
    }
}

fn callback() -> ResponseCallback {
    ResponseCallback { callback_type: CallbackType::Polling, user_context: 7, process_id: 1, thread_id: 2 }
}

#[test]
fn batch_responses_are_handed_over_in_order() {
    let mut m = ResponseManager::new(config(8));
    m.register_pending_response(1, "svc".to_string(), callback()).unwrap();
    m.register_pending_response(2, "svc".to_string(), callback()).unwrap();
    let ds = m
        .handle_batch_response(vec![response(1, ResponseStatus::Success), response(2, ResponseStatus::Error)])
        .unwrap();
    assert_eq!(ds.len(), 2);
    assert_eq!(ds[0].request_id, 1);
    assert_eq!(ds[1].request_id, 2);
    assert_eq!(ds[1].service_id, "svc");
    assert!(m.get_pending_response(1).is_none());
    assert!(m.get_pending_response(2).is_none());
}

#[test]
fn batch_response_stops_at_an_unknown_request() {
    let mut m = ResponseManager::new(config(8));
    m.register_pending_response(1, "svc".to_string(), callback()).unwrap();
    m.register_pending_response(3, "svc".to_string(), callback()).unwrap();
    let r = m.handle_batch_response(vec![
        response(1, ResponseStatus::Success),
        response(2, ResponseStatus::Success),
        response(3, ResponseStatus::Success),
    ]);
    assert!(matches!(r, Err(IpcError::CorrelationFailed(2))));
    // the first was handed over, the third is still waited for
    assert!(m.get_pending_response(1).is_none());
    assert!(m.get_pending_response(3).is_some());
    // a response repeated within a batch finds its request gone
    let r = m.handle_batch_response(vec![response(3, ResponseStatus::Success), response(3, ResponseStatus::Success)]);
    assert!(matches!(r, Err(IpcError::CorrelationFailed(3))));
    assert!(m.get_pending_response(3).is_none());
}

#[test]
fn request_totals_balance() {
    let mut h = RequestHandler::new(config(8));
    let user = UserContext::new(1000, 1000, &[]);
    h.submit_batch_request(vec![good(), good(), good()], 1, &user).unwrap();
    h.complete_request(1, response(1, ResponseStatus::Success)).unwrap();
    for _ in 0..4 {
        h.fail_request(2, "boom".to_string()).unwrap();
    }
    let s = h.get_stats();
    assert_eq!(s.total_requests, 3);
    assert_eq!(s.successful_requests, 1);
    assert_eq!(s.failed_requests, 1);
    assert_eq!(s.current_active_requests, 1);
    assert_eq!(s.total_requests, s.successful_requests + s.failed_requests + s.timeout_requests + s.current_active_requests as u64);
    assert!(s.peak_concurrent_requests >= s.current_active_requests);
    assert_eq!(s.peak_concurrent_requests, 3);
}
