use lib::ipc::protocol::{EmbeddingResponse, ResponseStatus};
use lib::ipc::request_handler::RequestMetrics;
use lib::ipc::response_manager::{
    Aggregation, AggregationCondition, AggregationRule, AggregationType, ResponseAggregator,
};
use lib::ipc::IpcError;

#[test]
fn latency_percentiles_by_rank() {
    let mut metrics = RequestMetrics::new();
    assert_eq!(metrics.latency_at_rank(0), None);
    metrics.record_latency(1_400); // 1 ms
    metrics.record_latency(1_600); // 2 ms
    metrics.record_latency(2_100); // 2 ms
    metrics.record_latency(9_000); // 9 ms
    assert_eq!(metrics.latency_sample_count(), Some(4));
    assert_eq!(metrics.latency_at_rank(1), Some(1));
    assert_eq!(metrics.latency_at_rank(2), Some(2));
    assert_eq!(metrics.latency_at_rank(3), Some(2));
    assert_eq!(metrics.latency_at_rank(4), Some(9));
    assert_eq!(metrics.latency_at_rank(5), None);
}

#[test]
fn most_common_error_and_success_rate() {
    let mut metrics = RequestMetrics::new();
    assert_eq!(metrics.get_most_common_error(), None);
    metrics.record_error("timeout");
    metrics.record_error("refused");
    metrics.record_error("timeout");
    let (kind, count) = metrics.get_most_common_error().unwrap();
    assert_eq!(kind, "timeout");
    assert_eq!(count, 2);
    metrics.record_error("refused");
    // Equal counts: the last kind in order wins.
    assert_eq!(metrics.get_most_common_error().unwrap().0, "timeout");
    assert_eq!(metrics.get_current_success_rate(), None);
    for t in 0..1001u64 {
        metrics.record_success_rate(t, (t as f64 / 1000.0).to_bits());
    }
    assert_eq!(f64::from_bits(metrics.get_current_success_rate().unwrap()), 1.0);
    metrics.record_size(2048);
}

fn response(id: u64, status: ResponseStatus, embedding: Option<Vec<f32>>, time_us: u64) -> EmbeddingResponse {
    EmbeddingResponse {
        request_id: id,
        status,
        embedding: embedding.map(|e| e.into_iter().map(|v| v.to_bits()).collect()),
        error: None,
        processing_time_us: time_us,
        model_used: None,
        metadata: vec![],
    }
}

#[test]
fn aggregation_picks_by_rule() {
    let mut aggregator = ResponseAggregator::new();
    assert_eq!(
        aggregator.aggregate_responses(&[]).err(),
        Some(IpcError::InvalidMessage("No responses to aggregate".to_string()))
    );
    let responses = vec![
        response(1, ResponseStatus::Error, None, 1000),
        response(2, ResponseStatus::Success, Some(vec![1.0, 2.0]), 2000),
        response(3, ResponseStatus::Success, Some(vec![3.0, 4.0]), 4000),
    ];
    match aggregator.aggregate_responses(&responses).unwrap() {
        Aggregation::Response(r) => assert_eq!(r.request_id, 2),
        Aggregation::Average(_) => panic!("no rule averages"),
    }
    aggregator.add_rule(AggregationRule {
        name: "avg".to_string(),
        aggregation_type: AggregationType::Average,
        weight_bits: 1.0f32.to_bits(),
        condition: AggregationCondition { min_responses: 2, max_response_time_ms: 10, required_service_types: vec![] },
    });
    match aggregator.aggregate_responses(&responses).unwrap() {
        Aggregation::Average(positions) => assert_eq!(positions, vec![1, 2]),
        Aggregation::Response(_) => panic!("the averaging rule applies"),
    }
    // Too slow for the rule: the first success is taken.
    let slow = vec![response(4, ResponseStatus::Success, Some(vec![1.0]), 50_000)];
    match aggregator.aggregate_responses(&slow).unwrap() {
        Aggregation::Response(r) => assert_eq!(r.request_id, 4),
        Aggregation::Average(_) => panic!("the rule does not apply"),
    }
}
