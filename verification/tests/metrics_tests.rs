use lt_engine::executor::{ErrorType, ResponseResult};
use lt_engine::metrics::MetricsAggregator;
use lt_engine::text::u64_to_string;
use lt_engine::vu_runner::endpoint_key;
use lt_engine::schema::StepMethod;

fn response(ok: bool, latency_ms: u64, key: &str, stage: u64) -> ResponseResult {
    ResponseResult {
        ok,
        latency_ms,
        latency_us: latency_ms * 1000,
        error_kind: if ok { None } else { Some(ErrorType::ConnectionError) },
        endpoint_key: key.to_string(),
        journey_name: "walk".to_string(),
        journey_id: 0,
        stage_index: stage,
        stage_start_ms: 0,
    }
}

#[test]
fn it_consume_totals_split_into_ok_and_error() {
    let mut m = MetricsAggregator::new();
    m.consume(response(true, 12, "GET /ok", 0), 100);
    m.consume(response(false, 30, "GET /ok", 0), 200);
    m.consume(response(true, 7, "POST /buy", 0), 300);

    assert_eq!(3, m.total_requests);
    assert_eq!(2, m.ok_requests);
    assert_eq!(1, m.error_requests);
    assert_eq!(m.total_requests, m.ok_requests + m.error_requests);
    assert_eq!(vec![12, 30, 7], m.latency);
    assert_eq!(7, m.latency_min);
    assert_eq!(30, m.latency_max);
    assert_eq!(49, m.latency_sum);

    assert_eq!(2, m.by_endpoint.len());
    let ok_entry = &m.by_endpoint[0];
    assert_eq!("GET /ok", ok_entry.0);
    assert_eq!(2, ok_entry.1.request.total);
    assert_eq!(1, ok_entry.1.request.ok);
    assert_eq!(1, ok_entry.1.request.error);
    assert_eq!(100, ok_entry.1.first_at_ms);
    assert_eq!(200, ok_entry.1.last_at_ms);
    // 2 requests over a 100 ms window: twenty per second.
    assert_eq!(20, ok_entry.1.achieved_rps);

    let sum: u64 = m.by_endpoint.iter().map(|(_, s)| s.request.total).sum();
    assert_eq!(m.total_requests, sum);

    assert_eq!(1, m.by_journey.len());
    assert_eq!("walk", m.by_journey[0].0);
    assert_eq!((0, 3), m.by_journey[0].1);
}

#[test]
fn it_latencies_above_a_minute_are_clamped() {
    let mut m = MetricsAggregator::new();
    let mut over = response(true, 100_000_000, "GET /slow", 0);
    over.latency_us = 100_000_000_000;
    m.consume(over, 10);

    assert_eq!(1, m.overall_latency.hist.len());
    // The sample was clamped into the histogram's sixty-second range: what
    // stands in the histogram is the bucket of sixty million microseconds.
    let h = &m.overall_latency.hist;
    assert!(h.max() <= h.highest_equivalent(60_000_000));
    assert!(h.min() >= h.lowest_equivalent(60_000_000) / 2);
    assert_eq!(1, h.count_between(59_000_000, 61_000_000));
}

#[test]
fn it_stage_records_open_on_first_completion() {
    let mut m = MetricsAggregator::new();
    let mut first = response(true, 5, "GET /ok", 1);
    first.stage_start_ms = 2000;
    m.consume(first, 2000);
    m.consume(response(true, 5, "GET /ok", 1), 2500);

    assert_eq!(1, m.by_stage.len());
    let (idx, stage) = &m.by_stage[0];
    assert_eq!(1, *idx);
    assert_eq!(2, stage.request_count);
    assert_eq!(2000, stage.stage_started_ms);
    assert_eq!(500, stage.stage_duration_ms);
    // 2 requests over half a second: four per second.
    assert_eq!(4, stage.achieved_rps);
}

#[test]
fn it_endpoint_keys_join_method_and_path() {
    assert_eq!("GET /ok", endpoint_key(StepMethod::GET, "/ok"));
    assert_eq!("DELETE /x/y", endpoint_key(StepMethod::DELETE, "/x/y"));
}

#[test]
fn it_decimal_rendering_matches() {
    assert_eq!("0", u64_to_string(0));
    assert_eq!("7", u64_to_string(7));
    assert_eq!("12345", u64_to_string(12345));
    assert_eq!("18446744073709551615", u64_to_string(u64::MAX));
}
