use lt_engine::events::{Event, EventSink};
use lt_engine::execution_plan::ExecutionPlan;
use lt_engine::run_engine::RunEngine;
use lt_engine::schema::{Journey, Scenario, Stage, Step, StepMethod, Target, Workload};

fn get_step(path: &str) -> Step {
    Step::Request {
        method: StepMethod::GET,
        path: path.to_string(),
        headers: None,
        body: None,
        timeout_ms: None,
    }
}

fn one_journey_scenario(stages: Vec<Stage>) -> Scenario {
    Scenario {
        version: 1,
        name: "single".to_string(),
        target: Target {
            base_url: "http://localhost:8080".to_string(),
            default_headers: None,
            insecure_tls: None,
        },
        workload: Workload { stages },
        journeys: vec![Journey {
            name: "walk".to_string(),
            weight: 1,
            steps: vec![get_step("/ok")],
        }],
        description: None,
        tags: None,
        thresholds: None,
    }
}

#[test]
fn it_mock_run_single_stage_counts_every_tick() {
    let scenario = one_journey_scenario(vec![Stage { duration_sec: 2, rps: 5 }]);
    let plan = ExecutionPlan::from_scenario(&scenario);
    let sink = EventSink::<Event>::noop();
    let engine = RunEngine::new(Some(true), Some(false));
    let (report, metrics) = engine.run_deterministic(&plan, &scenario, &sink);

    assert_eq!(10, report.run.total_ticks);
    assert_eq!(10, report.ticks_arrival.total);
    assert_eq!(10, report.requests.total);
    assert_eq!(10, report.requests.ok);
    assert_eq!(0, report.requests.error);
    assert_eq!(0, report.error_and_quality.http_error_rate);
    assert_eq!(1000, report.vus.count);
    assert_eq!(2000, report.time.planned_duration_ms);
    assert_eq!(1, report.by_endpoint.len());
    assert_eq!("GET /ok", report.by_endpoint[0].0);
    assert_eq!(10, report.by_endpoint[0].1.request.total);
    assert_eq!(10, report.by_endpoint[0].1.request.ok);
    assert_eq!(0, report.by_endpoint[0].1.request.error);
    assert_eq!(10, metrics.total_requests);
    // Ten samples stand in the overall histogram, all within range.
    assert_eq!(10, metrics.overall_latency.hist.len());
    assert!(metrics.overall_latency.hist.max() <= 60_000_000);
}

#[test]
fn it_mock_run_two_stages_counts_thirteen_ticks() {
    let scenario = one_journey_scenario(vec![
        Stage { duration_sec: 2, rps: 5 },
        Stage { duration_sec: 1, rps: 3 },
    ]);
    let plan = ExecutionPlan::from_scenario(&scenario);
    let sink = EventSink::<Event>::noop();
    let engine = RunEngine::new(Some(true), Some(false));
    let (report, _metrics) = engine.run_deterministic(&plan, &scenario, &sink);

    assert_eq!(13, report.run.total_ticks);
    assert_eq!(13, report.requests.total);
    assert_eq!(13, report.requests.ok + report.requests.error);
    // Two stage records, one per stage index.
    assert_eq!(2, report.rps.by_stage.len());
    assert_eq!(0, report.rps.by_stage[0].0);
    assert_eq!(1, report.rps.by_stage[1].0);
    assert_eq!(10, report.rps.by_stage[0].1.request_count);
    assert_eq!(3, report.rps.by_stage[1].1.request_count);
}

#[test]
fn it_mock_run_total_splits_into_ok_and_error() {
    let scenario = one_journey_scenario(vec![Stage { duration_sec: 3, rps: 4 }]);
    let plan = ExecutionPlan::from_scenario(&scenario);
    let sink = EventSink::<Event>::noop();
    let engine = RunEngine::new(Some(true), Some(false));
    let (report, _metrics) = engine.run_deterministic(&plan, &scenario, &sink);

    assert_eq!(report.requests.total, report.requests.ok + report.requests.error);
    let endpoint_sum: u64 = report
        .by_endpoint
        .iter()
        .map(|(_, stats)| stats.request.total)
        .sum();
    assert_eq!(report.requests.total, endpoint_sum);
}

#[test]
fn it_mock_run_is_deterministic() {
    let scenario = one_journey_scenario(vec![Stage { duration_sec: 2, rps: 5 }]);
    let plan_a = ExecutionPlan::from_scenario(&scenario);
    let plan_b = ExecutionPlan::from_scenario(&scenario);
    let sink = EventSink::<Event>::noop();
    let engine = RunEngine::new(Some(true), Some(false));
    let (report_a, metrics_a) = engine.run_deterministic(&plan_a, &scenario, &sink);
    let (report_b, metrics_b) = engine.run_deterministic(&plan_b, &scenario, &sink);

    assert_eq!(report_a.requests.total, report_b.requests.total);
    assert_eq!(metrics_a.latency, metrics_b.latency);
    assert_eq!(metrics_a.latency_sum, metrics_b.latency_sum);
}

#[test]
fn it_engine_defaults_to_real_http() {
    let engine = RunEngine::new(None, None);
    assert!(!engine.is_mock);
    assert!(engine.is_real_time);

    let engine = RunEngine::new(Some(true), Some(false));
    assert!(engine.is_mock);
    assert!(!engine.is_real_time);
}

#[test]
fn it_sink_delivers_run_events_in_order() {
    let (tx, mut rx) = tokio::sync::mpsc::unbounded_channel::<Event>();
    let sink = EventSink::new(tx);
    assert!(sink.is_enabled());
    assert!(!EventSink::<Event>::noop().is_enabled());

    let scenario = one_journey_scenario(vec![Stage { duration_sec: 1, rps: 2 }]);
    let plan = ExecutionPlan::from_scenario(&scenario);
    let engine = RunEngine::new(Some(true), Some(false));
    let (_report, _metrics) = engine.run_deterministic(&plan, &scenario, &sink);

    let mut events = Vec::new();
    while let Ok(ev) = rx.try_recv() {
        events.push(ev);
    }
    // Two ticks and the closing milestone, in order.
    assert_eq!(3, events.len());
    assert!(matches!(events[0], Event::TickExecuted { .. }));
    assert!(matches!(events[1], Event::TickExecuted { .. }));
    assert!(matches!(events[2], Event::RunFinished));
}

#[test]
fn it_report_carries_latency_summaries_once_set() {
    let scenario = one_journey_scenario(vec![Stage { duration_sec: 1, rps: 2 }]);
    let plan = ExecutionPlan::from_scenario(&scenario);
    let sink = EventSink::<Event>::noop();
    let engine = RunEngine::new(Some(true), Some(false));
    let (mut report, metrics) = engine.run_deterministic(&plan, &scenario, &sink);

    // Summarise the histograms the way the report printer does.
    let h = &metrics.overall_latency.hist;
    let overall = lt_engine::metrics::LatencySummary {
        count: h.len(),
        min: h.min() / 1000,
        max: h.max() / 1000,
        mean: h.mean() as u64 / 1000,
        p50: h.value_at_quantile(0.50) / 1000,
        p90: h.value_at_quantile(0.90) / 1000,
        p95: h.value_at_quantile(0.95) / 1000,
        p99: h.value_at_quantile(0.99) / 1000,
    };
    let endpoint_summaries = vec![overall; report.by_endpoint.len()];
    lt_engine::run_engine::set_latency_summaries(
        &mut report,
        overall,
        Vec::new(),
        endpoint_summaries,
    );
    assert_eq!(2, report.latency_overall_summary.count);
    assert_eq!(report.latency_overall_summary, report.by_endpoint[0].1.latency_summary);
}

#[test]
fn it_single_request_journeys_dispatch_every_tick() {
    let scenario = Scenario {
        version: 1,
        name: "pair".to_string(),
        target: Target {
            base_url: "http://localhost:8080".to_string(),
            default_headers: None,
            insecure_tls: None,
        },
        workload: Workload { stages: vec![Stage { duration_sec: 3, rps: 5 }] },
        journeys: vec![
            Journey { name: "a".to_string(), weight: 7, steps: vec![get_step("/ok")] },
            Journey { name: "b".to_string(), weight: 3, steps: vec![get_step("/err")] },
        ],
        description: None,
        tags: None,
        thresholds: None,
    };
    let plan = ExecutionPlan::from_scenario(&scenario);
    let sink = EventSink::<Event>::noop();
    let engine = RunEngine::new(Some(true), Some(false));
    let (report, metrics) = engine.run_deterministic(&plan, &scenario, &sink);

    // Every planned tick dispatches: the pool is full, each journey is one
    // request, and five per second leaves room for any mock latency.
    assert_eq!(15, report.requests.total);
    assert_eq!(0, report.ticks_arrival.missed);
    assert_eq!(0, report.requests.error);
    // The first user serves every tick, so one endpoint carries the run.
    assert_eq!(1, report.by_endpoint.len());
    let key = report.by_endpoint[0].0.as_str();
    assert!(key == "GET /ok" || key == "GET /err");
    assert_eq!(15, report.by_endpoint[0].1.request.total);
    assert_eq!(15, metrics.latency.len());
}
