use lt_engine::dry_runner::{dry_run, DryRunMode, DryRunResult};
use lt_engine::events::{Event, EventSink};
use lt_engine::execution_plan::ExecutionPlan;
use lt_engine::schema::{Journey, Scenario, Stage, Step, StepMethod, Target, Workload};

fn scenario_with_two_journeys() -> Scenario {
    Scenario {
        version: 1,
        name: "planned".to_string(),
        target: Target {
            base_url: "http://localhost:8080".to_string(),
            default_headers: None,
            insecure_tls: None,
        },
        workload: Workload { stages: vec![Stage { duration_sec: 10, rps: 2 }] },
        journeys: vec![
            Journey {
                name: "first".to_string(),
                weight: 7,
                steps: vec![
                    Step::Sleep { duration_ms: 10 },
                    Step::Request {
                        method: StepMethod::GET,
                        path: "/ok".to_string(),
                        headers: None,
                        body: None,
                        timeout_ms: None,
                    },
                ],
            },
            Journey {
                name: "second".to_string(),
                weight: 3,
                steps: vec![Step::Request {
                    method: StepMethod::DELETE,
                    path: "/gone".to_string(),
                    headers: None,
                    body: None,
                    timeout_ms: None,
                }],
            },
        ],
        description: None,
        tags: None,
        thresholds: None,
    }
}

#[test]
fn dry_run_scenario() {
    let scenario = scenario_with_two_journeys();
    let plan = ExecutionPlan::from_scenario(&scenario);
    let sink = EventSink::<Event>::noop();
    let report = dry_run(plan, 100, 12345, DryRunMode::PlanOnly, sink);
    match report {
        DryRunResult::PlanOnly(r) => {
            assert_eq!(100, r.iterations);
            assert_eq!(12345, r.seed);
            assert_eq!(100, r.journeys);
            // Every iteration walks exactly one request step.
            assert_eq!(100, r.steps.request_count);
            // Only the heavier journey sleeps; its picks dominate.
            assert!(r.steps.sleep_count > 0);
            assert_eq!(
                r.steps.request_count,
                r.endpoints.iter().map(|(_, c)| *c).sum::<i32>()
            );
            for (key, count) in &r.endpoints {
                assert!(key == "GET /ok" || key == "DELETE /gone");
                assert!(*count >= 1);
            }
            assert_eq!(r.steps.sleep_count, {
                let picks_of_first =
                    r.endpoints.iter().find(|(k, _)| k == "GET /ok").map(|(_, c)| *c).unwrap_or(0);
                picks_of_first
            });
        }
        DryRunResult::Simulated(_) => panic!("expected the plan-only tally"),
    }
}

#[test]
fn dry_run_simulated_runs_the_engine() {
    let scenario = scenario_with_two_journeys();
    let plan = ExecutionPlan::from_scenario(&scenario);
    let sink = EventSink::<Event>::noop();
    let report = dry_run(plan, 100, 12345, DryRunMode::Simulated(&scenario), sink);
    match report {
        DryRunResult::Simulated(r) => {
            assert_eq!(20, r.run.total_ticks);
            assert_eq!(r.requests.total, r.requests.ok + r.requests.error);
        }
        DryRunResult::PlanOnly(_) => panic!("expected a simulated run"),
    }
}

#[test]
fn dry_run_is_stable_across_calls() {
    let scenario = scenario_with_two_journeys();
    let sink = EventSink::<Event>::noop();
    let a = dry_run(
        ExecutionPlan::from_scenario(&scenario),
        50,
        7,
        DryRunMode::PlanOnly,
        sink.clone(),
    );
    let b = dry_run(
        ExecutionPlan::from_scenario(&scenario),
        50,
        7,
        DryRunMode::PlanOnly,
        sink,
    );
    match (a, b) {
        (DryRunResult::PlanOnly(ra), DryRunResult::PlanOnly(rb)) => {
            assert_eq!(ra.steps.request_count, rb.steps.request_count);
            assert_eq!(ra.steps.sleep_count, rb.steps.sleep_count);
        }
        _ => panic!("expected two plan-only tallies"),
    }
}
