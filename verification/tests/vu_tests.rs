use lt_engine::execution_plan::ExecutionPlan;
use lt_engine::schema::{Journey, Scenario, Stage, Step, StepMethod, Target, Workload};
use lt_engine::vu_runner::{NextAction, VUState, VuPool, VuRuntime};

fn sleep_get_sleep_scenario() -> Scenario {
    Scenario {
        version: 1,
        name: "paced".to_string(),
        target: Target {
            base_url: "http://localhost:8080".to_string(),
            default_headers: None,
            insecure_tls: None,
        },
        workload: Workload { stages: vec![Stage { duration_sec: 10, rps: 1 }] },
        journeys: vec![Journey {
            name: "paced walk".to_string(),
            weight: 1,
            steps: vec![
                Step::Sleep { duration_ms: 100 },
                Step::Request {
                    method: StepMethod::GET,
                    path: "/ok".to_string(),
                    headers: None,
                    body: None,
                    timeout_ms: Some(500),
                },
                Step::Sleep { duration_ms: 50 },
            ],
        }],
        description: None,
        tags: None,
        thresholds: None,
    }
}

fn fresh_vu() -> VUState {
    VUState {
        vu_id: 0,
        journey_id: 0,
        step_index: 0,
        next_ready_at_ms: 0,
        iteration_count: 0,
        total_sleep_ms: 0,
    }
}

#[test]
fn it_sleep_then_request_parks_the_vu() {
    let scenario = sleep_get_sleep_scenario();
    let plan = ExecutionPlan::from_scenario(&scenario);
    let runtime = VuRuntime {};
    let mut vu = fresh_vu();

    // The opening sleep accumulates, then the request parks the user.
    let action = runtime.next_action(&plan, &mut vu, 0);
    match action {
        NextAction::Ready(req) => {
            assert_eq!("GET /ok", req.endpoint_key);
            assert_eq!("/ok", req.path);
            assert_eq!(500, req.timeout_ms);
            assert_eq!(0, req.journey_id);
        }
        _ => panic!("expected a ready request"),
    }
    assert_eq!(u64::MAX, vu.next_ready_at_ms);
    assert_eq!(1, vu.step_index);
    assert_eq!(100, vu.total_sleep_ms);
    assert_eq!(0, vu.iteration_count);

    // Completion re-arms the user at the finish time.
    runtime.on_request_executed(&plan, &mut vu, 250);
    assert_eq!(250, vu.next_ready_at_ms);
    assert_eq!(2, vu.step_index);
    assert_eq!(0, vu.iteration_count);

    // The trailing sleep closes the iteration: 150 ms slept in total.
    let action = runtime.next_action(&plan, &mut vu, 250);
    assert!(matches!(action, NextAction::CompletedIteration));
    assert_eq!(150, vu.total_sleep_ms);
    assert_eq!(3, vu.step_index);
    assert_eq!(300, vu.next_ready_at_ms);

    // The next pass rolls over into a new iteration.
    let action = runtime.next_action(&plan, &mut vu, 300);
    assert!(matches!(action, NextAction::Ready(_)));
    assert_eq!(1, vu.iteration_count);
    assert_eq!(250, vu.total_sleep_ms);
}

#[test]
fn it_rollover_bumps_iteration_and_resets_step() {
    let scenario = sleep_get_sleep_scenario();
    let plan = ExecutionPlan::from_scenario(&scenario);
    let runtime = VuRuntime {};
    let mut vu = fresh_vu();
    vu.step_index = 2; // standing on the last step
    runtime.on_request_executed(&plan, &mut vu, 400);
    assert_eq!(0, vu.step_index);
    assert_eq!(1, vu.iteration_count);
    assert_eq!(400, vu.next_ready_at_ms);
}

#[test]
fn it_not_ready_vu_reports_its_wakeup() {
    let scenario = sleep_get_sleep_scenario();
    let plan = ExecutionPlan::from_scenario(&scenario);
    let runtime = VuRuntime {};
    let mut vu = fresh_vu();
    vu.next_ready_at_ms = 777;
    match runtime.next_action(&plan, &mut vu, 10) {
        NextAction::NotReady(t) => assert_eq!(777, t),
        _ => panic!("expected the user to wait"),
    }
    assert_eq!(777, vu.next_ready_at_ms);
}

#[test]
fn it_parked_vu_is_never_picked() {
    let parked = VUState { next_ready_at_ms: u64::MAX, ..fresh_vu() };
    let waiting = VUState { next_ready_at_ms: 500, vu_id: 1, ..fresh_vu() };
    let ready = VUState { next_ready_at_ms: 10, vu_id: 2, ..fresh_vu() };
    let pool = VuPool::new(vec![parked, waiting, ready]);

    // Only the third user is ready at 10 ms; the parked one never is.
    assert_eq!(Some(2), pool.pick_ready_vu(10));
    assert_eq!(Some(1), pool.pick_ready_vu(500));
    assert_eq!(None, pool.pick_ready_vu(9));
}

#[test]
fn it_pool_sums_sleep() {
    let a = VUState { total_sleep_ms: 150, ..fresh_vu() };
    let b = VUState { total_sleep_ms: 50, vu_id: 1, ..fresh_vu() };
    let pool = VuPool::new(vec![a, b]);
    assert_eq!(200, pool.get_total_sleep_ms());
}

#[test]
fn it_get_mut_rejects_out_of_bounds() {
    let mut pool = VuPool::new(vec![fresh_vu()]);
    assert!(pool.get_mut(0).is_ok());
    assert!(pool.get_mut(1).is_err());
}
