use lt_engine::execution_plan::{ExecutionPlan, PlanError};
use lt_engine::schema::{Journey, Scenario, Stage, Step, StepMethod, Target, Workload};

fn scenario() -> Scenario {
    Scenario {
        version: 3,
        name: "planned".to_string(),
        target: Target {
            base_url: "http://localhost:9999".to_string(),
            default_headers: None,
            insecure_tls: None,
        },
        workload: Workload { stages: vec![Stage { duration_sec: 10, rps: 1 }] },
        journeys: vec![Journey {
            name: "only".to_string(),
            weight: 4,
            steps: vec![Step::Request {
                method: StepMethod::PUT,
                path: "/thing".to_string(),
                headers: None,
                body: None,
                timeout_ms: None,
            }],
        }],
        description: None,
        tags: None,
        thresholds: None,
    }
}

#[test]
fn it_create_execution_plan_for_scenario() {
    let s = scenario();
    let plan = ExecutionPlan::from_scenario(&s);
    assert_eq!("planned", plan.scenario_name);
    assert_eq!("3", plan.version);
    assert_eq!("http://localhost:9999", plan.base_url);
    assert_eq!(1, plan.journeys.len());
    assert_eq!("only", plan.journeys[0].name);
    assert_eq!("", plan.weight_sampler.seed);
    assert_eq!(4, plan.weight_sampler.total_weight);
    assert!(plan.limits.is_none());
}

#[test]
fn it_plan_seeds_the_sampler() {
    let s = scenario();
    let plan = lt_engine::plan(&s, 100000);
    assert_eq!("100000", plan.weight_sampler.seed);
}

#[test]
fn it_get_journey_rejects_bad_ids() {
    let s = scenario();
    let plan = ExecutionPlan::from_scenario(&s);
    assert!(plan.get_journey(0).is_ok());
    assert_eq!("only", plan.get_journey(0).unwrap().name);
    assert!(matches!(plan.get_journey(1), Err(PlanError::InvalidJourneyId)));
    assert!(matches!(plan.get_journey(-1), Err(PlanError::InvalidJourneyId)));
}

#[test]
fn it_set_version_keeps_everything_else() {
    let s = scenario().set_version(9);
    assert_eq!(9, s.version);
    assert_eq!("planned", s.name);
    assert_eq!(1, s.journeys.len());
}

#[test]
fn it_default_building_blocks() {
    let stage = Stage::default();
    assert_eq!(10, stage.duration_sec);
    assert_eq!(100, stage.rps);
    let workload = Workload::default();
    assert_eq!(1, workload.stages.len());
    assert_eq!(250, {
        let w = Workload { stages: vec![Stage { duration_sec: 10, rps: 100 }, Stage { duration_sec: 10, rps: 400 }] };
        w.get_rps_avg()
    });
    assert!(matches!(Step::default(), Step::Sleep { duration_ms: 0 }));
    assert!(matches!(Step::default_request(), Step::Request { .. }));
}
