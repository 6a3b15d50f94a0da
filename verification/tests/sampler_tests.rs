use std::collections::HashMap;

use lt_engine::execution_plan::ExecutionPlan;
use lt_engine::sampler::{calculate_cumulative_ends, WeightSampler};
use lt_engine::schema::{Journey, Scenario, Step, StepMethod, Target, Workload, Stage};

fn get_step(path: &str) -> Step {
    Step::Request {
        method: StepMethod::GET,
        path: path.to_string(),
        headers: None,
        body: None,
        timeout_ms: None,
    }
}

fn two_journey_scenario() -> Scenario {
    Scenario {
        version: 1,
        name: "weights".to_string(),
        target: Target {
            base_url: "http://localhost:8080".to_string(),
            default_headers: None,
            insecure_tls: None,
        },
        workload: Workload { stages: vec![Stage { duration_sec: 10, rps: 5 }] },
        journeys: vec![
            Journey { name: "heavy".to_string(), weight: 7, steps: vec![get_step("/ok")] },
            Journey { name: "light".to_string(), weight: 3, steps: vec![get_step("/err")] },
        ],
        description: None,
        tags: None,
        thresholds: None,
    }
}

#[test]
fn it_check_calculate_cumulative_ends() {
    let result = calculate_cumulative_ends(&mut Vec::from([7, 3]));

    assert_eq!(Vec::from([7, 10]), result);
}

#[test]
fn it_calculate_weight_total_and_cumulative() {
    let scenario = two_journey_scenario();
    let weight_sampler = WeightSampler::from_scenario(&scenario);
    assert_eq!(10, weight_sampler.total_weight);
    assert_eq!(vec![7, 10], weight_sampler.cumulative_ends);
    assert_eq!(vec![0, 1], weight_sampler.journey_ids);
}

#[test]
fn it_peek_return_value_inside_range() {
    let scenario = two_journey_scenario();
    let mut weight_sampler = WeightSampler::from_scenario(&scenario);
    weight_sampler.seed = "1000".to_string();
    for i in 0..10 {
        if let Some(res) = weight_sampler.peek(format!("{}-stable_key", i).as_str()) {
            assert!(res >= 0 && res < 10);
        } else {
            panic!("Unexpected None result from peek");
        }
    }
}

#[test]
fn it_check_peek_result_stable() {
    let scenario = two_journey_scenario();
    let weight_sampler = WeightSampler::from_scenario(&scenario);

    let mut result = Vec::with_capacity(10);
    for _ in 0..10 {
        result.push(weight_sampler.peek("stable_key"));
    }
    for r in &result {
        assert!(r.is_some());
        assert_eq!(*r, result[0]);
    }
}

#[test]
fn it_peek_bucket_picks_by_cumulative_interval() {
    let scenario = two_journey_scenario();
    let sampler = WeightSampler::from_scenario(&scenario);
    for bucket in 0..7u32 {
        assert_eq!(Some(0), sampler.peek_bucket(bucket));
    }
    for bucket in 7..10u32 {
        assert_eq!(Some(1), sampler.peek_bucket(bucket));
    }
    assert_eq!(None, sampler.peek_bucket(10));
}

#[test]
fn it_peek_absent_for_zero_weight() {
    let sampler = WeightSampler {
        seed: "1".to_string(),
        total_weight: 0,
        journey_ids: Vec::new(),
        cumulative_ends: Vec::new(),
    };
    assert_eq!(None, sampler.peek("anything"));
}

#[test]
fn it_works() {
    let scenario = two_journey_scenario();
    let mut counts: HashMap<i32, u32> = HashMap::new();
    let plan = lt_engine::plan(&scenario, 100000);
    let attempts = 300_000;
    let sampler = &plan.weight_sampler;
    for i in 0..attempts {
        let stable_key = format!("scenario={}:index={}", plan.scenario_name, i);

        let journey_id = sampler.peek(&stable_key).unwrap();
        *counts.entry(journey_id).or_insert(0) += 1;
    }

    fn sampler_weight_for(i: i32, plan: &ExecutionPlan) -> i32 {
        plan.journeys
            .get(i as usize)
            .expect("invalid journey_id")
            .weight as i32
    }

    let tolerance = 0.02; // 2%

    for count in counts.iter() {
        let (i, val) = count;
        let expected_ratio =
            sampler_weight_for(*i, &plan) as f64 / sampler.total_weight as f64;

        let actual_ratio = *val as f64 / attempts as f64;

        let diff = (expected_ratio - actual_ratio).abs();

        assert!(
            diff < tolerance,
            "journey {}: expected {:.4}, got {:.4}",
            i,
            expected_ratio,
            actual_ratio
        );
    }
}

#[test]
fn it_works_run_mock() {
    let scenario = two_journey_scenario();
    let mut counts: HashMap<i32, u32> = HashMap::new();
    let plan = lt_engine::plan(&scenario, 100000);
    let attempts = 300_000;
    let sampler = &plan.weight_sampler;
    for i in 0..attempts {
        let stable_key = format!("scenario={}:index={}", plan.scenario_name, i);

        let journey_id = sampler.peek(&stable_key).unwrap();
        *counts.entry(journey_id).or_insert(0) += 1;
    }

    let tolerance = 0.02; // 2%
    assert_eq!(2, counts.len());

    for count in counts.iter() {
        let (i, val) = count;
        let expected_ratio =
            plan.journeys[*i as usize].weight as f64 / sampler.total_weight as f64;

        let actual_ratio = *val as f64 / attempts as f64;

        let diff = (expected_ratio - actual_ratio).abs();

        assert!(
            diff < tolerance,
            "journey {}: expected {:.4}, got {:.4}",
            i,
            expected_ratio,
            actual_ratio
        );
    }
}
