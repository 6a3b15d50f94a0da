use lt_engine::errors::{JsonError, ProtocolError, ValidationError, ValidationErrors};
use lt_engine::schema::{Journey, Scenario, Stage, Step, StepMethod, Target, Workload};
use lt_engine::validation::{
    DurationRule, JourneysRule, NameRule, RpsRule, Rule, RuleKind, StagesRule, Validator,
    VersionRule, WebProtocolRule,
};

fn base_scenario() -> Scenario {
    Scenario {
        version: 1,
        name: "extended".to_string(),
        target: Target {
            base_url: "https://localhost:8080".to_string(),
            default_headers: None,
            insecure_tls: None,
        },
        workload: Workload {
            stages: vec![Stage { duration_sec: 10, rps: 5 }, Stage { duration_sec: 30, rps: 2 }],
        },
        journeys: vec![
            Journey {
                name: "browse".to_string(),
                weight: 7,
                steps: vec![
                    Step::Sleep { duration_ms: 100 },
                    Step::Request {
                        method: StepMethod::GET,
                        path: "/ok".to_string(),
                        headers: None,
                        body: None,
                        timeout_ms: Some(1000),
                    },
                ],
            },
            Journey {
                name: "buy".to_string(),
                weight: 3,
                steps: vec![Step::Request {
                    method: StepMethod::POST,
                    path: "/err".to_string(),
                    headers: None,
                    body: Some("{}".to_string()),
                    timeout_ms: None,
                }],
            },
        ],
        description: None,
        tags: None,
        thresholds: None,
    }
}

fn standard_validator() -> Validator {
    Validator::new()
        .with_rule(RuleKind::Name(NameRule::new()))
        .with_rule(RuleKind::WebProtocol(WebProtocolRule::new()))
        .with_rule(RuleKind::Stages(StagesRule::new()))
        .with_rule(RuleKind::Duration(DurationRule::new()))
        .with_rule(RuleKind::Rps(RpsRule::new()))
}

#[test]
fn it_check_validate_with_valid_extended_scenario() {
    let scenario = base_scenario();
    let mut errors: Vec<ValidationError> = Vec::new();
    standard_validator().validate(&scenario, &mut errors);
    assert!(errors.is_empty(), "unexpected findings: {:?}", errors);
}

#[test]
fn it_check_validate_with_invalid_scenario_broken_json() {
    let content = "{\n  \"version\": 1,\n  \"name\": \"broken\",\n  \"target\": {\n    \"base_url\": \"http://x\"\n  },\n  \"workload\": {\n    \"stages\": []\n";
    let err = serde_json::from_str::<serde_json::Value>(content).unwrap_err();
    let e = JsonError { line: err.line(), column: err.column(), message: err.to_string() };
    assert_eq!(e.line, 9);
    assert_eq!(e.column, 0);
    assert_eq!(e.message, "EOF while parsing an object at line 9 column 0");
}

#[test]
fn it_semantic_rule_flags_short_duration() {
    let mut scenario = base_scenario();
    scenario.workload.stages[0].duration_sec = 2;
    let mut errors: Vec<ValidationError> = Vec::new();
    standard_validator().validate(&scenario, &mut errors);
    assert_eq!(1, errors.len());
    assert_eq!("/workload/stages/0/duration_sec", errors[0].path);
    assert_eq!("Duration must be >= 10 and < 86400 sec ", errors[0].message);
}

#[test]
fn it_semantic_rules_flag_empty_stages() {
    let mut scenario = base_scenario();
    scenario.workload.stages.clear();
    let mut errors: Vec<ValidationError> = Vec::new();
    standard_validator().validate(&scenario, &mut errors);
    assert_eq!(1, errors.len());
    assert_eq!("/workload/stages", errors[0].path);
}

#[test]
fn it_semantic_rules_flag_bad_rps_and_name() {
    let mut scenario = base_scenario();
    scenario.name = String::new();
    scenario.workload.stages[1].rps = 0;
    let mut errors: Vec<ValidationError> = Vec::new();
    standard_validator().validate(&scenario, &mut errors);
    assert_eq!(2, errors.len());
    assert_eq!("", errors[0].path);
    assert_eq!("/workload/stages/1/rps", errors[1].path);
}

#[test]
fn it_semantic_rules_flag_bad_protocol() {
    let mut scenario = base_scenario();
    scenario.target.base_url = "ftp://files".to_string();
    let mut errors: Vec<ValidationError> = Vec::new();
    standard_validator().validate(&scenario, &mut errors);
    assert_eq!(1, errors.len());
    assert_eq!("/target/base_url", errors[0].path);
}

#[test]
fn it_version_rule_accepts_only_one() {
    let mut scenario = base_scenario();
    let mut errors: Vec<ValidationError> = Vec::new();
    VersionRule::new().validate(&scenario, &mut errors);
    assert!(errors.is_empty());

    scenario.version = 2;
    VersionRule::new().validate(&scenario, &mut errors);
    assert_eq!(1, errors.len());
    assert_eq!("/version", errors[0].path);
    assert_eq!("unsupported_version", errors[0].code);
}

#[test]
fn it_journeys_rule_flags_bad_steps() {
    let mut scenario = base_scenario();
    scenario.journeys[0].weight = 0;
    scenario.journeys[0].steps[0] = Step::Sleep { duration_ms: 0 };
    scenario.journeys[1].steps[0] = Step::Request {
        method: StepMethod::GET,
        path: "no-slash".to_string(),
        headers: None,
        body: None,
        timeout_ms: Some(0),
    };
    let mut errors: Vec<ValidationError> = Vec::new();
    JourneysRule::new().validate(&scenario, &mut errors);
    // Bad weight, bad sleep, bad timeout and a relative path: four findings,
    // in journey and step order.
    assert_eq!(4, errors.len());
    assert_eq!("/journeys/0/weight", errors[0].path);
    assert_eq!("/journeys/0/steps/0/duration_ms", errors[1].path);
    assert_eq!("/journeys/1/steps/0/timeout_ms", errors[2].path);
    assert_eq!("/journeys/1/steps/0/path", errors[3].path);
    for e in &errors {
        assert_eq!("invalid_value", e.code);
    }
}

#[test]
fn it_journeys_rule_requires_a_journey() {
    let mut scenario = base_scenario();
    scenario.journeys.clear();
    let mut errors: Vec<ValidationError> = Vec::new();
    JourneysRule::new().validate(&scenario, &mut errors);
    assert_eq!(1, errors.len());
    assert_eq!("/journeys", errors[0].path);
    assert_eq!("missing_field", errors[0].code);
}

#[test]
fn it_method_names_parse_back() {
    assert!(matches!(StepMethod::parse("GET"), Ok(StepMethod::GET)));
    assert!(matches!(StepMethod::parse("POST"), Ok(StepMethod::POST)));
    assert!(matches!(StepMethod::parse("PUT"), Ok(StepMethod::PUT)));
    assert!(matches!(StepMethod::parse("PATCH"), Ok(StepMethod::PATCH)));
    assert!(matches!(StepMethod::parse("DELETE"), Ok(StepMethod::DELETE)));
    let err = StepMethod::parse("HEAD").unwrap_err();
    assert_eq!("invalid_value", err.code);
}

#[test]
fn it_protocol_error_variants_hold_their_payloads() {
    let io = ProtocolError::Io("file vanished".to_string());
    assert!(matches!(io, ProtocolError::Io(ref m) if m == "file vanished"));

    let json = ProtocolError::Json(JsonError { line: 3, column: 14, message: "bad".to_string() });
    match json {
        ProtocolError::Json(e) => {
            assert_eq!(3, e.line);
            assert_eq!(14, e.column);
        }
        _ => panic!("expected the JSON variant"),
    }

    let findings = ValidationErrors {
        items: vec![ValidationError {
            path: "/version".to_string(),
            code: "unsupported_version".to_string(),
            message: "only version one is supported".to_string(),
        }],
    };
    let validation = ProtocolError::Validation(findings);
    match validation {
        ProtocolError::Validation(v) => assert_eq!(1, v.items.len()),
        _ => panic!("expected the validation variant"),
    }
}
