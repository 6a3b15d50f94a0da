use vstd::prelude::*;
use crate::errors::ValidationError;

verus! {

/// Bound on the stage count that keeps every duration and tick total within `u64`.
pub const MAX_STAGES: usize = 1_000_000;

/// Bound on the step count of one journey that keeps sleep arithmetic within `u64`.
pub const MAX_STEPS: usize = 100_000;

/// Bound on the journey count that keeps the total weight within `u32`.
pub const MAX_JOURNEYS: usize = 65_536;

/// One HTTP method a request step may use.
#[derive(Debug, Clone, Copy, PartialEq, Eq, Structural)]
pub enum StepMethod {
    GET,
    POST,
    PUT,
    PATCH,
    DELETE,
}

/// The characters of a method's canonical name.
pub open spec fn spec_method_str(m: StepMethod) -> Seq<char> {
    match m {
        StepMethod::GET => seq!['G', 'E', 'T'],
        StepMethod::POST => seq!['P', 'O', 'S', 'T'],
        StepMethod::PUT => seq!['P', 'U', 'T'],
        StepMethod::PATCH => seq!['P', 'A', 'T', 'C', 'H'],
        StepMethod::DELETE => seq!['D', 'E', 'L', 'E', 'T', 'E'],
    }
}

impl StepMethod {
    /// The canonical upper-case name of the method.
    pub fn name(&self) -> (r: &'static str)
        ensures
            r@ == spec_method_str(*self),
    {
        proof {
            reveal_strlit("GET");
            reveal_strlit("POST");
            reveal_strlit("PUT");
            reveal_strlit("PATCH");
            reveal_strlit("DELETE");
        }
        match self {
            StepMethod::GET => "GET",
            StepMethod::POST => "POST",
            StepMethod::PUT => "PUT",
            StepMethod::PATCH => "PATCH",
            StepMethod::DELETE => "DELETE",
        }
    }

    /// Parses a canonical method name; any other text is rejected with an
    /// `invalid_value` finding at the step path.
    pub fn parse(value: &str) -> (r: Result<StepMethod, ValidationError>)
        ensures
            match r {
                Ok(m) => value@ == spec_method_str(m),
                Err(_) => forall|m: StepMethod| value@ != spec_method_str(m),
            },
    {
        proof {
            reveal_strlit("GET");
            reveal_strlit("POST");
            reveal_strlit("PUT");
            reveal_strlit("PATCH");
            reveal_strlit("DELETE");
            reveal_strlit("/step/");
            reveal_strlit("invalid_value");
            assert(("GET")@ =~= spec_method_str(StepMethod::GET));
            assert(("POST")@ =~= spec_method_str(StepMethod::POST));
            assert(("PUT")@ =~= spec_method_str(StepMethod::PUT));
            assert(("PATCH")@ =~= spec_method_str(StepMethod::PATCH));
            assert(("DELETE")@ =~= spec_method_str(StepMethod::DELETE));
        }
        if crate::text::str_eq(value, "GET") {
            Ok(StepMethod::GET)
        } else if crate::text::str_eq(value, "POST") {
            Ok(StepMethod::POST)
        } else if crate::text::str_eq(value, "PUT") {
            Ok(StepMethod::PUT)
        } else if crate::text::str_eq(value, "PATCH") {
            Ok(StepMethod::PATCH)
        } else if crate::text::str_eq(value, "DELETE") {
            Ok(StepMethod::DELETE)
        } else {
            proof {
                assert forall|m: StepMethod| value@ != spec_method_str(m) by {
                    match m {
                        StepMethod::GET => assert(value@ != spec_method_str(StepMethod::GET)),
                        StepMethod::POST => assert(value@ != spec_method_str(StepMethod::POST)),
                        StepMethod::PUT => assert(value@ != spec_method_str(StepMethod::PUT)),
                        StepMethod::PATCH => assert(value@ != spec_method_str(StepMethod::PATCH)),
                        StepMethod::DELETE => assert(value@ != spec_method_str(
                            StepMethod::DELETE,
                        )),
                    }
                }
            }
            Err(ValidationError {
                path: "/step/".to_owned(),
                code: "invalid_value".to_owned(),
                message: "invalid_value".to_owned(),
            })
        }
    }
}

/// One step of a journey: either an idle pause or an HTTP request.
#[derive(Debug, Clone)]
pub enum Step {
    Sleep { duration_ms: u32 },
    Request {
        method: StepMethod,
        path: String,
        headers: Option<Vec<(String, String)>>,
        body: Option<String>,
        timeout_ms: Option<u32>,
    },
}

/// The mathematical content of a step, with every text as its characters.
#[verifier::ext_equal]
pub enum StepView {
    Sleep { duration_ms: u32 },
    Request {
        method: StepMethod,
        path: Seq<char>,
        headers: Option<Seq<(Seq<char>, Seq<char>)>>,
        body: Option<Seq<char>>,
        timeout_ms: Option<u32>,
    },
}

impl View for Step {
    type V = StepView;

    open spec fn view(&self) -> StepView {
        match self {
            Step::Sleep { duration_ms } => StepView::Sleep { duration_ms: *duration_ms },
            Step::Request { method, path, headers, body, timeout_ms } => StepView::Request {
                method: *method,
                path: path@,
                headers: match headers {
                    Some(h) => Some(h@.map_values(|p: (String, String)| (p.0@, p.1@))),
                    None => None,
                },
                body: match body {
                    Some(b) => Some(b@),
                    None => None,
                },
                timeout_ms: *timeout_ms,
            },
        }
    }
}

fn duplicate_pairs(pairs: &Vec<(String, String)>) -> (r: Vec<(String, String)>)
    ensures
        r@ == pairs@,
{
    let mut out: Vec<(String, String)> = Vec::with_capacity(pairs.len());
    let mut i: usize = 0;
    while i < pairs.len()
        invariant
            i <= pairs@.len(),
            out@ == pairs@.take(i as int),
        decreases pairs@.len() - i,
    {
        let k = pairs[i].0.clone();
        let v = pairs[i].1.clone();
        out.push((k, v));
        proof {
            assert(pairs@.take(i + 1) =~= pairs@.take(i as int).push(pairs@.index(i as int)));
        }
        i = i + 1;
    }
    proof {
        assert(pairs@.take(pairs@.len() as int) == pairs@);
    }
    out
}

impl Step {
    /// A sleep of no duration, the placeholder step of generated scenarios.
    pub fn default() -> (r: Step)
        ensures
            r == (Step::Sleep { duration_ms: 0u32 }),
    {
        Step::Sleep { duration_ms: 0 }
    }

    /// A GET request of the empty path, the placeholder request of generated
    /// scenarios.
    pub fn default_request() -> (r: Step)
        ensures
            r@ matches StepView::Request { method, path, headers, body, timeout_ms }
                && method == StepMethod::GET && path == Seq::<char>::empty() && headers.is_none()
                && body.is_none() && timeout_ms.is_none(),
    {
        Step::Request {
            method: StepMethod::GET,
            path: String::new(),
            headers: None,
            body: None,
            timeout_ms: None,
        }
    }

    /// A copy of the step with the same content.
    pub fn duplicate(&self) -> (r: Step)
        ensures
            r@ == self@,
    {
        match self {
            Step::Sleep { duration_ms } => Step::Sleep { duration_ms: *duration_ms },
            Step::Request { method, path, headers, body, timeout_ms } => {
                let r = Step::Request {
                    method: *method,
                    path: path.clone(),
                    headers: match headers {
                        Some(h) => Some(duplicate_pairs(h)),
                        None => None,
                    },
                    body: match body {
                        Some(b) => Some(b.clone()),
                        None => None,
                    },
                    timeout_ms: *timeout_ms,
                };
                proof {
                    assert(r@ =~~= self@);
                }
                r
            },
        }
    }
}

/// A named, weighted sequence of steps one virtual user walks repeatedly.
#[derive(Debug, Clone)]
pub struct Journey {
    pub name: String,
    pub weight: u16,
    pub steps: Vec<Step>,
}

/// The mathematical content of a journey.
#[verifier::ext_equal]
pub struct JourneyView {
    pub name: Seq<char>,
    pub weight: u16,
    pub steps: Seq<StepView>,
}

impl View for Journey {
    type V = JourneyView;

    open spec fn view(&self) -> JourneyView {
        JourneyView {
            name: self.name@,
            weight: self.weight,
            steps: self.steps@.map_values(|s: Step| s@),
        }
    }
}

impl Journey {
    /// A copy of the journey with the same content.
    pub fn duplicate(&self) -> (r: Journey)
        ensures
            r@ == self@,
    {
        let mut steps: Vec<Step> = Vec::with_capacity(self.steps.len());
        let mut i: usize = 0;
        while i < self.steps.len()
            invariant
                i <= self.steps@.len(),
                steps@.len() == i,
                forall|k: int| 0 <= k < i ==> steps@.index(k)@ == self.steps@.index(k)@,
            decreases self.steps@.len() - i,
        {
            steps.push(self.steps[i].duplicate());
            i = i + 1;
        }
        let r = Journey { name: self.name.clone(), weight: self.weight, steps };
        proof {
            assert(r@.steps =~~= self@.steps);
            assert(r@ =~~= self@);
        }
        r
    }
}

/// Whether two journey lists have the same content, position by position.
pub open spec fn journeys_match(a: Seq<Journey>, b: Seq<Journey>) -> bool {
    a.len() == b.len() && forall|i: int| 0 <= i < a.len() ==> a.index(i)@ == b.index(i)@
}

/// A copy of a journey list with the same content.
pub fn duplicate_journeys(journeys: &Vec<Journey>) -> (r: Vec<Journey>)
    ensures
        journeys_match(r@, journeys@),
{
    let mut out: Vec<Journey> = Vec::with_capacity(journeys.len());
    let mut i: usize = 0;
    while i < journeys.len()
        invariant
            i <= journeys@.len(),
            out@.len() == i,
            forall|k: int| 0 <= k < i ==> out@.index(k)@ == journeys@.index(k)@,
        decreases journeys@.len() - i,
    {
        out.push(journeys[i].duplicate());
        i = i + 1;
    }
    out
}

/// A contiguous window of constant target request rate.
#[derive(Debug, Clone, Copy, PartialEq, Eq, Structural)]
pub struct Stage {
    pub duration_sec: i32,
    pub rps: i32,
}

impl Stage {
    /// The default stage of a generated scenario: ten seconds at one hundred
    /// requests per second.
    pub fn default() -> (r: Stage)
        ensures
            r == (Stage { duration_sec: 10i32, rps: 100i32 }),
    {
        Stage { duration_sec: 10, rps: 100 }
    }
}

/// The staged workload of a scenario.
#[derive(Debug, Clone)]
pub struct Workload {
    pub stages: Vec<Stage>,
}

/// The sum of the non-negative stage rates.
pub open spec fn sum_rps(stages: Seq<Stage>) -> int
    decreases stages.len(),
{
    if stages.len() == 0 {
        0
    } else {
        sum_rps(stages.drop_last()) + (if stages.last().rps >= 0 {
            stages.last().rps as int
        } else {
            0
        })
    }
}

impl Workload {
    /// A single default stage.
    pub fn default() -> (r: Workload)
        ensures
            r.stages@ == seq![Stage { duration_sec: 10i32, rps: 100i32 }],
    {
        let mut stages: Vec<Stage> = Vec::new();
        stages.push(Stage::default());
        proof {
            assert(stages@ =~= seq![Stage { duration_sec: 10i32, rps: 100i32 }]);
        }
        Workload { stages }
    }

    /// The mean of the stage rates (negative rates count as zero), rounded
    /// down; zero for an empty workload.
    pub fn get_rps_avg(&self) -> (r: u64)
        requires
            self.stages@.len() <= MAX_STAGES,
        ensures
            r == if self.stages@.len() == 0 {
                0int
            } else {
                sum_rps(self.stages@) / self.stages@.len() as int
            },
    {
        if self.stages.len() == 0 {
            return 0;
        }
        let mut sum: u64 = 0;
        let mut i: usize = 0;
        while i < self.stages.len()
            invariant
                i <= self.stages@.len(),
                self.stages@.len() <= MAX_STAGES,
                sum == sum_rps(self.stages@.take(i as int)),
                sum <= i * 0x8000_0000,
            decreases self.stages@.len() - i,
        {
            proof {
                assert(self.stages@.take(i + 1).drop_last() == self.stages@.take(i as int));
                assert(self.stages@.take(i + 1).last() == self.stages@.index(i as int));
            }
            let rps = self.stages[i].rps;
            if rps >= 0 {
                sum = sum + rps as u64;
            }
            i = i + 1;
        }
        proof {
            assert(self.stages@.take(self.stages@.len() as int) == self.stages@);
        }
        sum / self.stages.len() as u64
    }
}

/// The target system under load.
#[derive(Debug, Clone)]
pub struct Target {
    pub base_url: String,
    pub default_headers: Option<Vec<(String, String)>>,
    pub insecure_tls: Option<bool>,
}

/// A comparison a report metric is held against.
#[derive(Debug, Clone, Copy, PartialEq, Eq, Structural)]
pub enum ThresholdOperator {
    Lt,
    Gt,
    Lte,
    Gte,
    Eq,
}

/// Where a threshold applies.
#[derive(Debug, Clone)]
pub struct ThresholdScope {
    pub endpoint: String,
    pub journey: String,
}

/// A bound on one report metric.
#[derive(Debug, Clone)]
pub struct Threshold {
    pub metric: String,
    pub op: ThresholdOperator,
    pub value: i32,
    pub scope: Option<ThresholdScope>,
}

/// The declarative input of a run: target, staged workload and weighted
/// journeys.
#[derive(Debug, Clone)]
pub struct Scenario {
    pub version: u16,
    pub name: String,
    pub target: Target,
    pub workload: Workload,
    pub journeys: Vec<Journey>,
    pub description: Option<String>,
    pub tags: Option<Vec<String>>,
    pub thresholds: Option<Vec<Threshold>>,
}

impl Scenario {
    /// The same scenario under another version number.
    pub fn set_version(self, version: u16) -> (r: Scenario)
        ensures
            r.version == version,
            r.name == self.name,
            r.target == self.target,
            r.workload == self.workload,
            r.journeys == self.journeys,
            r.description == self.description,
            r.tags == self.tags,
            r.thresholds == self.thresholds,
    {
        Scenario { version, ..self }
    }
}

/// A stage within the documented bounds: at least ten seconds and at least
/// one request per second.
pub open spec fn valid_stage(s: Stage) -> bool {
    10 <= s.duration_sec <= 86400 && 1 <= s.rps <= 10000
}

/// A step within the documented bounds.
pub open spec fn valid_step(s: StepView) -> bool {
    match s {
        StepView::Sleep { duration_ms } => 1 <= duration_ms <= 10000,
        StepView::Request { method, path, headers, body, timeout_ms } => {
            &&& crate::text::spec_starts_with(path, seq!['/'])
            &&& match timeout_ms {
                Some(t) => 1 <= t <= 100000,
                None => true,
            }
            &&& match headers {
                Some(h) => h.len() <= 100,
                None => true,
            }
            &&& match body {
                Some(b) => b.len() <= 10000,
                None => true,
            }
        },
    }
}

/// A journey within the documented bounds, and small enough for the engine's
/// sleep arithmetic.
pub open spec fn valid_journey(j: JourneyView) -> bool {
    &&& j.name.len() > 0
    &&& 1 <= j.weight <= 10000
    &&& j.steps.len() <= MAX_STEPS
    &&& forall|i: int| 0 <= i < j.steps.len() ==> valid_step(#[trigger] j.steps.index(i))
}

/// A workload the engine accepts: a bounded, non-empty list of valid stages.
pub open spec fn valid_workload(w: Workload) -> bool {
    &&& 1 <= w.stages@.len() <= MAX_STAGES
    &&& forall|i: int| 0 <= i < w.stages@.len() ==> valid_stage(#[trigger] w.stages@.index(i))
}

/// A scenario the engine accepts.
pub open spec fn valid_scenario(s: Scenario) -> bool {
    &&& valid_workload(s.workload)
    &&& 1 <= s.journeys@.len() <= MAX_JOURNEYS
    &&& forall|i: int| 0 <= i < s.journeys@.len() ==> valid_journey(
        #[trigger] s.journeys@.index(i)@,
    )
}

} // verus!
