use vstd::prelude::*;
use vstd::string::StringExecFns;
use crate::errors::ValidationError;
use crate::schema::{Scenario, Stage, Step, StepView};
use crate::text::{dec_str, push_dec_str, spec_starts_with, starts_with};

verus! {

/// A stage duration outside the accepted window.
pub open spec fn duration_bad(s: Stage) -> bool {
    s.duration_sec < 10 || s.duration_sec > 86400
}

/// A stage rate outside the accepted window.
pub open spec fn rps_bad(s: Stage) -> bool {
    s.rps == 0 || s.rps > 10000
}

/// The stages with a bad duration, in order.
pub open spec fn bad_duration_indices(stages: Seq<Stage>) -> Seq<int>
    decreases stages.len(),
{
    if stages.len() == 0 {
        Seq::empty()
    } else if duration_bad(stages.last()) {
        bad_duration_indices(stages.drop_last()).push(stages.len() - 1)
    } else {
        bad_duration_indices(stages.drop_last())
    }
}

/// The stages with a bad rate, in order.
pub open spec fn bad_rps_indices(stages: Seq<Stage>) -> Seq<int>
    decreases stages.len(),
{
    if stages.len() == 0 {
        Seq::empty()
    } else if rps_bad(stages.last()) {
        bad_rps_indices(stages.drop_last()).push(stages.len() - 1)
    } else {
        bad_rps_indices(stages.drop_last())
    }
}

/// The findings one step draws.
pub open spec fn step_error_count(s: StepView) -> int {
    match s {
        StepView::Sleep { duration_ms } => if duration_ms == 0 || duration_ms > 10000 {
            1int
        } else {
            0int
        },
        StepView::Request { method, path, headers, body, timeout_ms } => {
            (match timeout_ms {
                Some(t) => if t == 0 || t > 100000 {
                    1int
                } else {
                    0int
                },
                None => 0int,
            }) + (if spec_starts_with(path, seq!['/']) {
                0int
            } else {
                1int
            }) + (match headers {
                Some(h) => if h.len() > 100 {
                    1int
                } else {
                    0int
                },
                None => 0int,
            }) + (match body {
                Some(b) => if b.len() > 10000 {
                    1int
                } else {
                    0int
                },
                None => 0int,
            })
        },
    }
}

/// The findings the steps of one journey draw, over its first `n` steps.
pub open spec fn steps_error_count(steps: Seq<StepView>, n: int) -> int
    decreases n,
{
    if n <= 0 {
        0
    } else {
        steps_error_count(steps, n - 1) + step_error_count(steps.index(n - 1))
    }
}

/// The findings one journey draws: an empty name, a weight out of range,
/// and each bad step.
pub open spec fn journey_error_count(j: crate::schema::JourneyView) -> int {
    (if j.name.len() == 0 {
        1int
    } else {
        0int
    }) + (if j.weight < 1 || j.weight > 10000 {
        1int
    } else {
        0int
    }) + steps_error_count(j.steps, j.steps.len() as int)
}

/// The findings the journeys rule draws over the first `n` journeys.
pub open spec fn journeys_error_count(journeys: Seq<crate::schema::Journey>, n: int) -> int
    decreases n,
{
    if n <= 0 {
        0
    } else {
        journeys_error_count(journeys, n - 1) + journey_error_count(journeys.index(n - 1)@)
    }
}

/// The path prefix of one journey's fields.
pub open spec fn journey_field_prefix(i: int) -> Seq<char> {
    ("/journeys/")@ + dec_str(i as nat)
}

/// The path prefix of one step's fields.
pub open spec fn step_field_prefix(ji: int, si: int) -> Seq<char> {
    journey_field_prefix(ji) + ("/steps/")@ + dec_str(si as nat)
}

/// The paths of one step's findings, in the order they are appended:
/// timeout, path, headers, body for a request; the duration for a sleep.
pub open spec fn step_finding_paths(ji: int, si: int, s: StepView) -> Seq<Seq<char>> {
    match s {
        StepView::Sleep { duration_ms } => if duration_ms == 0 || duration_ms > 10000 {
            seq![step_field_prefix(ji, si) + ("/duration_ms")@]
        } else {
            Seq::<Seq<char>>::empty()
        },
        StepView::Request { method, path, headers, body, timeout_ms } => {
            (match timeout_ms {
                Some(t) => if t == 0 || t > 100000 {
                    seq![step_field_prefix(ji, si) + ("/timeout_ms")@]
                } else {
                    Seq::<Seq<char>>::empty()
                },
                None => Seq::<Seq<char>>::empty(),
            }) + (if spec_starts_with(path, seq!['/']) {
                Seq::<Seq<char>>::empty()
            } else {
                seq![step_field_prefix(ji, si) + ("/path")@]
            }) + (match headers {
                Some(h) => if h.len() > 100 {
                    seq![step_field_prefix(ji, si) + ("/headers")@]
                } else {
                    Seq::<Seq<char>>::empty()
                },
                None => Seq::<Seq<char>>::empty(),
            }) + (match body {
                Some(b) => if b.len() > 10000 {
                    seq![step_field_prefix(ji, si) + ("/body")@]
                } else {
                    Seq::<Seq<char>>::empty()
                },
                None => Seq::<Seq<char>>::empty(),
            })
        },
    }
}

/// The step-finding paths of one journey's first `n` steps.
pub open spec fn step_paths_upto(ji: int, steps: Seq<StepView>, n: int) -> Seq<Seq<char>>
    decreases n,
{
    if n <= 0 {
        Seq::<Seq<char>>::empty()
    } else {
        step_paths_upto(ji, steps, n - 1) + step_finding_paths(ji, n - 1, steps.index(n - 1))
    }
}

/// The paths of one journey's findings: name, weight, then its steps'.
pub open spec fn journey_finding_paths(i: int, j: crate::schema::JourneyView) -> Seq<Seq<char>> {
    (if j.name.len() == 0 {
        seq![journey_field_prefix(i) + ("/name")@]
    } else {
        Seq::<Seq<char>>::empty()
    }) + (if j.weight < 1 || j.weight > 10000 {
        seq![journey_field_prefix(i) + ("/weight")@]
    } else {
        Seq::<Seq<char>>::empty()
    }) + step_paths_upto(i, j.steps, j.steps.len() as int)
}

/// The finding paths over the first `n` journeys.
pub open spec fn journeys_finding_paths(journeys: Seq<crate::schema::Journey>, n: int) -> Seq<
    Seq<char>,
>
    decreases n,
{
    if n <= 0 {
        Seq::<Seq<char>>::empty()
    } else {
        journeys_finding_paths(journeys, n - 1) + journey_finding_paths(
            n - 1,
            journeys.index(n - 1)@,
        )
    }
}

proof fn lemma_step_paths_count(ji: int, si: int, s: StepView)
    ensures
        step_finding_paths(ji, si, s).len() == step_error_count(s),
{
}

proof fn lemma_step_paths_upto_count(ji: int, steps: Seq<StepView>, n: int)
    ensures
        step_paths_upto(ji, steps, n).len() == steps_error_count(steps, n),
    decreases n,
{
    if n > 0 {
        lemma_step_paths_upto_count(ji, steps, n - 1);
        lemma_step_paths_count(ji, n - 1, steps.index(n - 1));
    }
}

proof fn lemma_journey_paths_count(i: int, j: crate::schema::JourneyView)
    ensures
        journey_finding_paths(i, j).len() == journey_error_count(j),
{
    lemma_step_paths_upto_count(i, j.steps, j.steps.len() as int);
}

proof fn lemma_journeys_paths_count(journeys: Seq<crate::schema::Journey>, n: int)
    ensures
        journeys_finding_paths(journeys, n).len() == journeys_error_count(journeys, n),
    decreases n,
{
    if n > 0 {
        lemma_journeys_paths_count(journeys, n - 1);
        lemma_journey_paths_count(n - 1, journeys.index(n - 1)@);
    }
}

/// The "/journeys/{i}/steps/{k}/{field}" path of one step finding.
fn step_path_text(journey_index: usize, step_index: usize, field: &str) -> (r: String)
    ensures
        r@ == step_field_prefix(journey_index as int, step_index as int) + field@,
{
    let mut path = String::new();
    path.append("/journeys/");
    push_dec_str(&mut path, journey_index as u64);
    path.append("/steps/");
    push_dec_str(&mut path, step_index as u64);
    path.append(field);
    proof {
        assert(path@ =~= step_field_prefix(journey_index as int, step_index as int) + field@);
    }
    path
}

/// The "/journeys/{i}/{field}" path of one journey finding.
fn journey_path_text(journey_index: usize, field: &str) -> (r: String)
    ensures
        r@ == journey_field_prefix(journey_index as int) + field@,
{
    let mut path = String::new();
    path.append("/journeys/");
    push_dec_str(&mut path, journey_index as u64);
    path.append(field);
    proof {
        assert(path@ =~= journey_field_prefix(journey_index as int) + field@);
    }
    path
}


proof fn lemma_steps_error_count_nonneg(steps: Seq<StepView>, n: int)
    ensures
        steps_error_count(steps, n) >= 0,
    decreases n,
{
    if n > 0 {
        lemma_steps_error_count_nonneg(steps, n - 1);
    }
}

proof fn lemma_journeys_error_count_nonneg(journeys: Seq<crate::schema::Journey>, n: int)
    ensures
        journeys_error_count(journeys, n) >= 0,
    decreases n,
{
    if n > 0 {
        lemma_journeys_error_count_nonneg(journeys, n - 1);
        lemma_steps_error_count_nonneg(
            journeys.index(n - 1)@.steps,
            journeys.index(n - 1)@.steps.len() as int,
        );
    }
}

/// A semantic rule over a whole scenario.
pub trait Rule {
    fn validate(&self, v: &Scenario, errors: &mut Vec<ValidationError>);
}

/// Rejects an empty scenario name.
pub struct NameRule {
    pub message: String,
}

impl NameRule {
    /// The rule with its canonical message.
    pub fn new() -> (r: NameRule) {
        NameRule { message: "name required and must be great then 0".to_owned() }
    }

    /// Appends one finding exactly when the name is empty.
    pub fn check(&self, scenario: &Scenario, errors: &mut Vec<ValidationError>)
        ensures
            forall|k: int|
                0 <= k < old(errors)@.len() ==> #[trigger] final(errors)@.index(k) == old(errors)@.index(k),
            final(errors)@.len() == old(errors)@.len() + if scenario.name@.len() == 0 {
                1int
            } else {
                0int
            },
            scenario.name@.len() == 0 ==> final(errors)@.last().path@ == Seq::<char>::empty()
                && final(errors)@.last().message@ == self.message@,
    {
        if scenario.name.as_str().unicode_len() == 0 {
            errors.push(
                ValidationError {
                    path: String::new(),
                    code: String::new(),
                    message: self.message.clone(),
                },
            );
        }
    }
}

impl Rule for NameRule {
    fn validate(&self, v: &Scenario, errors: &mut Vec<ValidationError>) {
        self.check(v, errors);
    }
}

/// Rejects an empty stage list.
pub struct StagesRule {
    pub message: String,
}

impl StagesRule {
    /// The rule with its canonical message.
    pub fn new() -> (r: StagesRule) {
        StagesRule { message: "Stages must be non empty array".to_owned() }
    }

    /// Appends one finding, at the workload's stages, exactly when no stage
    /// is given.
    pub fn check(&self, scenario: &Scenario, errors: &mut Vec<ValidationError>)
        ensures
            forall|k: int|
                0 <= k < old(errors)@.len() ==> #[trigger] final(errors)@.index(k) == old(errors)@.index(k),
            final(errors)@.len() == old(errors)@.len() + if scenario.workload.stages@.len() == 0 {
                1int
            } else {
                0int
            },
            scenario.workload.stages@.len() == 0 ==> final(errors)@.last().path@ == (
            "/workload/stages")@ && final(errors)@.last().message@ == self.message@,
    {
        if scenario.workload.stages.len() == 0 {
            errors.push(
                ValidationError {
                    path: "/workload/stages".to_owned(),
                    code: String::new(),
                    message: self.message.clone(),
                },
            );
        }
    }
}

impl Rule for StagesRule {
    fn validate(&self, v: &Scenario, errors: &mut Vec<ValidationError>) {
        self.check(v, errors);
    }
}

/// Rejects stage durations outside ten seconds to one day.
pub struct DurationRule {
    pub message: String,
}

impl DurationRule {
    /// The rule with its canonical message.
    pub fn new() -> (r: DurationRule) {
        DurationRule { message: "Duration must be >= 10 and < 86400 sec ".to_owned() }
    }

    /// Appends one finding per stage whose duration is out of range, in
    /// stage order, each at that stage's `duration_sec`.
    pub fn check(&self, scenario: &Scenario, errors: &mut Vec<ValidationError>)
        ensures
            forall|k: int|
                0 <= k < old(errors)@.len() ==> #[trigger] final(errors)@.index(k) == old(errors)@.index(k),
            final(errors)@.len() == old(errors)@.len() + bad_duration_indices(
                scenario.workload.stages@,
            ).len(),
            forall|k: int|
                0 <= k < bad_duration_indices(scenario.workload.stages@).len() ==> {
                    let e = #[trigger] final(errors)@.index(old(errors)@.len() + k);
                    &&& e.path@ == ("/workload/stages/")@ + dec_str(
                        bad_duration_indices(scenario.workload.stages@).index(k) as nat,
                    ) + ("/duration_sec")@
                    &&& e.message@ == self.message@
                },
    {
        let stages = &scenario.workload.stages;
        let ghost all = stages@;
        let mut i: usize = 0;
        while i < stages.len()
            invariant
                i <= all.len(),
                stages@ == all,
                forall|k: int|
                    0 <= k < old(errors)@.len() ==> #[trigger] errors@.index(k) == old(errors)@.index(k),
                errors@.len() == old(errors)@.len() + bad_duration_indices(
                    all.take(i as int),
                ).len(),
                forall|k: int|
                    0 <= k < bad_duration_indices(all.take(i as int)).len() ==> {
                        let e = #[trigger] errors@.index(old(errors)@.len() + k);
                        &&& e.path@ == ("/workload/stages/")@ + dec_str(
                            bad_duration_indices(all.take(i as int)).index(k) as nat,
                        ) + ("/duration_sec")@
                        &&& e.message@ == self.message@
                    },
            decreases all.len() - i,
        {
            proof {
                assert(all.take(i + 1).drop_last() =~= all.take(i as int));
                assert(all.take(i + 1).last() == all.index(i as int));
            }
            let stage = stages[i];
            if stage.duration_sec < 10 || stage.duration_sec > 86400 {
                let mut path = String::new();
                path.append("/workload/stages/");
                push_dec_str(&mut path, i as u64);
                path.append("/duration_sec");
                errors.push(
                    ValidationError { path, code: String::new(), message: self.message.clone() },
                );
            }
            i = i + 1;
        }
        proof {
            assert(all.take(all.len() as int) == all);
        }
    }
}

impl Rule for DurationRule {
    fn validate(&self, v: &Scenario, errors: &mut Vec<ValidationError>) {
        self.check(v, errors);
    }
}

/// Rejects stage rates outside one to ten thousand per second.
pub struct RpsRule {
    pub message: String,
}

impl RpsRule {
    /// The rule with its canonical message.
    pub fn new() -> (r: RpsRule) {
        RpsRule { message: "Rps must be > 1 and < 100 ".to_owned() }
    }

    /// Appends one finding per stage whose rate is out of range, in stage
    /// order, each at that stage's `rps`.
    pub fn check(&self, scenario: &Scenario, errors: &mut Vec<ValidationError>)
        ensures
            forall|k: int|
                0 <= k < old(errors)@.len() ==> #[trigger] final(errors)@.index(k) == old(errors)@.index(k),
            final(errors)@.len() == old(errors)@.len() + bad_rps_indices(
                scenario.workload.stages@,
            ).len(),
            forall|k: int|
                0 <= k < bad_rps_indices(scenario.workload.stages@).len() ==> {
                    let e = #[trigger] final(errors)@.index(old(errors)@.len() + k);
                    &&& e.path@ == ("/workload/stages/")@ + dec_str(
                        bad_rps_indices(scenario.workload.stages@).index(k) as nat,
                    ) + ("/rps")@
                    &&& e.message@ == self.message@
                },
    {
        let stages = &scenario.workload.stages;
        let ghost all = stages@;
        let mut i: usize = 0;
        while i < stages.len()
            invariant
                i <= all.len(),
                stages@ == all,
                forall|k: int|
                    0 <= k < old(errors)@.len() ==> #[trigger] errors@.index(k) == old(errors)@.index(k),
                errors@.len() == old(errors)@.len() + bad_rps_indices(all.take(i as int)).len(),
                forall|k: int|
                    0 <= k < bad_rps_indices(all.take(i as int)).len() ==> {
                        let e = #[trigger] errors@.index(old(errors)@.len() + k);
                        &&& e.path@ == ("/workload/stages/")@ + dec_str(
                            bad_rps_indices(all.take(i as int)).index(k) as nat,
                        ) + ("/rps")@
                        &&& e.message@ == self.message@
                    },
            decreases all.len() - i,
        {
            proof {
                assert(all.take(i + 1).drop_last() =~= all.take(i as int));
                assert(all.take(i + 1).last() == all.index(i as int));
            }
            let stage = stages[i];
            if stage.rps == 0 || stage.rps > 10000 {
                let mut path = String::new();
                path.append("/workload/stages/");
                push_dec_str(&mut path, i as u64);
                path.append("/rps");
                errors.push(
                    ValidationError { path, code: String::new(), message: self.message.clone() },
                );
            }
            i = i + 1;
        }
        proof {
            assert(all.take(all.len() as int) == all);
        }
    }
}

impl Rule for RpsRule {
    fn validate(&self, v: &Scenario, errors: &mut Vec<ValidationError>) {
        self.check(v, errors);
    }
}

/// Rejects any scenario version other than one.
pub struct VersionRule {
    pub message: String,
}

impl VersionRule {
    /// The rule with its canonical message.
    pub fn new() -> (r: VersionRule) {
        VersionRule { message: "version must be integer > 0 and <= 50_000 ".to_owned() }
    }

    /// Appends one finding, at the version, exactly when the version is not
    /// one.
    pub fn check(&self, scenario: &Scenario, errors: &mut Vec<ValidationError>)
        ensures
            forall|k: int|
                0 <= k < old(errors)@.len() ==> #[trigger] final(errors)@.index(k) == old(errors)@.index(k),
            final(errors)@.len() == old(errors)@.len() + if scenario.version == 1 {
                0int
            } else {
                1int
            },
            scenario.version != 1 ==> final(errors)@.last().path@ == ("/version")@ && final(errors)@.last().code@ == ("unsupported_version")@,
    {
        if scenario.version != 1 {
            errors.push(
                ValidationError {
                    path: "/version".to_owned(),
                    code: "unsupported_version".to_owned(),
                    message: self.message.clone(),
                },
            );
        }
    }
}

impl Rule for VersionRule {
    fn validate(&self, v: &Scenario, errors: &mut Vec<ValidationError>) {
        self.check(v, errors);
    }
}

/// Rejects a base URL that does not begin with `http`.
pub struct WebProtocolRule {
    pub message: String,
}

impl WebProtocolRule {
    /// The rule with its canonical message.
    pub fn new() -> (r: WebProtocolRule) {
        WebProtocolRule { message: "url must starts with http or https".to_owned() }
    }

    /// Appends one finding, at the base URL, exactly when the URL starts
    /// with neither `http` nor `https` — that is, not with `http`.
    pub fn check(&self, scenario: &Scenario, errors: &mut Vec<ValidationError>)
        ensures
            forall|k: int|
                0 <= k < old(errors)@.len() ==> #[trigger] final(errors)@.index(k) == old(errors)@.index(k),
            final(errors)@.len() == old(errors)@.len() + if spec_starts_with(
                scenario.target.base_url@,
                ("http")@,
            ) {
                0int
            } else {
                1int
            },
            !spec_starts_with(scenario.target.base_url@, ("http")@) ==> final(errors)@.last().path@ == ("/target/base_url")@ && final(errors)@.last().message@
                == self.message@,
    {
        let https_ok = starts_with(scenario.target.base_url.as_str(), "https");
        let http_ok = starts_with(scenario.target.base_url.as_str(), "http");
        proof {
            reveal_strlit("http");
            reveal_strlit("https");
            if https_ok {
                assert(scenario.target.base_url@.subrange(0, 4) =~= ("http")@);
            }
        }
        if !(https_ok || http_ok) {
            errors.push(
                ValidationError {
                    path: "/target/base_url".to_owned(),
                    code: String::new(),
                    message: self.message.clone(),
                },
            );
        }
    }
}

impl Rule for WebProtocolRule {
    fn validate(&self, v: &Scenario, errors: &mut Vec<ValidationError>) {
        self.check(v, errors);
    }
}

/// Rejects a missing journey list, and every journey fault within one: an
/// empty name, a weight out of range, and each bad step.
pub struct JourneysRule {
    pub message: String,
}

/// What the journeys rule appends: one finding for an empty list, else the
/// journeys' combined findings.
pub open spec fn journeys_rule_count(journeys: Seq<crate::schema::Journey>) -> int {
    if journeys.len() == 0 {
        1
    } else {
        journeys_error_count(journeys, journeys.len() as int)
    }
}

impl JourneysRule {
    /// The rule with its canonical message.
    pub fn new() -> (r: JourneysRule) {
        JourneysRule { message: "Journeys must be array of Journey. required ".to_owned() }
    }

    /// Appends the journeys' findings: one per fault, each at the fault's
    /// own path, in journey and step order; one `missing_field` finding when
    /// no journey is given.
    pub fn check(&self, scenario: &Scenario, errors: &mut Vec<ValidationError>)
        ensures
            forall|k: int|
                0 <= k < old(errors)@.len() ==> #[trigger] final(errors)@.index(k) == old(errors)@.index(k),
            final(errors)@.len() == old(errors)@.len() + journeys_rule_count(scenario.journeys@),
            scenario.journeys@.len() == 0 ==> final(errors)@.last().path@ == ("/journeys")@
                && final(errors)@.last().code@ == ("missing_field")@,
            scenario.journeys@.len() > 0 ==> ({
                let paths = journeys_finding_paths(
                    scenario.journeys@,
                    scenario.journeys@.len() as int,
                );
                &&& final(errors)@.len() == old(errors)@.len() + paths.len()
                &&& forall|k: int|
                    0 <= k < paths.len() ==> {
                        let e = #[trigger] final(errors)@.index(old(errors)@.len() + k);
                        &&& e.path@ == paths.index(k)
                        &&& e.code@ == ("invalid_value")@
                    }
            }),
    {
        if scenario.journeys.len() == 0 {
            errors.push(
                ValidationError {
                    path: "/journeys".to_owned(),
                    code: "missing_field".to_owned(),
                    message: self.message.clone(),
                },
            );
            return ;
        }
        let ghost all = scenario.journeys@;
        let mut i: usize = 0;
        while i < scenario.journeys.len()
            invariant
                i <= all.len(),
                scenario.journeys@ == all,
                all.len() > 0,
                forall|k: int|
                    0 <= k < old(errors)@.len() ==> #[trigger] errors@.index(k) == old(errors)@.index(k),
                errors@.len() == old(errors)@.len() + journeys_finding_paths(all, i as int).len(),
                forall|k: int|
                    0 <= k < journeys_finding_paths(all, i as int).len() ==> {
                        let e = #[trigger] errors@.index(old(errors)@.len() + k);
                        &&& e.path@ == journeys_finding_paths(all, i as int).index(k)
                        &&& e.code@ == ("invalid_value")@
                    },
            decreases all.len() - i,
        {
            proof {
                lemma_journeys_paths_count(all, i as int);
                lemma_journeys_error_count_nonneg(all, i as int);
            }
            let journey = &scenario.journeys[i];
            let ghost len_before = errors@.len() as int;
            let ghost done = journeys_finding_paths(all, i as int);
            let ghost n_part = if journey@.name.len() == 0 {
                seq![journey_field_prefix(i as int) + ("/name")@]
            } else {
                Seq::<Seq<char>>::empty()
            };
            let ghost w_part = if journey@.weight < 1 || journey@.weight > 10000 {
                seq![journey_field_prefix(i as int) + ("/weight")@]
            } else {
                Seq::<Seq<char>>::empty()
            };
            if journey.name.as_str().unicode_len() == 0 {
                errors.push(
                    ValidationError {
                        path: journey_path_text(i, "/name"),
                        code: "invalid_value".to_owned(),
                        message: "name must be filled".to_owned(),
                    },
                );
            }
            if journey.weight < 1 || journey.weight > 10000 {
                errors.push(
                    ValidationError {
                        path: journey_path_text(i, "/weight"),
                        code: "invalid_value".to_owned(),
                        message: "weight must be >= 1 and < 10000".to_owned(),
                    },
                );
            }
            proof {
                assert(errors@.len() == len_before + n_part.len() + w_part.len());
                assert forall|x: int| old(errors)@.len() <= x < len_before implies {
                    let done_seg = journeys_finding_paths(all, i as int);
                    (#[trigger] errors@.index(x)).path@ == done_seg.index(x - old(errors)@.len())
                        && errors@.index(x).code@ == ("invalid_value")@
                } by {
                    let kk = x - old(errors)@.len();
                    assert(errors@.index(old(errors)@.len() + kk).path@
                        == journeys_finding_paths(all, i as int).index(kk));
                }
            }
            let ghost steps = journey@.steps;
            let mut k: usize = 0;
            while k < journey.steps.len()
                invariant
                    k <= steps.len(),
                    journey == scenario.journeys@.index(i as int),
                    0 <= i < scenario.journeys@.len(),
                    steps == journey@.steps,
                    n_part == (if journey@.name.len() == 0 {
                        seq![journey_field_prefix(i as int) + ("/name")@]
                    } else {
                        Seq::<Seq<char>>::empty()
                    }),
                    w_part == (if journey@.weight < 1 || journey@.weight > 10000 {
                        seq![journey_field_prefix(i as int) + ("/weight")@]
                    } else {
                        Seq::<Seq<char>>::empty()
                    }),
                    errors@.len() == len_before + n_part.len() + w_part.len() + step_paths_upto(
                        i as int,
                        steps,
                        k as int,
                    ).len(),
                    forall|x: int|
                        len_before <= x < errors@.len() ==> {
                            let seg = n_part + w_part + step_paths_upto(i as int, steps, k as int);
                            (#[trigger] errors@.index(x)).path@ == seg.index(x - len_before)
                                && errors@.index(x).code@ == ("invalid_value")@
                        },
                    forall|x: int|
                        0 <= x < old(errors)@.len() ==> #[trigger] errors@.index(x) == old(errors)@.index(x),
                    old(errors)@.len() <= len_before,
                    errors@.len() >= len_before,
                    forall|x: int|
                        old(errors)@.len() <= x < len_before ==> {
                            let done_seg = journeys_finding_paths(all, i as int);
                            (#[trigger] errors@.index(x)).path@ == done_seg.index(
                                x - old(errors)@.len(),
                            ) && errors@.index(x).code@ == ("invalid_value")@
                        },
                    len_before == old(errors)@.len() + journeys_finding_paths(
                        all,
                        i as int,
                    ).len(),
                decreases steps.len() - k,
            {
                let ghost seg_old = n_part + w_part + step_paths_upto(i as int, steps, k as int);
                let rule = JourneyStepRule::new();
                rule.check(&journey.steps[k], errors, i, k);
                proof {
                    lemma_step_paths_count(i as int, k as int, steps.index(k as int));
                    let sfp = step_finding_paths(i as int, k as int, steps.index(k as int));
                    assert(step_paths_upto(i as int, steps, k + 1) =~= step_paths_upto(
                        i as int,
                        steps,
                        k as int,
                    ) + sfp);
                    let seg = n_part + w_part + step_paths_upto(i as int, steps, k + 1);
                    assert(seg =~= seg_old + sfp);
                    assert forall|x: int| len_before <= x < errors@.len() implies {
                        (#[trigger] errors@.index(x)).path@ == seg.index(x - len_before)
                            && errors@.index(x).code@ == ("invalid_value")@
                    } by {
                        if x - len_before < seg_old.len() {
                            assert(seg.index(x - len_before) == seg_old.index(x - len_before));
                        } else {
                            assert(errors@.index(
                                (len_before + seg_old.len()) + (x - len_before - seg_old.len()),
                            ).path@ == sfp.index(x - len_before - seg_old.len()));
                            assert(seg.index(x - len_before) == sfp.index(
                                x - len_before - seg_old.len(),
                            ));
                        }
                    }
                }
                k = k + 1;
            }
            proof {
                assert(journeys_finding_paths(all, i + 1) == journeys_finding_paths(all, i as int)
                    + journey_finding_paths(i as int, all.index(i as int)@));
                assert(journey_finding_paths(i as int, all.index(i as int)@) =~= n_part + w_part
                    + step_paths_upto(i as int, steps, steps.len() as int));
                lemma_journeys_paths_count(all, i + 1);
                lemma_journeys_error_count_nonneg(all, i + 1);
                let done = journeys_finding_paths(all, i as int);
                let next = journeys_finding_paths(all, i + 1);
                assert forall|k2: int| 0 <= k2 < next.len() implies {
                    let e = #[trigger] errors@.index(old(errors)@.len() + k2);
                    e.path@ == next.index(k2) && e.code@ == ("invalid_value")@
                } by {
                    if k2 < done.len() {
                        assert(next.index(k2) == done.index(k2));
                    } else {
                        let seg = n_part + w_part + step_paths_upto(
                            i as int,
                            steps,
                            steps.len() as int,
                        );
                        assert(next.index(k2) == seg.index(k2 - done.len()));
                        assert(old(errors)@.len() + k2 == len_before + (k2 - done.len()));
                    }
                }
            }
            i = i + 1;
        }
        proof {
            lemma_journeys_paths_count(all, all.len() as int);
        }
    }
}

impl Rule for JourneysRule {
    fn validate(&self, v: &Scenario, errors: &mut Vec<ValidationError>) {
        self.check(v, errors);
    }
}

/// Rejects each bad field of one step: a sleep out of range, a timeout out
/// of range, a path that is not absolute, too many headers, or an oversized
/// body.
pub struct JourneyStepRule {
    pub message: String,
}

impl JourneyStepRule {
    /// The rule with its canonical message.
    pub fn new() -> (r: JourneyStepRule) {
        JourneyStepRule { message: "journey step must be valid".to_owned() }
    }

    /// Appends the step's findings: one per bad field, each at the field's
    /// own path, flagged `invalid_value`, in the order timeout, path,
    /// headers, body.
    pub fn check(
        &self,
        step: &Step,
        errors: &mut Vec<ValidationError>,
        journey_index: usize,
        step_index: usize,
    )
        ensures
            forall|k: int|
                0 <= k < old(errors)@.len() ==> #[trigger] final(errors)@.index(k) == old(errors)@.index(k),
            final(errors)@.len() == old(errors)@.len() + step_error_count(step@),
            ({
                let paths = step_finding_paths(journey_index as int, step_index as int, step@);
                &&& final(errors)@.len() == old(errors)@.len() + paths.len()
                &&& forall|k: int|
                    0 <= k < paths.len() ==> {
                        let e = #[trigger] final(errors)@.index(old(errors)@.len() + k);
                        &&& e.path@ == paths.index(k)
                        &&& e.code@ == ("invalid_value")@
                    }
            }),
    {
        proof {
            lemma_step_paths_count(journey_index as int, step_index as int, step@);
        }
        let ghost base = errors@.len() as int;
        let ghost paths = step_finding_paths(journey_index as int, step_index as int, step@);
        match step {
            Step::Sleep { duration_ms } => {
                if *duration_ms == 0 || *duration_ms > 10000 {
                    errors.push(
                        ValidationError {
                            path: step_path_text(journey_index, step_index, "/duration_ms"),
                            code: "invalid_value".to_owned(),
                            message: "duration_ms must be between 1 and 10000".to_owned(),
                        },
                    );
                }
            },
            Step::Request { path, body, headers, method: _, timeout_ms } => {
                let ghost t_part = match step@ {
                    StepView::Request { timeout_ms: tm, .. } => match tm {
                        Some(t) => if t == 0 || t > 100000 {
                            seq![step_field_prefix(journey_index as int, step_index as int) + (
                            "/timeout_ms")@]
                        } else {
                            Seq::<Seq<char>>::empty()
                        },
                        None => Seq::<Seq<char>>::empty(),
                    },
                    _ => Seq::<Seq<char>>::empty(),
                };
                let ghost p_part = match step@ {
                    StepView::Request { path: pp, .. } => if spec_starts_with(pp, seq!['/']) {
                        Seq::<Seq<char>>::empty()
                    } else {
                        seq![step_field_prefix(journey_index as int, step_index as int) + (
                        "/path")@]
                    },
                    _ => Seq::<Seq<char>>::empty(),
                };
                let ghost h_part = match step@ {
                    StepView::Request { headers: hh, .. } => match hh {
                        Some(h) => if h.len() > 100 {
                            seq![step_field_prefix(journey_index as int, step_index as int) + (
                            "/headers")@]
                        } else {
                            Seq::<Seq<char>>::empty()
                        },
                        None => Seq::<Seq<char>>::empty(),
                    },
                    _ => Seq::<Seq<char>>::empty(),
                };
                let ghost b_part = match step@ {
                    StepView::Request { body: bb, .. } => match bb {
                        Some(b) => if b.len() > 10000 {
                            seq![step_field_prefix(journey_index as int, step_index as int) + (
                            "/body")@]
                        } else {
                            Seq::<Seq<char>>::empty()
                        },
                        None => Seq::<Seq<char>>::empty(),
                    },
                    _ => Seq::<Seq<char>>::empty(),
                };
                proof {
                    assert(paths == t_part + p_part + h_part + b_part);
                }
                match timeout_ms {
                    Some(t) => {
                        if *t == 0 || *t > 100000 {
                            errors.push(
                                ValidationError {
                                    path: step_path_text(journey_index, step_index, "/timeout_ms"),
                                    code: "invalid_value".to_owned(),
                                    message: "timeout_ms must be between 1 and 100000".to_owned(),
                                },
                            );
                        }
                    },
                    None => {},
                }
                proof {
                    assert(errors@.len() == base + t_part.len());
                    assert(forall|k: int|
                        0 <= k < t_part.len() ==> #[trigger] errors@.index(base + k).path@
                            == t_part.index(k) && errors@.index(base + k).code@ == (
                        "invalid_value")@);
                    reveal_strlit("/");
                }
                if !starts_with(path.as_str(), "/") {
                    proof {
                        assert(("/")@ =~= seq!['/']);
                    }
                    errors.push(
                        ValidationError {
                            path: step_path_text(journey_index, step_index, "/path"),
                            code: "invalid_value".to_owned(),
                            message: "path required. path must be relative, starts with '/'"
                                .to_owned(),
                        },
                    );
                } else {
                    proof {
                        assert(("/")@ =~= seq!['/']);
                    }
                }
                proof {
                    assert(errors@.len() == base + t_part.len() + p_part.len());
                    assert(forall|k: int|
                        0 <= k < p_part.len() ==> #[trigger] errors@.index(
                            base + t_part.len() + k,
                        ).path@ == p_part.index(k) && errors@.index(base + t_part.len() + k).code@
                            == ("invalid_value")@);
                }
                match headers {
                    Some(h) => {
                        if h.len() > 100 {
                            errors.push(
                                ValidationError {
                                    path: step_path_text(journey_index, step_index, "/headers"),
                                    code: "invalid_value".to_owned(),
                                    message: "headers must be less than 100 items".to_owned(),
                                },
                            );
                        }
                    },
                    None => {},
                }
                proof {
                    assert(errors@.len() == base + t_part.len() + p_part.len() + h_part.len());
                }
                match body {
                    Some(b) => {
                        if b.as_str().unicode_len() > 10000 {
                            errors.push(
                                ValidationError {
                                    path: step_path_text(journey_index, step_index, "/body"),
                                    code: "invalid_value".to_owned(),
                                    message: "body must be less than 10000 characters".to_owned(),
                                },
                            );
                        }
                    },
                    None => {},
                }
                proof {
                    assert forall|k: int| 0 <= k < paths.len() implies {
                        let e = #[trigger] errors@.index(base + k);
                        e.path@ == paths.index(k) && e.code@ == ("invalid_value")@
                    } by {
                        if k < t_part.len() {
                            assert(paths.index(k) == t_part.index(k));
                        } else if k < t_part.len() + p_part.len() {
                            assert(paths.index(k) == p_part.index(k - t_part.len()));
                        } else if k < t_part.len() + p_part.len() + h_part.len() {
                            assert(paths.index(k) == h_part.index(
                                k - t_part.len() - p_part.len(),
                            ));
                        } else {
                            assert(paths.index(k) == b_part.index(
                                k - t_part.len() - p_part.len() - h_part.len(),
                            ));
                        }
                    }
                }
            },
        }
    }
}

/// One of the semantic rules, ready to run.
pub enum RuleKind {
    Name(NameRule),
    Stages(StagesRule),
    Duration(DurationRule),
    Rps(RpsRule),
    Version(VersionRule),
    WebProtocol(WebProtocolRule),
    Journeys(JourneysRule),
}

/// What one rule appends on a scenario.
pub open spec fn rule_error_count(rule: RuleKind, s: Scenario) -> int {
    match rule {
        RuleKind::Name(_) => if s.name@.len() == 0 {
            1int
        } else {
            0int
        },
        RuleKind::Stages(_) => if s.workload.stages@.len() == 0 {
            1int
        } else {
            0int
        },
        RuleKind::Duration(_) => bad_duration_indices(s.workload.stages@).len() as int,
        RuleKind::Rps(_) => bad_rps_indices(s.workload.stages@).len() as int,
        RuleKind::Version(_) => if s.version == 1 {
            0int
        } else {
            1int
        },
        RuleKind::WebProtocol(_) => if spec_starts_with(s.target.base_url@, ("http")@) {
            0int
        } else {
            1int
        },
        RuleKind::Journeys(_) => journeys_rule_count(s.journeys@),
    }
}

/// What a rule list appends on a scenario, over its first `n` rules.
pub open spec fn rules_error_count(rules: Seq<RuleKind>, s: Scenario, n: int) -> int
    decreases n,
{
    if n <= 0 {
        0
    } else {
        rules_error_count(rules, s, n - 1) + rule_error_count(rules.index(n - 1), s)
    }
}

proof fn lemma_rules_error_count_nonneg(rules: Seq<RuleKind>, s: Scenario, n: int)
    ensures
        rules_error_count(rules, s, n) >= 0,
    decreases n,
{
    if n > 0 {
        lemma_rules_error_count_nonneg(rules, s, n - 1);
        match rules.index(n - 1) {
            RuleKind::Journeys(_) => {
                if s.journeys@.len() > 0 {
                    lemma_journeys_error_count_nonneg(
                        s.journeys@,
                        s.journeys@.len() as int,
                    );
                }
            },
            _ => {},
        }
    }
}

/// The ordered set of semantic rules one validation pass runs.
pub struct Validator {
    pub rules: Vec<RuleKind>,
}

impl Validator {
    /// A validator with no rules.
    pub fn new() -> (r: Validator)
        ensures
            r.rules@.len() == 0,
    {
        Validator { rules: Vec::new() }
    }

    /// The validator with one more rule, run after the present ones.
    pub fn with_rule(self, rule: RuleKind) -> (r: Validator)
        ensures
            r.rules@ == self.rules@.push(rule),
    {
        let mut rules = self.rules;
        rules.push(rule);
        Validator { rules }
    }

    /// Runs every rule in order; a scenario passes exactly when nothing is
    /// appended.
    pub fn validate(&self, scenario: &Scenario, errors: &mut Vec<ValidationError>)
        ensures
            forall|k: int|
                0 <= k < old(errors)@.len() ==> #[trigger] final(errors)@.index(k) == old(errors)@.index(k),
            final(errors)@.len() == old(errors)@.len() + rules_error_count(
                self.rules@,
                *scenario,
                self.rules@.len() as int,
            ),
    {
        let mut i: usize = 0;
        while i < self.rules.len()
            invariant
                i <= self.rules@.len(),
                forall|k: int|
                    0 <= k < old(errors)@.len() ==> #[trigger] errors@.index(k) == old(errors)@.index(k),
                errors@.len() == old(errors)@.len() + rules_error_count(
                    self.rules@,
                    *scenario,
                    i as int,
                ),
            decreases self.rules@.len() - i,
        {
            proof {
                lemma_rules_error_count_nonneg(self.rules@, *scenario, i as int);
            }
            match &self.rules[i] {
                RuleKind::Name(rule) => rule.check(scenario, errors),
                RuleKind::Stages(rule) => rule.check(scenario, errors),
                RuleKind::Duration(rule) => rule.check(scenario, errors),
                RuleKind::Rps(rule) => rule.check(scenario, errors),
                RuleKind::Version(rule) => rule.check(scenario, errors),
                RuleKind::WebProtocol(rule) => rule.check(scenario, errors),
                RuleKind::Journeys(rule) => rule.check(scenario, errors),
            }
            i = i + 1;
        }
    }
}

} // verus!
