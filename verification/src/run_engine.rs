use vstd::prelude::*;
use vstd::string::StrSliceExecFns;
use vstd::utf8::encode_utf8;
use crate::events::{Event, EventSink};
use crate::execution_plan::{plan_wf, ExecutionPlan};
use crate::executor::{ErrorType, ExecutorMock, ResponseResult};
use crate::metrics::{metrics_wf, sum_endpoint_totals, ByStage, EndpointStats, LatencySummary,
    MetricsAggregator, Requests};
use crate::sampler::{spec_peek, WeightSampler};
use crate::scheduler::{lemma_planned_monotone, lemma_planned_within, lemma_prefix_bounds,
    lemma_tick_gap_100, spec_tick_at, total_duration_ms, total_ticks_of, valid_stages, Scheduler};
use crate::schema::{JourneyView, Scenario, Stage, StepView};
use crate::text::{dec_bytes, dec_str, push_dec_bytes, u64_to_string};
use crate::vu_runner::{endpoint_key_of, first_request_from, vu_steps, NextAction, VUState, VuPool,
    VuRuntime};

verus! {

/// The fixed size of the virtual-user pool.
pub const VUS: usize = 1000;

/// The cap on concurrently in-flight requests in real-time runs.
pub const MAX_IN_FLIGHT: usize = 1000;

/// The drain grace period of real-time runs, in milliseconds.
pub const GRACE_MS: u64 = 10_000;

/// Whether a run paces itself against the wall clock or advances virtual
/// time by scheduler arithmetic.
#[derive(Debug, Clone, Copy, PartialEq, Eq, Structural)]
pub enum RunMode {
    Real,
    Deterministic,
}

/// The engine's configuration: which executor variant to use and whether to
/// run against the wall clock.
pub struct RunEngine {
    pub is_mock: bool,
    pub is_real_time: bool,
}

impl RunEngine {
    /// An engine configuration; absent flags default to a real HTTP run in
    /// real time.
    pub fn new(is_mock: Option<bool>, is_real_time: Option<bool>) -> (r: RunEngine)
        ensures
            r.is_mock == match is_mock {
                Some(b) => b,
                None => false,
            },
            r.is_real_time == match is_real_time {
                Some(b) => b,
                None => true,
            },
    {
        RunEngine {
            is_mock: match is_mock {
                Some(b) => b,
                None => false,
            },
            is_real_time: match is_real_time {
                Some(b) => b,
                None => true,
            },
        }
    }
}

/// The scenario identity a report carries.
#[derive(Debug)]
pub struct ScenarioInfo {
    pub name: String,
    pub version: String,
}

/// The run-level figures of a report.
#[derive(Debug)]
pub struct Run {
    pub mode: String,
    pub seed: String,
    pub total_ticks: u64,
    pub duration_sec_planned: u64,
}

/// How the planned ticks arrived: counts, and the missed share in permille.
#[derive(Debug, Clone, Copy, PartialEq, Eq, Structural)]
pub struct TicksArrival {
    pub total: u64,
    pub executed: u64,
    pub missed: u64,
    pub missed_ratio_permille: u64,
    pub tick_interval_ms: u64,
    pub first_tick_ms: u64,
    pub last_tick_ms: u64,
}

/// Planned and achieved request rates.
#[derive(Debug)]
pub struct Rps {
    pub planned_avg: u64,
    pub achieved_avg: u64,
    pub achieved_avg_including_drain: u64,
    pub by_stage: Vec<(u64, ByStage)>,
}

/// The run's time window.
#[derive(Debug, Clone, Copy, PartialEq, Eq, Structural)]
pub struct Time {
    pub planned_start_ms: u64,
    pub planned_end_ms: u64,
    pub planned_duration_ms: u64,
    pub planned_duration_sec: u64,
    pub real_time_duration_sec: u64,
}

/// Error quality: the HTTP error share, as a rounded percentage.
#[derive(Debug, Clone, Copy, PartialEq, Eq, Structural)]
pub struct ErrorAndQuality {
    pub http_error_rate: u64,
}

/// Pool utilisation: how often no user was ready, in permille of all ticks.
#[derive(Debug, Clone, Copy, PartialEq, Eq, Structural)]
pub struct VuUtilization {
    pub count: u64,
    pub no_ready_ticks: u64,
    pub no_ready_ratio_permille: u64,
}

/// One journey's share of the run.
#[derive(Debug)]
pub struct ByJourney {
    pub id: usize,
    pub key: String,
    pub per_vu: u64,
    pub per_request: u64,
}

/// The structured outcome of a run.
#[derive(Debug)]
pub struct RunReport {
    pub scenario: ScenarioInfo,
    pub run: Run,
    pub ticks_arrival: TicksArrival,
    pub rps: Rps,
    pub requests: Requests,
    pub latency_overall_summary: LatencySummary,
    pub latency_by_stage: Vec<(u64, LatencySummary)>,
    pub time: Time,
    pub missed_tick_count: u16,
    pub by_endpoint: Vec<(String, EndpointStats)>,
    pub by_journey: Vec<ByJourney>,
    pub sleep: u64,
    pub error_and_quality: ErrorAndQuality,
    pub vus: VuUtilization,
}

impl RunReport {
    /// An empty report whose time window is taken from the scheduler.
    pub fn new(scheduler: &Scheduler) -> (r: RunReport)
        ensures
            r.time.planned_duration_ms == scheduler.planned_duration_ms,
            r.time.planned_duration_sec == scheduler.planned_duration_sec,
            r.requests.total == 0,
            r.by_endpoint@.len() == 0,
            r.by_journey@.len() == 0,
    {
        RunReport {
            scenario: ScenarioInfo { name: String::new(), version: String::new() },
            run: Run {
                mode: String::new(),
                seed: String::new(),
                total_ticks: 0,
                duration_sec_planned: 0,
            },
            ticks_arrival: TicksArrival {
                total: 0,
                executed: 0,
                missed: 0,
                missed_ratio_permille: 0,
                tick_interval_ms: 0,
                first_tick_ms: 0,
                last_tick_ms: 0,
            },
            rps: Rps {
                planned_avg: 0,
                achieved_avg: 0,
                achieved_avg_including_drain: 0,
                by_stage: Vec::new(),
            },
            requests: Requests { total: 0, ok: 0, error: 0 },
            latency_overall_summary: LatencySummary::default(),
            latency_by_stage: Vec::new(),
            time: Time {
                planned_start_ms: 0,
                planned_end_ms: 0,
                planned_duration_ms: scheduler.planned_duration_ms,
                planned_duration_sec: scheduler.planned_duration_sec,
                real_time_duration_sec: 0,
            },
            missed_tick_count: 0,
            by_endpoint: Vec::new(),
            by_journey: Vec::new(),
            sleep: 0,
            error_and_quality: ErrorAndQuality { http_error_rate: 0 },
            vus: VuUtilization { count: 0, no_ready_ticks: 0, no_ready_ratio_permille: 0 },
        }
    }
}

/// The stable key a virtual user is assigned its journey under: its index, a
/// dash, and the sampler's seed.
pub open spec fn vu_stable_key(i: int, seed: Seq<char>) -> Seq<u8> {
    dec_bytes(i as nat) + seq![45u8] + encode_utf8(seed)
}

/// How many of the first `n` virtual users the sampler assigns journey `j`.
pub open spec fn count_vus_assigned(s: WeightSampler, n: int, j: int) -> int
    decreases n,
{
    if n <= 0 {
        0
    } else {
        count_vus_assigned(s, n - 1, j) + if spec_peek(s, vu_stable_key(n - 1, s.seed@)) == Some(
            j as i32,
        ) {
            1int
        } else {
            0int
        }
    }
}

/// The assigned count over `n` users is at most `n`.
pub proof fn lemma_count_vus_bound(s: WeightSampler, n: int, j: int)
    requires
        n >= 0,
    ensures
        0 <= count_vus_assigned(s, n, j) <= n,
    decreases n,
{
    if n > 0 {
        lemma_count_vus_bound(s, n - 1, j);
    }
}

/// Whether every user of a pool walks a journey of the plan and stands at a
/// step within it.
pub open spec fn pool_in_plan(plan: ExecutionPlan, vus: Seq<VUState>) -> bool {
    forall|k: int|
        0 <= k < vus.len() ==> {
            &&& (#[trigger] vus.index(k)).journey_id < plan.journeys@.len()
            &&& vus.index(k).step_index <= vu_steps(plan, vus.index(k)).len()
        }
}

/// A journey that is one request step and nothing else.
pub open spec fn single_request_journey(j: JourneyView) -> bool {
    j.steps.len() == 1 && j.steps.index(0) is Request
}

/// The "METHOD path" key of a single-request journey's one step.
pub open spec fn journey_request_key(j: JourneyView) -> Seq<char> {
    match j.steps.index(0) {
        StepView::Request { method, path, .. } => endpoint_key_of(method, path),
        _ => Seq::<char>::empty(),
    }
}

/// The path of a single-request journey's one step.
pub open spec fn journey_request_path(j: JourneyView) -> Seq<char> {
    match j.steps.index(0) {
        StepView::Request { path, .. } => path,
        _ => Seq::<char>::empty(),
    }
}

/// The journey the sampler assigns to the pool's first user; under a
/// positive total weight the choice is present, and it decides every
/// dispatch of an always-dispatching run, since the first user is ready at
/// every tick and the pool is scanned in order.
pub open spec fn vu0_journey(p: ExecutionPlan) -> int {
    match spec_peek(p.weight_sampler, vu_stable_key(0, p.weight_sampler.seed@)) {
        Some(id) => id as int,
        None => 0,
    }
}

/// The scenarios on which the deterministic engine owes one request per
/// planned tick: there is weight to sample (so the pool is full), every
/// journey is a single request (so no user lingers mid-walk), and no stage
/// exceeds ten requests per second (so ticks lie at least one hundred
/// milliseconds apart, past any mock latency, and the dispatched user is
/// ready again before the next tick). Outside this class ticks can find no
/// ready user and are counted as missed instead.
pub open spec fn always_dispatching(p: ExecutionPlan, stages: Seq<Stage>) -> bool {
    &&& p.weight_sampler.total_weight > 0
    &&& forall|i: int|
        0 <= i < p.journeys@.len() ==> single_request_journey(#[trigger] p.journeys@.index(i)@)
    &&& forall|i: int| 0 <= i < stages.len() ==> (#[trigger] stages.index(i)).rps <= 10
}

/// Builds the pool: each user is assigned a journey by the sampler under its
/// stable key, starts at step zero, and is ready at once. With a total
/// weight of zero no user is created. The second result counts, per
/// journey, the users assigned to it.
pub fn build_pool(plan: &ExecutionPlan, vus: usize) -> (r: (VuPool, Vec<u64>))
    requires
        plan_wf(*plan),
        vus <= 100_000,
    ensures
        pool_in_plan(*plan, r.0.vus@),
        r.1@.len() == plan.journeys@.len(),
        forall|j: int|
            0 <= j < plan.journeys@.len() ==> r.1@.index(j) == count_vus_assigned(
                plan.weight_sampler,
                vus as int,
                j,
            ),
        plan.weight_sampler.total_weight > 0 ==> {
            &&& r.0.vus@.len() == vus
            &&& forall|k: int|
                0 <= k < vus ==> {
                    let vu = #[trigger] r.0.vus@.index(k);
                    &&& vu.vu_id == k
                    &&& Some(vu.journey_id as i32) == spec_peek(
                        plan.weight_sampler,
                        vu_stable_key(k, plan.weight_sampler.seed@),
                    )
                    &&& vu.step_index == 0
                    &&& vu.next_ready_at_ms == 0
                    &&& vu.iteration_count == 0
                    &&& vu.total_sleep_ms == 0
                }
        },
        plan.weight_sampler.total_weight == 0 ==> r.0.vus@.len() == 0,
{
    let sampler = &plan.weight_sampler;
    let mut pool_vec: Vec<VUState> = Vec::new();
    let mut journey_per_vu: Vec<u64> = Vec::new();
    let mut j: usize = 0;
    while j < plan.journeys.len()
        invariant
            j <= plan.journeys@.len(),
            journey_per_vu@.len() == j,
            forall|x: int| 0 <= x < j ==> journey_per_vu@.index(x) == 0,
        decreases plan.journeys@.len() - j,
    {
        journey_per_vu.push(0);
        j = j + 1;
    }
    let mut i: usize = 0;
    while i < vus
        invariant
            i <= vus,
            vus <= 100_000,
            plan_wf(*plan),
            sampler == plan.weight_sampler,
            journey_per_vu@.len() == plan.journeys@.len(),
            forall|x: int|
                0 <= x < plan.journeys@.len() ==> journey_per_vu@.index(x) == count_vus_assigned(
                    plan.weight_sampler,
                    i as int,
                    x,
                ),
            pool_in_plan(*plan, pool_vec@),
            plan.weight_sampler.total_weight > 0 ==> {
                &&& pool_vec@.len() == i
                &&& forall|k: int|
                    0 <= k < i ==> {
                        let vu = #[trigger] pool_vec@.index(k);
                        &&& vu.vu_id == k
                        &&& Some(vu.journey_id as i32) == spec_peek(
                            plan.weight_sampler,
                            vu_stable_key(k, plan.weight_sampler.seed@),
                        )
                        &&& vu.step_index == 0
                        &&& vu.next_ready_at_ms == 0
                        &&& vu.iteration_count == 0
                        &&& vu.total_sleep_ms == 0
                    }
            },
            plan.weight_sampler.total_weight == 0 ==> pool_vec@.len() == 0,
        decreases vus - i,
    {
        let mut stable_key: Vec<u8> = Vec::new();
        push_dec_bytes(&mut stable_key, i as u64);
        stable_key.push(45);  // '-'
        let seed_bytes = sampler.seed.as_str().as_bytes_vec();
        let ghost mid = stable_key@;
        let mut b: usize = 0;
        while b < seed_bytes.len()
            invariant
                b <= seed_bytes@.len(),
                stable_key@ == mid + seed_bytes@.take(b as int),
            decreases seed_bytes@.len() - b,
        {
            let byte = seed_bytes[b];
            stable_key.push(byte);
            proof {
                assert(mid + seed_bytes@.take(b + 1) =~= (mid + seed_bytes@.take(
                    b as int,
                )).push(seed_bytes@.index(b as int)));
            }
            b = b + 1;
        }
        proof {
            assert(seed_bytes@.take(seed_bytes@.len() as int) == seed_bytes@);
            assert(stable_key@ =~= vu_stable_key(i as int, plan.weight_sampler.seed@));
        }
        match sampler.peek_bytes(stable_key.as_slice()) {
            Some(journey_id) => {
                proof {
                    crate::sampler::lemma_peek_in_range(plan.weight_sampler, stable_key@);
                    let idx = choose|x: int|
                        0 <= x < plan.weight_sampler.journey_ids@.len()
                            && plan.weight_sampler.journey_ids@.index(x) == journey_id;
                    assert(plan.weight_sampler.journey_ids@.index(idx) == idx as i32);
                    assert(0 <= journey_id < plan.journeys@.len());
                    lemma_count_vus_bound(plan.weight_sampler, i as int, journey_id as int);
                }
                let jid = journey_id as usize;
                if jid < journey_per_vu.len() {
                    let c = journey_per_vu[jid];
                    if c < u64::MAX {
                        journey_per_vu.set(jid, c + 1);
                    }
                }
                pool_vec.push(
                    VUState {
                        vu_id: i as u32,
                        journey_id: journey_id as u32,
                        step_index: 0,
                        next_ready_at_ms: 0,
                        iteration_count: 0,
                        total_sleep_ms: 0,
                    },
                );
            },
            None => {
                proof {
                    if plan.weight_sampler.total_weight > 0 {
                        crate::sampler::lemma_peek_some(plan.weight_sampler, stable_key@);
                    }
                }
            },
        }
        i = i + 1;
    }
    (VuPool::new(pool_vec), journey_per_vu)
}


/// The rounded error percentage: errors over total, times one hundred,
/// rounded half up; zero when nothing ran.
pub open spec fn spec_error_rate(error: int, total: int) -> int {
    if total == 0 {
        0
    } else {
        (200 * error + total) / (2 * total)
    }
}

fn duplicate_endpoint_entries(entries: &Vec<(String, EndpointStats)>) -> (r: Vec<
    (String, EndpointStats),
>)
    ensures
        r@.len() == entries@.len(),
        forall|i: int|
            0 <= i < entries@.len() ==> (#[trigger] r@.index(i)).0@ == entries@.index(i).0@
                && r@.index(i).1 == entries@.index(i).1,
{
    let mut out: Vec<(String, EndpointStats)> = Vec::with_capacity(entries.len());
    let mut i: usize = 0;
    while i < entries.len()
        invariant
            i <= entries@.len(),
            out@.len() == i,
            forall|k: int|
                0 <= k < i ==> (#[trigger] out@.index(k)).0@ == entries@.index(k).0@
                    && out@.index(k).1 == entries@.index(k).1,
        decreases entries@.len() - i,
    {
        let key = entries[i].0.clone();
        let stats = entries[i].1;
        out.push((key, stats));
        i = i + 1;
    }
    out
}

proof fn lemma_sum_totals_pointwise(a: Seq<(String, EndpointStats)>, b: Seq<(String, EndpointStats)>)
    requires
        a.len() == b.len(),
        forall|i: int| 0 <= i < a.len() ==> (#[trigger] a.index(i)).1 == b.index(i).1,
    ensures
        sum_endpoint_totals(a) == sum_endpoint_totals(b),
    decreases a.len(),
{
    if a.len() > 0 {
        lemma_sum_totals_pointwise(a.drop_last(), b.drop_last());
    }
}

fn copy_stage_entries(entries: &Vec<(u64, ByStage)>) -> (r: Vec<(u64, ByStage)>)
    ensures
        r@ == entries@,
{
    let mut out: Vec<(u64, ByStage)> = Vec::with_capacity(entries.len());
    let mut i: usize = 0;
    while i < entries.len()
        invariant
            i <= entries@.len(),
            out@ == entries@.take(i as int),
        decreases entries@.len() - i,
    {
        out.push(entries[i]);
        proof {
            assert(entries@.take(i + 1) =~= entries@.take(i as int).push(
                entries@.index(i as int),
            ));
        }
        i = i + 1;
    }
    proof {
        assert(entries@.take(entries@.len() as int) == entries@);
    }
    out
}

/// Fills the report from the final tallies. The latency digests stay zero;
/// the unverified printer fills them from the histograms afterwards.
#[verifier::rlimit(30)]
pub fn assemble_report(
    scenario_name: &String,
    scenario_version: u16,
    planned_duration_ms: u64,
    planned_duration_sec: u64,
    planned_avg_rps: u64,
    total_ticks: u64,
    missed_ticks: u64,
    no_ready_ticks: u64,
    first_tick_ms: u64,
    last_tick_ms: u64,
    real_time_duration_sec: u64,
    drain_time_sec: u64,
    vus_count: u64,
    total_sleep: u64,
    metrics: &MetricsAggregator,
    journey_per_vu: &Vec<u64>,
) -> (r: RunReport)
    requires
        metrics_wf(*metrics),
        total_ticks <= 0x4_0000_0000_0000,
        missed_ticks <= total_ticks,
        no_ready_ticks <= total_ticks,
    ensures
        r.scenario.name@ == scenario_name@,
        r.scenario.version@ == dec_str(scenario_version as nat),
        r.requests.total == metrics.total_requests,
        r.requests.ok == metrics.ok_requests,
        r.requests.error == metrics.error_requests,
        r.requests.total == r.requests.ok + r.requests.error,
        sum_endpoint_totals(r.by_endpoint@) == r.requests.total,
        r.error_and_quality.http_error_rate == spec_error_rate(
            metrics.error_requests as int,
            metrics.total_requests as int,
        ),
        r.run.total_ticks == total_ticks,
        r.run.duration_sec_planned == planned_duration_sec,
        r.ticks_arrival.total == total_ticks,
        r.ticks_arrival.executed == metrics.total_requests,
        r.ticks_arrival.missed == missed_ticks,
        r.ticks_arrival.missed_ratio_permille == if total_ticks == 0 {
            0int
        } else {
            missed_ticks * 1000 / total_ticks as int
        },
        r.ticks_arrival.first_tick_ms == first_tick_ms,
        r.ticks_arrival.last_tick_ms == last_tick_ms,
        r.ticks_arrival.tick_interval_ms == if total_ticks > 1 {
            (if last_tick_ms >= first_tick_ms {
                last_tick_ms - first_tick_ms
            } else {
                0int
            }) / (total_ticks - 1)
        } else {
            0int
        },
        r.time.planned_duration_ms == planned_duration_ms,
        r.time.planned_duration_sec == planned_duration_sec,
        r.time.real_time_duration_sec == real_time_duration_sec,
        r.rps.planned_avg == planned_avg_rps,
        r.rps.achieved_avg_including_drain == if real_time_duration_sec == 0 {
            0int
        } else {
            metrics.total_requests as int / real_time_duration_sec as int
        },
        r.rps.achieved_avg == if real_time_duration_sec == 0 {
            0int
        } else {
            (if metrics.total_requests >= drain_time_sec {
                metrics.total_requests - drain_time_sec
            } else {
                0int
            }) / real_time_duration_sec as int
        },
        r.rps.by_stage@ == metrics.by_stage@,
        r.vus.count == vus_count,
        r.vus.no_ready_ticks == no_ready_ticks,
        r.vus.no_ready_ratio_permille == if total_ticks == 0 {
            0int
        } else {
            no_ready_ticks * 1000 / total_ticks as int
        },
        r.missed_tick_count == missed_ticks as u16,
        r.sleep == total_sleep,
        r.by_endpoint@.len() == metrics.by_endpoint@.len(),
        forall|i: int|
            0 <= i < metrics.by_endpoint@.len() ==> (#[trigger] r.by_endpoint@.index(i)).0@
                == metrics.by_endpoint@.index(i).0@ && r.by_endpoint@.index(i).1
                == metrics.by_endpoint@.index(i).1,
        r.by_journey@.len() == metrics.by_journey@.len(),
        forall|i: int|
            0 <= i < metrics.by_journey@.len() ==> {
                let e = #[trigger] metrics.by_journey@.index(i);
                &&& r.by_journey@.index(i).id == e.1.0
                &&& r.by_journey@.index(i).key@ == e.0@
                &&& r.by_journey@.index(i).per_request == e.1.1
                &&& r.by_journey@.index(i).per_vu == if e.1.0 < journey_per_vu@.len() {
                    journey_per_vu@.index(e.1.0 as int)
                } else {
                    0u64
                }
            },
{
    let by_endpoint = duplicate_endpoint_entries(&metrics.by_endpoint);
    proof {
        lemma_sum_totals_pointwise(by_endpoint@, metrics.by_endpoint@);
    }
    let mut by_journey: Vec<ByJourney> = Vec::with_capacity(metrics.by_journey.len());
    let mut i: usize = 0;
    while i < metrics.by_journey.len()
        invariant
            i <= metrics.by_journey@.len(),
            by_journey@.len() == i,
            forall|k: int|
                0 <= k < i ==> {
                    let e = #[trigger] metrics.by_journey@.index(k);
                    &&& by_journey@.index(k).id == e.1.0
                    &&& by_journey@.index(k).key@ == e.0@
                    &&& by_journey@.index(k).per_request == e.1.1
                    &&& by_journey@.index(k).per_vu == if e.1.0 < journey_per_vu@.len() {
                        journey_per_vu@.index(e.1.0 as int)
                    } else {
                        0u64
                    }
                },
        decreases metrics.by_journey@.len() - i,
    {
        let jid = metrics.by_journey[i].1.0;
        let per_vu: u64 = if jid < journey_per_vu.len() {
            journey_per_vu[jid]
        } else {
            0
        };
        by_journey.push(
            ByJourney {
                id: jid,
                key: metrics.by_journey[i].0.clone(),
                per_vu,
                per_request: metrics.by_journey[i].1.1,
            },
        );
        i = i + 1;
    }
    let missed_permille: u64 = if total_ticks == 0 {
        0
    } else {
        missed_ticks * 1000 / total_ticks
    };
    let no_ready_permille: u64 = if total_ticks == 0 {
        0
    } else {
        no_ready_ticks * 1000 / total_ticks
    };
    let tick_interval_ms: u64 = if total_ticks > 1 {
        let span = if last_tick_ms >= first_tick_ms {
            last_tick_ms - first_tick_ms
        } else {
            0
        };
        span / (total_ticks - 1)
    } else {
        0
    };
    let error_rate: u64 = if metrics.total_requests == 0 {
        0
    } else {
        (200 * metrics.error_requests + metrics.total_requests) / (2 * metrics.total_requests)
    };
    let achieved_avg_including_drain: u64 = if real_time_duration_sec == 0 {
        0
    } else {
        metrics.total_requests / real_time_duration_sec
    };
    let achieved_avg: u64 = if real_time_duration_sec == 0 {
        0
    } else {
        let net = if metrics.total_requests >= drain_time_sec {
            metrics.total_requests - drain_time_sec
        } else {
            0
        };
        net / real_time_duration_sec
    };
    RunReport {
        scenario: ScenarioInfo {
            name: scenario_name.clone(),
            version: u64_to_string(scenario_version as u64),
        },
        run: Run {
            mode: String::new(),
            seed: String::new(),
            total_ticks,
            duration_sec_planned: planned_duration_sec,
        },
        ticks_arrival: TicksArrival {
            total: total_ticks,
            executed: metrics.total_requests,
            missed: missed_ticks,
            missed_ratio_permille: missed_permille,
            tick_interval_ms,
            first_tick_ms,
            last_tick_ms,
        },
        rps: Rps {
            planned_avg: planned_avg_rps,
            achieved_avg,
            achieved_avg_including_drain,
            by_stage: copy_stage_entries(&metrics.by_stage),
        },
        requests: Requests {
            total: metrics.total_requests,
            ok: metrics.ok_requests,
            error: metrics.error_requests,
        },
        latency_overall_summary: LatencySummary::default(),
        latency_by_stage: Vec::new(),
        time: Time {
            planned_start_ms: 0,
            planned_end_ms: planned_duration_ms,
            planned_duration_ms,
            planned_duration_sec,
            real_time_duration_sec,
        },
        missed_tick_count: #[verifier::truncate] (missed_ticks as u16),
        by_endpoint,
        by_journey,
        sleep: total_sleep,
        error_and_quality: ErrorAndQuality { http_error_rate: error_rate },
        vus: VuUtilization {
            count: vus_count,
            no_ready_ticks,
            no_ready_ratio_permille: no_ready_permille,
        },
    }
}

/// Copies the latency digests into the report: the overall digest, the
/// per-stage digests, and one digest per endpoint entry, in order. Nothing
/// else changes.
pub fn set_latency_summaries(
    report: &mut RunReport,
    overall: LatencySummary,
    by_stage: Vec<(u64, LatencySummary)>,
    endpoint_summaries: Vec<LatencySummary>,
)
    requires
        endpoint_summaries@.len() == old(report).by_endpoint@.len(),
    ensures
        *final(report) == (RunReport {
            latency_overall_summary: overall,
            latency_by_stage: final(report).latency_by_stage,
            by_endpoint: final(report).by_endpoint,
            ..*old(report)
        }),
        final(report).latency_by_stage@ == by_stage@,
        final(report).by_endpoint@.len() == old(report).by_endpoint@.len(),
        forall|i: int|
            0 <= i < old(report).by_endpoint@.len() ==> {
                &&& (#[trigger] final(report).by_endpoint@.index(i)).0 == old(
                    report,
                ).by_endpoint@.index(i).0
                &&& final(report).by_endpoint@.index(i).1 == (EndpointStats {
                    latency_summary: endpoint_summaries@.index(i),
                    ..old(report).by_endpoint@.index(i).1
                })
            },
{
    report.latency_overall_summary = overall;
    report.latency_by_stage = by_stage;
    let ghost old_entries = report.by_endpoint@;
    let mut i: usize = 0;
    while i < report.by_endpoint.len()
        invariant
            i <= old_entries.len(),
            report.by_endpoint@.len() == old_entries.len(),
            endpoint_summaries@.len() == old_entries.len(),
            forall|k: int|
                i <= k < old_entries.len() ==> #[trigger] report.by_endpoint@.index(k)
                    == old_entries.index(k),
            forall|k: int|
                0 <= k < i ==> {
                    &&& (#[trigger] report.by_endpoint@.index(k)).0 == old_entries.index(k).0
                    &&& report.by_endpoint@.index(k).1 == (EndpointStats {
                        latency_summary: endpoint_summaries@.index(k),
                        ..old_entries.index(k).1
                    })
                },
            *report == (RunReport {
                latency_overall_summary: report.latency_overall_summary,
                latency_by_stage: report.latency_by_stage,
                by_endpoint: report.by_endpoint,
                ..*old(report)
            }),
            report.latency_overall_summary == overall,
            report.latency_by_stage@ == by_stage@,
        decreases old_entries.len() - i,
    {
        let key = report.by_endpoint[i].0.clone();
        let stats = report.by_endpoint[i].1;
        let s = endpoint_summaries[i];
        let updated = EndpointStats { latency_summary: s, ..stats };
        self_set_endpoint(&mut report.by_endpoint, i, (key, updated));
        proof {
            assert(report.by_endpoint@.index(i as int).0 == old_entries.index(i as int).0);
        }
        i = i + 1;
    }
}

fn self_set_endpoint(
    entries: &mut Vec<(String, EndpointStats)>,
    i: usize,
    entry: (String, EndpointStats),
)
    requires
        i < old(entries)@.len(),
    ensures
        final(entries)@ == old(entries)@.update(i as int, entry),
{
    entries.set(i, entry);
}


impl RunEngine {
    /// The deterministic run: virtual time follows the schedule tick by
    /// tick, the mock executor answers inline, and each completion is folded
    /// into the metrics and advances its virtual user before the next tick.
    /// Returns the report and the final aggregator, whose histograms the
    /// unverified printer summarises. On an always-dispatching plan the run
    /// owes one successful request per planned tick, all under the first
    /// user's journey, with the latency sequence a pure function of that
    /// journey's path, the scenario name and the tick index.
    pub fn run_deterministic(
        &self,
        plan: &ExecutionPlan,
        scenario: &Scenario,
        sink: &EventSink<Event>,
    ) -> (r: (RunReport, MetricsAggregator))
        requires
            plan_wf(*plan),
            valid_stages(scenario.workload.stages@),
        ensures
            metrics_wf(r.1),
            r.0.requests.total == r.1.total_requests,
            r.0.requests.ok == r.1.ok_requests,
            r.0.requests.error == r.1.error_requests,
            r.0.requests.total == r.0.requests.ok + r.0.requests.error,
            sum_endpoint_totals(r.0.by_endpoint@) == r.0.requests.total,
            r.0.error_and_quality.http_error_rate == spec_error_rate(
                r.0.requests.error as int,
                r.0.requests.total as int,
            ),
            r.0.run.total_ticks == total_ticks_of(scenario.workload.stages@),
            r.0.ticks_arrival.total == total_ticks_of(scenario.workload.stages@),
            r.0.ticks_arrival.executed == r.1.total_requests,
            r.0.requests.total <= total_ticks_of(scenario.workload.stages@),
            r.0.time.planned_duration_ms == total_duration_ms(scenario.workload.stages@),
            r.0.vus.count == VUS,
            r.0.by_endpoint@.len() == r.1.by_endpoint@.len(),
            forall|i: int|
                0 <= i < r.1.by_endpoint@.len() ==> (#[trigger] r.0.by_endpoint@.index(i)).0@
                    == r.1.by_endpoint@.index(i).0@ && r.0.by_endpoint@.index(i).1
                    == r.1.by_endpoint@.index(i).1,
            always_dispatching(*plan, scenario.workload.stages@) ==> {
                &&& r.1.total_requests == total_ticks_of(scenario.workload.stages@)
                &&& r.1.error_requests == 0
                &&& r.0.requests.total == total_ticks_of(scenario.workload.stages@)
                &&& r.0.requests.error == 0
                &&& r.0.ticks_arrival.missed == 0
                &&& r.0.vus.no_ready_ticks == 0
            },
            (always_dispatching(*plan, scenario.workload.stages@) && total_ticks_of(
                scenario.workload.stages@,
            ) > 0) ==> {
                &&& r.0.by_endpoint@.len() == 1
                &&& r.0.by_endpoint@.index(0).0@ == journey_request_key(
                    plan.journeys@.index(vu0_journey(*plan))@,
                )
                &&& r.0.by_endpoint@.index(0).1.request.total == total_ticks_of(
                    scenario.workload.stages@,
                )
            },
            always_dispatching(*plan, scenario.workload.stages@) ==> {
                &&& r.1.latency@.len() == total_ticks_of(scenario.workload.stages@)
                &&& forall|t: int|
                    0 <= t < r.1.latency@.len() ==> #[trigger] r.1.latency@.index(t)
                        == crate::executor::mock_latency_ms(
                        journey_request_path(plan.journeys@.index(vu0_journey(*plan))@),
                        plan.scenario_name@,
                        (t + 1) as u64,
                    )
            },
    {
        let mut scheduler = Scheduler::new(&scenario.workload);
        let planned_duration_ms = scheduler.planned_duration_ms;
        let planned_duration_sec = scheduler.planned_duration_sec;
        let mut metrics = MetricsAggregator::new();
        let built = build_pool(plan, VUS);
        let mut pool = built.0;
        let journey_per_vu = built.1;
        let runtime = VuRuntime {};
        let executor = ExecutorMock::new();
        let mut total_ticks: u64 = 0;
        let mut missed_ticks: u64 = 0;
        let mut no_ready_ticks: u64 = 0;
        let mut last_tick_ms: u64 = 0;
        let ghost stages = scenario.workload.stages@;
        let ghost full = always_dispatching(*plan, stages);
        proof {
            lemma_prefix_bounds(stages, stages.len() as int);
            assert(stages.take(stages.len() as int) =~= stages);
            if full {
                crate::sampler::lemma_peek_some(
                    plan.weight_sampler,
                    vu_stable_key(0, plan.weight_sampler.seed@),
                );
                crate::sampler::lemma_peek_in_range(
                    plan.weight_sampler,
                    vu_stable_key(0, plan.weight_sampler.seed@),
                );
                let idx = choose|x: int|
                    0 <= x < plan.weight_sampler.journey_ids@.len()
                        && plan.weight_sampler.journey_ids@.index(x) == spec_peek(
                        plan.weight_sampler,
                        vu_stable_key(0, plan.weight_sampler.seed@),
                    ).unwrap();
                assert(plan.weight_sampler.journey_ids@.index(idx) == idx as i32);
                assert(0 <= vu0_journey(*plan) < plan.journeys@.len());
            }
        }
        loop
            invariant
                plan_wf(*plan),
                valid_stages(stages),
                stages == scenario.workload.stages@,
                scheduler.wf(),
                scheduler.stages@ == stages,
                total_ticks == scheduler.emitted(),
                0 <= scheduler.emitted() <= total_ticks_of(stages),
                total_ticks_of(stages) <= 0x4_0000_0000_0000,
                total_duration_ms(stages) <= 0x4000_0000_0000_0000,
                metrics_wf(metrics),
                metrics.total_requests <= total_ticks,
                missed_ticks <= total_ticks,
                no_ready_ticks <= total_ticks,
                pool_in_plan(*plan, pool.vus@),
                planned_duration_ms == total_duration_ms(stages),
                full == always_dispatching(*plan, stages),
                full ==> {
                    &&& 0 <= vu0_journey(*plan) < plan.journeys@.len()
                    &&& pool.vus@.len() == VUS
                    &&& pool.vus@.index(0).journey_id == vu0_journey(*plan)
                    &&& metrics.total_requests == total_ticks
                    &&& metrics.error_requests == 0
                    &&& missed_ticks == 0
                    &&& no_ready_ticks == 0
                    &&& forall|v: int|
                        0 <= v < pool.vus@.len() ==> (#[trigger] pool.vus@.index(v)).step_index
                            == 0
                },
                (full && scheduler.emitted() < total_ticks_of(stages)) ==> forall|v: int|
                    0 <= v < pool.vus@.len() ==> (#[trigger] pool.vus@.index(
                        v,
                    )).next_ready_at_ms <= spec_tick_at(stages, scheduler.emitted()).planned_at_ms,
                full ==> {
                    &&& metrics.by_endpoint@.len() == (if metrics.total_requests == 0 {
                        0int
                    } else {
                        1int
                    })
                    &&& metrics.total_requests > 0 ==> (metrics.by_endpoint@.index(0).0@
                        == journey_request_key(plan.journeys@.index(vu0_journey(*plan))@)
                        && metrics.by_endpoint@.index(0).1.request.total
                        == metrics.total_requests)
                    &&& metrics.latency@.len() == total_ticks
                    &&& forall|t: int|
                        0 <= t < metrics.latency@.len() ==> #[trigger] metrics.latency@.index(t)
                            == crate::executor::mock_latency_ms(
                            journey_request_path(plan.journeys@.index(vu0_journey(*plan))@),
                            plan.scenario_name@,
                            (t + 1) as u64,
                        )
                },
            ensures
                metrics_wf(metrics),
                metrics.total_requests <= total_ticks,
                missed_ticks <= total_ticks,
                no_ready_ticks <= total_ticks,
                total_ticks == total_ticks_of(stages),
                total_ticks_of(stages) <= 0x4_0000_0000_0000,
                stages == scenario.workload.stages@,
                planned_duration_ms == total_duration_ms(stages),
                full ==> {
                    &&& metrics.total_requests == total_ticks
                    &&& metrics.error_requests == 0
                    &&& missed_ticks == 0
                    &&& no_ready_ticks == 0
                },
                (full && metrics.total_requests > 0) ==> {
                    &&& metrics.by_endpoint@.len() == 1
                    &&& metrics.by_endpoint@.index(0).0@ == journey_request_key(
                        plan.journeys@.index(vu0_journey(*plan))@,
                    )
                    &&& metrics.by_endpoint@.index(0).1.request.total == metrics.total_requests
                },
                full ==> {
                    &&& metrics.latency@.len() == total_ticks
                    &&& forall|t: int|
                        0 <= t < metrics.latency@.len() ==> #[trigger] metrics.latency@.index(t)
                            == crate::executor::mock_latency_ms(
                            journey_request_path(plan.journeys@.index(vu0_journey(*plan))@),
                            plan.scenario_name@,
                            (t + 1) as u64,
                        )
                },
            decreases total_ticks_of(stages) - scheduler.emitted(),
        {
            let ghost emitted_before = scheduler.emitted();
            let tick = match scheduler.next() {
                Some(t) => t,
                None => {
                    break ;
                },
            };
            proof {
                assert(emitted_before < total_ticks_of(stages));
                lemma_planned_within(stages, emitted_before);
                assert(tick == crate::scheduler::spec_tick_at(stages, emitted_before));
                assert(tick.planned_at_ms <= total_duration_ms(stages));
            }
            sink.send(Event::TickExecuted { tick });
            let planned_now = tick.planned_at_ms;
            let now = planned_now;
            total_ticks = total_ticks + 1;
            last_tick_ms = now;
            if now > planned_duration_ms + 1 {
                break ;
            }
            let picked = pool.pick_ready_vu(now);
            let vu_idx = match picked {
                Some(v) => v,
                None => {
                    proof {
                        if full {
                            // Every user is ready at the planned time, so a
                            // full pool cannot fail to pick.
                            crate::vu_runner::lemma_pick_ready_props(pool.vus@, now);
                            assert(pool.vus@.index(0).next_ready_at_ms <= now);
                            assert(false);
                        }
                    }
                    missed_ticks = missed_ticks + 1;
                    continue ;
                },
            };
            proof {
                crate::vu_runner::lemma_pick_ready_props(pool.vus@, now);
            }
            let mut vu = pool.vu_read(vu_idx);
            let ghost pre_vu = vu;
            proof {
                if full {
                    // The picked user stands at a lone request step, so the
                    // walk must return a ready request.
                    assert(single_request_journey(plan.journeys@.index(
                        pre_vu.journey_id as int,
                    )@));
                    assert(first_request_from(vu_steps(*plan, pre_vu), 0) == 0);
                }
            }
            match runtime.next_action(plan, &mut vu, now) {
                NextAction::NotReady(_) => {
                    proof {
                        if full {
                            assert(false);
                        }
                    }
                    pool.vu_write(vu_idx, vu);
                    missed_ticks = missed_ticks + 1;
                    no_ready_ticks = no_ready_ticks + 1;
                },
                NextAction::CompletedIteration => {
                    proof {
                        if full {
                            assert(false);
                        }
                    }
                    pool.vu_write(vu_idx, vu);
                },
                NextAction::Ready(req) => {
                    let mut req = req;
                    req.stage_index = tick.stage_index;
                    let mut res = match executor.execute(plan, &req, total_ticks) {
                        Ok(res) => res,
                        Err(_) => ResponseResult {
                            ok: false,
                            latency_ms: 0,
                            latency_us: 0,
                            error_kind: Some(ErrorType::ConnectionError),
                            endpoint_key: req.endpoint_key.clone(),
                            journey_name: String::new(),
                            journey_id: req.journey_id,
                            stage_index: tick.stage_index,
                            stage_start_ms: if tick.is_new_stage {
                                planned_now
                            } else {
                                0
                            },
                        },
                    };
                    if tick.is_new_stage {
                        res.stage_start_ms = planned_now;
                    }
                    let finished_ms = planned_now + res.latency_ms;
                    let ghost res_snap = res;
                    let ghost endpoints_before = metrics.by_endpoint@;
                    metrics.consume(res, planned_now);
                    runtime.on_request_executed(plan, &mut vu, finished_ms);
                    pool.vu_write(vu_idx, vu);
                    proof {
                        if full {
                            if scheduler.emitted() < total_ticks_of(stages) {
                                lemma_tick_gap_100(stages, emitted_before);
                                assert forall|v: int|
                                    0 <= v < pool.vus@.len() implies (#[trigger] pool.vus@.index(
                                    v,
                                )).next_ready_at_ms <= spec_tick_at(
                                    stages,
                                    scheduler.emitted(),
                                ).planned_at_ms by {
                                    lemma_planned_monotone(stages, emitted_before);
                                }
                            }
                        }
                        if full {
                            assert(vu_idx == 0);
                            let key = journey_request_key(
                                plan.journeys@.index(vu0_journey(*plan))@,
                            );
                            assert(pre_vu.journey_id == vu0_journey(*plan));
                            assert(res_snap.endpoint_key@ == key);
                            if endpoints_before.len() > 0 {
                                assert(crate::metrics::entry_keys(endpoints_before).index(0)
                                    == endpoints_before.index(0).0@);
                                assert(crate::metrics::key_pos(
                                    crate::metrics::entry_keys(endpoints_before),
                                    res_snap.endpoint_key@,
                                ) == 0);
                            }
                        }
                    }
                },
            }
        }
        sink.send(Event::RunFinished);
        let total_sleep = pool.get_total_sleep_ms();
        let planned_avg = scenario.workload.get_rps_avg();
        let report = assemble_report(
            &scenario.name,
            scenario.version,
            planned_duration_ms,
            planned_duration_sec,
            planned_avg,
            total_ticks,
            missed_ticks,
            no_ready_ticks,
            0,
            last_tick_ms,
            0,
            0,
            VUS as u64,
            total_sleep,
            &metrics,
            &journey_per_vu,
        );
        (report, metrics)
    }
}

} // verus!
