use vstd::prelude::*;
use vstd::string::StrSliceExecFns;
use vstd::utf8::encode_utf8;
use crate::events::{Event, EventSink};
use crate::execution_plan::{plan_wf, ExecutionPlan};
use crate::metrics::{entry_keys, key_pos, lemma_key_pos_props, lemma_key_pos_unique};
use crate::metrics::sum_endpoint_totals;
use crate::run_engine::{always_dispatching, journey_request_key, spec_error_rate, vu0_journey,
    RunEngine, RunReport};
use crate::sampler::spec_peek_with_seed;
use crate::scheduler::{total_duration_ms, total_ticks_of, valid_stages};
use crate::schema::{Scenario, StepView};
use crate::text::{dec_bytes, dec_str, push_dec_bytes, str_eq, u64_to_string};
use crate::vu_runner::{endpoint_key, endpoint_key_of};

verus! {

/// The ceiling on dry-run iterations; keeps every step tally within `i32`.
pub const MAX_DRY_ITERATIONS: u32 = 10_000;

/// How many request and sleep steps a dry run touched.
#[derive(Debug, Clone, Copy, PartialEq, Eq, Structural)]
pub struct StepsCounting {
    pub request_count: i32,
    pub sleep_count: i32,
}

/// What a dry run does: tally the plan, or simulate it through the
/// deterministic engine.
pub enum DryRunMode<'a> {
    PlanOnly,
    Simulated(&'a Scenario),
}

/// The outcome of a dry run, one variant per mode.
#[derive(Debug)]
pub enum DryRunResult {
    PlanOnly(DryRunReport),
    Simulated(Box<RunReport>),
}

/// The tally of a plan-only dry run.
#[derive(Debug)]
pub struct DryRunReport {
    pub iterations: u32,
    pub seed: u32,
    pub journeys: i32,
    pub steps: StepsCounting,
    pub endpoints: Vec<(String, i32)>,
}

/// The request steps of a journey's step list.
pub open spec fn steps_request_count(steps: Seq<StepView>) -> int
    decreases steps.len(),
{
    if steps.len() == 0 {
        0
    } else {
        steps_request_count(steps.drop_last()) + if steps.last() is Request {
            1int
        } else {
            0int
        }
    }
}

/// The sleep steps of a journey's step list.
pub open spec fn steps_sleep_count(steps: Seq<StepView>) -> int
    decreases steps.len(),
{
    if steps.len() == 0 {
        0
    } else {
        steps_sleep_count(steps.drop_last()) + if steps.last() is Sleep {
            1int
        } else {
            0int
        }
    }
}

/// The stable key of one dry-run iteration: scenario name, seed and
/// iteration index, joined by dashes.
pub open spec fn dry_key_bytes(name: Seq<char>, seed: u32, iter_index: u32) -> Seq<u8> {
    encode_utf8(name) + seq![45u8] + dec_bytes(seed as nat) + seq![45u8] + dec_bytes(
        iter_index as nat,
    )
}

/// The journey a dry-run iteration picks, under the decimal seed.
pub open spec fn dry_selected(p: ExecutionPlan, seed: u32, iter_index: u32) -> Option<i32> {
    spec_peek_with_seed(
        p.weight_sampler,
        dec_str(seed as nat),
        dry_key_bytes(p.scenario_name@, seed, iter_index),
    )
}

/// The requests the first `n` dry-run iterations walk.
pub open spec fn dry_request_total(p: ExecutionPlan, seed: u32, n: int) -> int
    decreases n,
{
    if n <= 0 {
        0
    } else {
        dry_request_total(p, seed, n - 1) + match dry_selected(p, seed, n as u32) {
            Some(id) => steps_request_count(p.journeys@.index(id as int)@.steps),
            None => 0,
        }
    }
}

/// The sleeps the first `n` dry-run iterations walk.
pub open spec fn dry_sleep_total(p: ExecutionPlan, seed: u32, n: int) -> int
    decreases n,
{
    if n <= 0 {
        0
    } else {
        dry_sleep_total(p, seed, n - 1) + match dry_selected(p, seed, n as u32) {
            Some(id) => steps_sleep_count(p.journeys@.index(id as int)@.steps),
            None => 0,
        }
    }
}

/// The request steps of a step list that fall under one endpoint key.
pub open spec fn steps_key_count(steps: Seq<StepView>, key: Seq<char>) -> int
    decreases steps.len(),
{
    if steps.len() == 0 {
        0
    } else {
        steps_key_count(steps.drop_last(), key) + (match steps.last() {
            StepView::Request { method, path, .. } => if endpoint_key_of(method, path) == key {
                1int
            } else {
                0int
            },
            _ => 0int,
        })
    }
}

/// The requests the first `n` dry-run iterations walk under one endpoint
/// key.
pub open spec fn dry_key_total(p: ExecutionPlan, seed: u32, n: int, key: Seq<char>) -> int
    decreases n,
{
    if n <= 0 {
        0
    } else {
        dry_key_total(p, seed, n - 1, key) + match dry_selected(p, seed, n as u32) {
            Some(id) => steps_key_count(p.journeys@.index(id as int)@.steps, key),
            None => 0,
        }
    }
}

/// The count an endpoint ledger holds under one key; zero when the key is
/// absent.
pub open spec fn endpoints_count(entries: Seq<(String, i32)>, key: Seq<char>) -> int {
    let p = key_pos(entry_keys(entries), key);
    if p < entries.len() {
        entries.index(p).1 as int
    } else {
        0
    }
}

proof fn lemma_endpoints_count_update(entries: Seq<(String, i32)>, pos: int, c2: i32)
    requires
        0 <= pos < entries.len(),
        forall|i: int, j: int|
            0 <= i < j < entries.len() ==> entries.index(i).0@ != entries.index(j).0@,
    ensures
        endpoints_count(
            entries.update(pos, (entries.index(pos).0, c2)),
            entries.index(pos).0@,
        ) == c2,
        forall|key: Seq<char>|
            key != entries.index(pos).0@ ==> #[trigger] endpoints_count(
                entries.update(pos, (entries.index(pos).0, c2)),
                key,
            ) == endpoints_count(entries, key),
{
    let e2 = entries.update(pos, (entries.index(pos).0, c2));
    assert(entry_keys(e2) =~= entry_keys(entries));
    let k0 = entries.index(pos).0@;
    lemma_key_pos_unique(entry_keys(entries), k0, pos);
    assert forall|key: Seq<char>| key != k0 implies #[trigger] endpoints_count(e2, key)
        == endpoints_count(entries, key) by {
        lemma_key_pos_props(entry_keys(entries), key);
        let p = key_pos(entry_keys(entries), key);
        if p < entries.len() {
            assert(entries.index(p).0@ == key);
            assert(e2.index(p) == entries.index(p));
        }
    }
}

proof fn lemma_endpoints_count_push(entries: Seq<(String, i32)>, e: (String, i32))
    requires
        forall|j: int| 0 <= j < entries.len() ==> (#[trigger] entries.index(j)).0@ != e.0@,
    ensures
        endpoints_count(entries.push(e), e.0@) == e.1,
        forall|key: Seq<char>|
            key != e.0@ ==> #[trigger] endpoints_count(entries.push(e), key) == endpoints_count(
                entries,
                key,
            ),
{
    let e2 = entries.push(e);
    assert(entry_keys(e2) =~= entry_keys(entries).push(e.0@));
    assert forall|j: int| 0 <= j < entries.len() implies #[trigger] entry_keys(e2).index(j)
        != e.0@ by {
        assert(entries.index(j).0@ != e.0@);
    }
    lemma_key_pos_unique(entry_keys(e2), e.0@, entries.len() as int);
    assert forall|key: Seq<char>| key != e.0@ implies #[trigger] endpoints_count(e2, key)
        == endpoints_count(entries, key) by {
        lemma_key_pos_props(entry_keys(entries), key);
        let p = key_pos(entry_keys(entries), key);
        if p < entries.len() {
            lemma_key_pos_unique(entry_keys(e2), key, p);
            assert(e2.index(p) == entries.index(p));
        } else {
            lemma_key_pos_unique(entry_keys(e2), key, entries.len() as int + 1);
        }
    }
}

/// The requests counted over all endpoint entries of a dry-run report.
pub open spec fn sum_dry_endpoints(entries: Seq<(String, i32)>) -> int
    decreases entries.len(),
{
    if entries.len() == 0 {
        0
    } else {
        sum_dry_endpoints(entries.drop_last()) + entries.last().1
    }
}

proof fn lemma_dry_sum_push(entries: Seq<(String, i32)>, e: (String, i32))
    ensures
        sum_dry_endpoints(entries.push(e)) == sum_dry_endpoints(entries) + e.1,
{
    assert(entries.push(e).drop_last() =~= entries);
}

proof fn lemma_dry_sum_update(entries: Seq<(String, i32)>, k: int, e: (String, i32))
    requires
        0 <= k < entries.len(),
    ensures
        sum_dry_endpoints(entries.update(k, e)) == sum_dry_endpoints(entries) - entries.index(
            k,
        ).1 + e.1,
    decreases entries.len(),
{
    if k == entries.len() - 1 {
        assert(entries.update(k, e).drop_last() =~= entries.drop_last());
        assert(entries.update(k, e).last() == e);
    } else {
        lemma_dry_sum_update(entries.drop_last(), k, e);
        assert(entries.update(k, e).drop_last() =~= entries.drop_last().update(k, e));
        assert(entries.update(k, e).last() == entries.last());
    }
}

/// A dry-run report whose endpoint ledger is consistent: unique keys,
/// positive per-key counts summing to the request tally, and tallies small
/// enough to keep counting.
pub open spec fn dry_report_wf(r: DryRunReport) -> bool {
    &&& 0 <= r.steps.request_count
    &&& 0 <= r.steps.sleep_count
    &&& sum_dry_endpoints(r.endpoints@) == r.steps.request_count
    &&& forall|i: int, j: int|
        0 <= i < j < r.endpoints@.len() ==> r.endpoints@.index(i).0@ != r.endpoints@.index(j).0@
    &&& forall|i: int|
        0 <= i < r.endpoints@.len() ==> 1 <= (#[trigger] r.endpoints@.index(i)).1
            <= r.steps.request_count
}

fn find_dry_endpoint(entries: &Vec<(String, i32)>, key: &String) -> (r: usize)
    ensures
        r as int == key_pos(entry_keys(entries@), key@),
{
    let mut i: usize = 0;
    while i < entries.len()
        invariant
            i <= entries@.len(),
            forall|j: int| 0 <= j < i ==> entries@.index(j).0@ != key@,
        decreases entries@.len() - i,
    {
        if str_eq(entries[i].0.as_str(), key.as_str()) {
            proof {
                assert forall|j: int| 0 <= j < i implies #[trigger] entry_keys(entries@).index(j)
                    != key@ by {
                    assert(entries@.index(j).0@ != key@);
                }
                lemma_key_pos_unique(entry_keys(entries@), key@, i as int);
            }
            return i;
        }
        i = i + 1;
    }
    proof {
        assert forall|j: int| 0 <= j < i implies #[trigger] entry_keys(entries@).index(j)
            != key@ by {
            assert(entries@.index(j).0@ != key@);
        }
        lemma_key_pos_unique(entry_keys(entries@), key@, i as int);
    }
    i
}

/// Walks one iteration's journey: one more journey pick, one tally per step,
/// and one endpoint count per request step.
fn run_plan(plan: &ExecutionPlan, seed: u32, report: &mut DryRunReport, iter_index: u32)
    requires
        plan_wf(*plan),
        plan.weight_sampler.total_weight > 0,
        plan.weight_sampler.seed@ == dec_str(seed as nat),
        dry_report_wf(*old(report)),
        old(report).journeys < i32::MAX,
        old(report).steps.request_count + crate::schema::MAX_STEPS <= i32::MAX,
        old(report).steps.sleep_count + crate::schema::MAX_STEPS <= i32::MAX,
    ensures
        dry_report_wf(*final(report)),
        final(report).iterations == old(report).iterations,
        final(report).seed == old(report).seed,
        final(report).journeys == old(report).journeys + 1,
        dry_selected(*plan, seed, iter_index) matches Some(id) && {
            &&& final(report).steps.request_count == old(report).steps.request_count
                + steps_request_count(plan.journeys@.index(id as int)@.steps)
            &&& final(report).steps.sleep_count == old(report).steps.sleep_count
                + steps_sleep_count(plan.journeys@.index(id as int)@.steps)
            &&& forall|key: Seq<char>|
                #[trigger] endpoints_count(final(report).endpoints@, key) == endpoints_count(
                    old(report).endpoints@,
                    key,
                ) + steps_key_count(plan.journeys@.index(id as int)@.steps, key)
        },
{
    let mut stable_key: Vec<u8> = plan.scenario_name.as_str().as_bytes_vec();
    stable_key.push(45);  // '-'
    push_dec_bytes(&mut stable_key, seed as u64);
    stable_key.push(45);  // '-'
    push_dec_bytes(&mut stable_key, iter_index as u64);
    proof {
        assert(stable_key@ =~= dry_key_bytes(plan.scenario_name@, seed, iter_index));
        crate::sampler::lemma_peek_some(plan.weight_sampler, stable_key@);
    }
    let journey_id = match plan.weight_sampler.peek_bytes(stable_key.as_slice()) {
        Some(id) => id,
        None => {
            proof {
                assert(false);
            }
            return ;
        },
    };
    proof {
        crate::sampler::lemma_peek_in_range(plan.weight_sampler, stable_key@);
        let idx = choose|x: int|
            0 <= x < plan.weight_sampler.journey_ids@.len()
                && plan.weight_sampler.journey_ids@.index(x) == journey_id;
        assert(plan.weight_sampler.journey_ids@.index(idx) == idx as i32);
        assert(0 <= journey_id < plan.journeys@.len());
    }
    let journey = match plan.get_journey(journey_id) {
        Ok(j) => j,
        Err(_) => {
            proof {
                assert(false);
            }
            return ;
        },
    };
    report.journeys = report.journeys + 1;
    let ghost steps = journey@.steps;
    proof {
        assert(crate::schema::valid_journey(plan.journeys@.index(journey_id as int)@));
    }
    let mut i: usize = 0;
    while i < journey.steps.len()
        invariant
            plan_wf(*plan),
            journey == plan.journeys@.index(journey_id as int),
            steps == journey@.steps,
            steps.len() <= crate::schema::MAX_STEPS,
            i <= steps.len(),
            dry_report_wf(*report),
            report.iterations == old(report).iterations,
            report.seed == old(report).seed,
            report.journeys == old(report).journeys + 1,
            report.steps.request_count == old(report).steps.request_count
                + steps_request_count(steps.take(i as int)),
            report.steps.sleep_count == old(report).steps.sleep_count + steps_sleep_count(
                steps.take(i as int),
            ),
            old(report).steps.request_count + crate::schema::MAX_STEPS <= i32::MAX,
            old(report).steps.sleep_count + crate::schema::MAX_STEPS <= i32::MAX,
            0 <= steps_request_count(steps.take(i as int)) <= i,
            0 <= steps_sleep_count(steps.take(i as int)) <= i,
            forall|key: Seq<char>|
                #[trigger] endpoints_count(report.endpoints@, key) == endpoints_count(
                    old(report).endpoints@,
                    key,
                ) + steps_key_count(steps.take(i as int), key),
        decreases steps.len() - i,
    {
        proof {
            assert(steps.take(i + 1).drop_last() =~= steps.take(i as int));
            assert(steps.take(i + 1).last() == steps.index(i as int));
        }
        match &journey.steps[i] {
            crate::schema::Step::Request { path, method, .. } => {
                report.steps.request_count = report.steps.request_count + 1;
                let key = endpoint_key(*method, path.as_str());
                let ghost old_entries = report.endpoints@;
                let pos = find_dry_endpoint(&report.endpoints, &key);
                proof {
                    lemma_key_pos_props(entry_keys(old_entries), key@);
                }
                if pos < report.endpoints.len() {
                    let key_copy = report.endpoints[pos].0.clone();
                    let count = report.endpoints[pos].1;
                    report.endpoints.set(pos, (key_copy, count + 1));
                    proof {
                        lemma_dry_sum_update(
                            old_entries,
                            pos as int,
                            (old_entries.index(pos as int).0, (count + 1) as i32),
                        );
                        assert(report.endpoints@ =~= old_entries.update(
                            pos as int,
                            (old_entries.index(pos as int).0, (count + 1) as i32),
                        ));
                        assert(old_entries.index(pos as int).0@ == key@);
                        lemma_endpoints_count_update(old_entries, pos as int, (count + 1) as i32);
                        assert(endpoints_count(old_entries, key@) == count);
                    }
                } else {
                    let ghost absent_key = key@;
                    report.endpoints.push((key, 1));
                    proof {
                        lemma_dry_sum_push(old_entries, report.endpoints@.last());
                        assert forall|j: int|
                            0 <= j < old_entries.len() implies (#[trigger] old_entries.index(
                            j,
                        )).0@ != absent_key by {
                            assert(entry_keys(old_entries).index(j) == old_entries.index(j).0@);
                        }
                        lemma_endpoints_count_push(old_entries, report.endpoints@.last());
                        assert(endpoints_count(old_entries, absent_key) == 0);
                        assert forall|a: int, b: int|
                            0 <= a < b < report.endpoints@.len() implies report.endpoints@.index(
                            a,
                        ).0@ != report.endpoints@.index(b).0@ by {
                            if b == old_entries.len() {
                                assert(entry_keys(old_entries).index(a) == old_entries.index(
                                    a,
                                ).0@);
                            } else {
                                assert(old_entries.index(a).0@ != old_entries.index(b).0@);
                            }
                        }
                    }
                }
                proof {
                    assert forall|kk: Seq<char>|
                        #[trigger] endpoints_count(report.endpoints@, kk) == endpoints_count(
                            old(report).endpoints@,
                            kk,
                        ) + steps_key_count(steps.take(i + 1), kk) by {
                        assert(steps_key_count(steps.take(i + 1), kk) == steps_key_count(
                            steps.take(i as int),
                            kk,
                        ) + (if endpoint_key_of(steps.take(i + 1).last()->Request_method,
                        steps.take(i + 1).last()->Request_path) == kk {
                            1int
                        } else {
                            0int
                        }));
                        if kk == key@ {
                        } else {
                            assert(endpoints_count(report.endpoints@, kk) == endpoints_count(
                                old_entries,
                                kk,
                            ));
                        }
                    }
                }
            },
            crate::schema::Step::Sleep { .. } => {
                report.steps.sleep_count = report.steps.sleep_count + 1;
            },
        }
        i = i + 1;
    }
    proof {
        assert(steps.take(steps.len() as int) == steps);
    }
}

/// Tallies `iterations` weighted journey picks without pacing: how many
/// requests and sleeps the plan would walk, and how often each endpoint
/// would be hit.
pub fn dry_run_plan_only(plan: ExecutionPlan, iterations: u32, seed: u32) -> (r: DryRunReport)
    requires
        plan_wf(plan),
        plan.weight_sampler.total_weight > 0,
        iterations <= MAX_DRY_ITERATIONS,
    ensures
        dry_report_wf(r),
        r.iterations == iterations,
        r.seed == seed,
        r.journeys == iterations,
        r.steps.request_count == dry_request_total(plan, seed, iterations as int),
        r.steps.sleep_count == dry_sleep_total(plan, seed, iterations as int),
        sum_dry_endpoints(r.endpoints@) == r.steps.request_count,
        forall|key: Seq<char>|
            #[trigger] endpoints_count(r.endpoints@, key) == dry_key_total(
                plan,
                seed,
                iterations as int,
                key,
            ),
        forall|k: int|
            0 <= k < r.endpoints@.len() ==> (#[trigger] r.endpoints@.index(k)).1 == dry_key_total(
                plan,
                seed,
                iterations as int,
                r.endpoints@.index(k).0@,
            ),
{
    let mut plan = plan;
    let ghost p0 = plan;
    plan.weight_sampler.seed = u64_to_string(seed as u64);
    let ghost p = plan;
    let mut report = DryRunReport {
        iterations,
        seed,
        journeys: 0,
        steps: StepsCounting { request_count: 0, sleep_count: 0 },
        endpoints: Vec::new(),
    };
    let mut i: u32 = 1;
    while i <= iterations
        invariant
            plan == p,
            p == (ExecutionPlan { weight_sampler: p.weight_sampler, ..p0 }),
            p.weight_sampler.total_weight == p0.weight_sampler.total_weight,
            p.weight_sampler.journey_ids@ == p0.weight_sampler.journey_ids@,
            p.weight_sampler.cumulative_ends@ == p0.weight_sampler.cumulative_ends@,
            p.journeys@ == p0.journeys@,
            p.scenario_name@ == p0.scenario_name@,
            plan_wf(p),
            p.weight_sampler.total_weight > 0,
            p.weight_sampler.seed@ == dec_str(seed as nat),
            1 <= i <= iterations + 1,
            iterations <= MAX_DRY_ITERATIONS,
            dry_report_wf(report),
            report.iterations == iterations,
            report.seed == seed,
            report.journeys == i - 1,
            report.steps.request_count == dry_request_total(p, seed, i - 1),
            report.steps.sleep_count == dry_sleep_total(p, seed, i - 1),
            report.steps.request_count <= (i - 1) * crate::schema::MAX_STEPS,
            report.steps.sleep_count <= (i - 1) * crate::schema::MAX_STEPS,
            forall|key: Seq<char>|
                #[trigger] endpoints_count(report.endpoints@, key) == dry_key_total(
                    p,
                    seed,
                    i - 1,
                    key,
                ),
        decreases iterations + 1 - i,
    {
        proof {
            lemma_dry_totals_bound(p, seed, i as int);
        }
        run_plan(&plan, seed, &mut report, i);
        i = i + 1;
    }
    proof {
        lemma_dry_total_eq(p, p0, seed, iterations as int);
        assert forall|key: Seq<char>|
            #[trigger] endpoints_count(report.endpoints@, key) == dry_key_total(
                p0,
                seed,
                iterations as int,
                key,
            ) by {
            lemma_dry_key_total_eq(p, p0, seed, iterations as int, key);
        }
        assert forall|k: int|
            0 <= k < report.endpoints@.len() implies (#[trigger] report.endpoints@.index(k)).1
            == dry_key_total(p0, seed, iterations as int, report.endpoints@.index(k).0@) by {
            let kk = report.endpoints@.index(k).0@;
            assert forall|j: int| 0 <= j < k implies #[trigger] entry_keys(
                report.endpoints@,
            ).index(j) != kk by {
                assert(report.endpoints@.index(j).0@ != report.endpoints@.index(k).0@);
            }
            assert(entry_keys(report.endpoints@).index(k) == kk);
            lemma_key_pos_unique(entry_keys(report.endpoints@), kk, k);
            assert(endpoints_count(report.endpoints@, kk) == report.endpoints@.index(k).1);
        }
    }
    report
}

proof fn lemma_dry_key_total_eq(a: ExecutionPlan, b: ExecutionPlan, seed: u32, n: int, key: Seq<char>)
    requires
        n >= 0,
        a.scenario_name@ == b.scenario_name@,
        a.journeys@ == b.journeys@,
        a.weight_sampler.total_weight == b.weight_sampler.total_weight,
        a.weight_sampler.journey_ids@ == b.weight_sampler.journey_ids@,
        a.weight_sampler.cumulative_ends@ == b.weight_sampler.cumulative_ends@,
    ensures
        dry_key_total(a, seed, n, key) == dry_key_total(b, seed, n, key),
    decreases n,
{
    if n > 0 {
        lemma_dry_key_total_eq(a, b, seed, n - 1, key);
        assert(dry_selected(a, seed, n as u32) == dry_selected(b, seed, n as u32));
    }
}

proof fn lemma_dry_total_eq(a: ExecutionPlan, b: ExecutionPlan, seed: u32, n: int)
    requires
        n >= 0,
        a.scenario_name@ == b.scenario_name@,
        a.journeys@ == b.journeys@,
        a.weight_sampler.total_weight == b.weight_sampler.total_weight,
        a.weight_sampler.journey_ids@ == b.weight_sampler.journey_ids@,
        a.weight_sampler.cumulative_ends@ == b.weight_sampler.cumulative_ends@,
    ensures
        dry_request_total(a, seed, n) == dry_request_total(b, seed, n),
        dry_sleep_total(a, seed, n) == dry_sleep_total(b, seed, n),
    decreases n,
{
    if n > 0 {
        lemma_dry_total_eq(a, b, seed, n - 1);
        assert(dry_selected(a, seed, n as u32) == dry_selected(b, seed, n as u32));
    }
}

proof fn lemma_dry_totals_bound(p: ExecutionPlan, seed: u32, n: int)
    requires
        plan_wf(p),
        n >= 0,
    ensures
        0 <= dry_request_total(p, seed, n) <= n * crate::schema::MAX_STEPS,
        0 <= dry_sleep_total(p, seed, n) <= n * crate::schema::MAX_STEPS,
    decreases n,
{
    if n > 0 {
        lemma_dry_totals_bound(p, seed, n - 1);
        match dry_selected(p, seed, n as u32) {
            Some(id) => {
                crate::sampler::lemma_peek_in_range_with_seed(
                    p.weight_sampler,
                    dec_str(seed as nat),
                    dry_key_bytes(p.scenario_name@, seed, n as u32),
                );
                let idx = choose|x: int|
                    0 <= x < p.weight_sampler.journey_ids@.len()
                        && p.weight_sampler.journey_ids@.index(x) == id;
                assert(p.weight_sampler.journey_ids@.index(idx) == idx as i32);
                assert(crate::schema::valid_journey(p.journeys@.index(id as int)@));
                lemma_steps_counts_bound(p.journeys@.index(id as int)@.steps);
            },
            None => {},
        }
    }
}

proof fn lemma_steps_counts_bound(steps: Seq<StepView>)
    ensures
        0 <= steps_request_count(steps) <= steps.len(),
        0 <= steps_sleep_count(steps) <= steps.len(),
    decreases steps.len(),
{
    if steps.len() > 0 {
        lemma_steps_counts_bound(steps.drop_last());
    }
}

/// A dry run: a plan-only tally, or a full simulated run through the
/// deterministic engine with the mock executor.
pub fn dry_run(
    plan: ExecutionPlan,
    iterations: u32,
    seed: u32,
    mode: DryRunMode<'_>,
    sink: EventSink<Event>,
) -> (r: DryRunResult)
    requires
        plan_wf(plan),
        match mode {
            DryRunMode::PlanOnly => plan.weight_sampler.total_weight > 0 && iterations
                <= MAX_DRY_ITERATIONS,
            DryRunMode::Simulated(scenario) => valid_stages(scenario.workload.stages@),
        },
    ensures
        match mode {
            DryRunMode::PlanOnly => r matches DryRunResult::PlanOnly(rep) && {
                &&& dry_report_wf(rep)
                &&& rep.iterations == iterations
                &&& rep.seed == seed
                &&& rep.journeys == iterations
                &&& rep.steps.request_count == dry_request_total(plan, seed, iterations as int)
                &&& rep.steps.sleep_count == dry_sleep_total(plan, seed, iterations as int)
                &&& sum_dry_endpoints(rep.endpoints@) == rep.steps.request_count
                &&& forall|key: Seq<char>|
                    #[trigger] endpoints_count(rep.endpoints@, key) == dry_key_total(
                        plan,
                        seed,
                        iterations as int,
                        key,
                    )
            },
            DryRunMode::Simulated(scenario) => r matches DryRunResult::Simulated(rep) && {
                &&& rep.requests.total == rep.requests.ok + rep.requests.error
                &&& sum_endpoint_totals(rep.by_endpoint@) == rep.requests.total
                &&& rep.error_and_quality.http_error_rate == spec_error_rate(
                    rep.requests.error as int,
                    rep.requests.total as int,
                )
                &&& rep.run.total_ticks == total_ticks_of(scenario.workload.stages@)
                &&& rep.ticks_arrival.total == total_ticks_of(scenario.workload.stages@)
                &&& rep.requests.total <= total_ticks_of(scenario.workload.stages@)
                &&& rep.time.planned_duration_ms == total_duration_ms(scenario.workload.stages@)
                &&& always_dispatching(plan, scenario.workload.stages@) ==> {
                    &&& rep.requests.total == total_ticks_of(scenario.workload.stages@)
                    &&& rep.requests.error == 0
                    &&& rep.ticks_arrival.missed == 0
                }
            },
        },
{
    match mode {
        DryRunMode::PlanOnly => DryRunResult::PlanOnly(dry_run_plan_only(plan, iterations, seed)),
        DryRunMode::Simulated(scenario) => {
            let outcome = dry_run_simulated(plan, iterations, seed, scenario, sink);
            DryRunResult::Simulated(Box::new(outcome))
        },
    }
}

/// The simulated dry run: the deterministic engine under the mock executor.
pub fn dry_run_simulated(
    plan: ExecutionPlan,
    _iterations: u32,
    _seed: u32,
    scenario: &Scenario,
    sink: EventSink<Event>,
) -> (r: RunReport)
    requires
        plan_wf(plan),
        valid_stages(scenario.workload.stages@),
    ensures
        r.requests.total == r.requests.ok + r.requests.error,
        sum_endpoint_totals(r.by_endpoint@) == r.requests.total,
        r.error_and_quality.http_error_rate == spec_error_rate(
            r.requests.error as int,
            r.requests.total as int,
        ),
        r.run.total_ticks == total_ticks_of(scenario.workload.stages@),
        r.ticks_arrival.total == total_ticks_of(scenario.workload.stages@),
        r.requests.total <= total_ticks_of(scenario.workload.stages@),
        r.time.planned_duration_ms == total_duration_ms(scenario.workload.stages@),
        always_dispatching(plan, scenario.workload.stages@) ==> {
            &&& r.requests.total == total_ticks_of(scenario.workload.stages@)
            &&& r.requests.error == 0
            &&& r.ticks_arrival.missed == 0
        },
        (always_dispatching(plan, scenario.workload.stages@) && total_ticks_of(
            scenario.workload.stages@,
        ) > 0) ==> {
            &&& r.by_endpoint@.len() == 1
            &&& r.by_endpoint@.index(0).0@ == journey_request_key(
                plan.journeys@.index(vu0_journey(plan))@,
            )
            &&& r.by_endpoint@.index(0).1.request.total == total_ticks_of(
                scenario.workload.stages@,
            )
        },
{
    let engine = RunEngine::new(Some(false), Some(false));
    let outcome = engine.run_deterministic(&plan, scenario, &sink);
    outcome.0
}

} // verus!
