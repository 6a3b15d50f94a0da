use vstd::prelude::*;
use vstd::arithmetic::div_mod::{lemma_div_is_ordered, lemma_div_multiples_vanish,
    lemma_hoist_over_denominator};
use crate::schema::{Stage, Workload, MAX_STAGES};

verus! {

/// One planned request slot.
#[derive(Debug, Clone, Copy, PartialEq, Eq, Structural)]
pub struct Tick {
    pub tick_index: u64,
    pub stage_index: u64,
    pub planned_at_ms: u64,
    pub target_rps: u32,
    pub is_new_stage: bool,
}

/// How many ticks one stage plans: its duration times its rate.
pub open spec fn stage_ticks(s: Stage) -> int {
    s.duration_sec * s.rps
}

/// The planned tick count of a stage list.
pub open spec fn total_ticks_of(stages: Seq<Stage>) -> int
    decreases stages.len(),
{
    if stages.len() == 0 {
        0
    } else {
        total_ticks_of(stages.drop_last()) + stage_ticks(stages.last())
    }
}

/// The planned duration of a stage list, in milliseconds.
pub open spec fn total_duration_ms(stages: Seq<Stage>) -> int
    decreases stages.len(),
{
    if stages.len() == 0 {
        0
    } else {
        total_duration_ms(stages.drop_last()) + stages.last().duration_sec * 1000
    }
}

/// The planned duration of a stage list, in seconds.
pub open spec fn total_duration_sec(stages: Seq<Stage>) -> int
    decreases stages.len(),
{
    if stages.len() == 0 {
        0
    } else {
        total_duration_sec(stages.drop_last()) + stages.last().duration_sec
    }
}

/// The tick count of the first `i` stages.
pub open spec fn prefix_ticks(stages: Seq<Stage>, i: int) -> int {
    total_ticks_of(stages.take(i))
}

/// The duration of the first `i` stages, in milliseconds: where stage `i`
/// begins on the planned timeline.
pub open spec fn offset_ms(stages: Seq<Stage>, i: int) -> int {
    total_duration_ms(stages.take(i))
}

/// A stage the scheduler can pace: at least one second at one request per
/// second, and within the validated ceilings. Wider than the validator's
/// window, so short dry-run stages can be scheduled too.
pub open spec fn runnable_stage(s: Stage) -> bool {
    1 <= s.duration_sec <= 86400 && 1 <= s.rps <= 10000
}

/// A stage list the scheduler accepts.
pub open spec fn valid_stages(stages: Seq<Stage>) -> bool {
    &&& stages.len() <= MAX_STAGES
    &&& forall|i: int| 0 <= i < stages.len() ==> runnable_stage(#[trigger] stages.index(i))
}

/// The stage that plans tick `n`: the last stage whose preceding stages plan
/// at most `n` ticks.
pub open spec fn stage_of_tick(stages: Seq<Stage>, n: int) -> int
    decreases stages.len(),
{
    if stages.len() == 0 {
        0
    } else if n >= total_ticks_of(stages.drop_last()) {
        stages.len() - 1
    } else {
        stage_of_tick(stages.drop_last(), n)
    }
}

/// The `n`-th tick (zero-based, over the whole run) of a stage list: its
/// position within its stage, its stage's start plus the tick's offset
/// `⌊k·1000/rps⌋`, and whether it opens its stage.
pub open spec fn spec_tick_at(stages: Seq<Stage>, n: int) -> Tick {
    let s = stage_of_tick(stages, n);
    let k = n - prefix_ticks(stages, s);
    Tick {
        tick_index: k as u64,
        stage_index: s as u64,
        planned_at_ms: (offset_ms(stages, s) + k * 1000 / (stages.index(s).rps as int)) as u64,
        target_rps: stages.index(s).rps as u32,
        is_new_stage: k == 0,
    }
}

/// A valid stage plans between 1 and 864 million ticks.
pub proof fn lemma_stage_ticks_bound(s: Stage)
    requires
        runnable_stage(s),
    ensures
        1 <= stage_ticks(s) <= 864_000_000,
{
    assert(1 <= s.duration_sec * s.rps <= 864_000_000) by (nonlinear_arith)
        requires
            1 <= s.duration_sec <= 86400,
            1 <= s.rps <= 10000,
    ;
}

/// Tick totals of prefixes grow by one stage's ticks at a time.
pub proof fn lemma_prefix_ticks_snoc(stages: Seq<Stage>, i: int)
    requires
        0 <= i < stages.len(),
    ensures
        prefix_ticks(stages, i + 1) == prefix_ticks(stages, i) + stage_ticks(stages.index(i)),
        offset_ms(stages, i + 1) == offset_ms(stages, i) + stages.index(i).duration_sec * 1000,
{
    assert(stages.take(i + 1).drop_last() =~= stages.take(i));
    assert(stages.take(i + 1).last() == stages.index(i));
}

/// Bounds on prefix totals of a valid stage list.
pub proof fn lemma_prefix_bounds(stages: Seq<Stage>, i: int)
    requires
        valid_stages(stages),
        0 <= i <= stages.len(),
    ensures
        0 <= prefix_ticks(stages, i) <= i * 864_000_000,
        0 <= offset_ms(stages, i) <= i * 86_400_000,
    decreases i,
{
    if i == 0 {
        assert(stages.take(0) =~= Seq::<Stage>::empty());
    } else {
        lemma_prefix_bounds(stages, i - 1);
        lemma_prefix_ticks_snoc(stages, i - 1);
        lemma_stage_ticks_bound(stages.index(i - 1));
    }
}

/// Prefix tick totals are monotone in the prefix length.
pub proof fn lemma_prefix_ticks_monotone(stages: Seq<Stage>, i: int, j: int)
    requires
        valid_stages(stages),
        0 <= i <= j <= stages.len(),
    ensures
        prefix_ticks(stages, i) <= prefix_ticks(stages, j),
    decreases j - i,
{
    if i < j {
        lemma_prefix_ticks_monotone(stages, i, j - 1);
        lemma_prefix_ticks_snoc(stages, j - 1);
        lemma_stage_ticks_bound(stages.index(j - 1));
    }
}

/// Tick `prefix_ticks(s) + k` of a valid stage list, for `k` within stage
/// `s`, is planned by stage `s`.
pub proof fn lemma_stage_of_tick_locate(stages: Seq<Stage>, s: int, k: int)
    requires
        valid_stages(stages),
        0 <= s < stages.len(),
        0 <= k < stage_ticks(stages.index(s)),
    ensures
        stage_of_tick(stages, prefix_ticks(stages, s) + k) == s,
    decreases stages.len(),
{
    let n = prefix_ticks(stages, s) + k;
    assert(stages.take(stages.len() - 1) =~= stages.drop_last());
    if s == stages.len() - 1 {
        assert(n >= total_ticks_of(stages.drop_last()));
    } else {
        lemma_prefix_ticks_snoc(stages, s);
        lemma_prefix_ticks_monotone(stages, s + 1, stages.len() - 1);
        assert(n < total_ticks_of(stages.drop_last()));
        assert(valid_stages(stages.drop_last()));
        assert(stages.drop_last().take(s) =~= stages.take(s));
        assert(stages.drop_last().index(s) == stages.index(s));
        lemma_stage_of_tick_locate(stages.drop_last(), s, k);
    }
}

/// Every tick index below the total lies within the stage that plans it.
pub proof fn lemma_stage_of_tick_props(stages: Seq<Stage>, n: int)
    requires
        valid_stages(stages),
        0 <= n < total_ticks_of(stages),
    ensures
        0 <= stage_of_tick(stages, n) < stages.len(),
        prefix_ticks(stages, stage_of_tick(stages, n)) <= n,
        n < prefix_ticks(stages, stage_of_tick(stages, n)) + stage_ticks(
            stages.index(stage_of_tick(stages, n)),
        ),
    decreases stages.len(),
{
    assert(stages.take(stages.len() - 1) =~= stages.drop_last());
    if n >= total_ticks_of(stages.drop_last()) {
        lemma_prefix_ticks_snoc(stages, stages.len() - 1);
    } else {
        assert(valid_stages(stages.drop_last()));
        lemma_stage_of_tick_props(stages.drop_last(), n);
        let s = stage_of_tick(stages.drop_last(), n);
        assert(stages.drop_last().take(s) =~= stages.take(s));
        assert(stages.drop_last().index(s) == stages.index(s));
    }
}

/// Tick monotonicity: across the whole planned sequence of a valid stage
/// list, `planned_at_ms` never decreases.
pub proof fn lemma_planned_monotone(stages: Seq<Stage>, n: int)
    requires
        valid_stages(stages),
        0 <= n,
        n + 1 < total_ticks_of(stages),
    ensures
        spec_tick_at(stages, n).planned_at_ms <= spec_tick_at(stages, n + 1).planned_at_ms,
{
    lemma_prefix_ticks_monotone(stages, 0, stages.len() as int);
    assert(stages.take(0) =~= Seq::<Stage>::empty());
    lemma_stage_of_tick_props(stages, n);
    let s = stage_of_tick(stages, n);
    let k = n - prefix_ticks(stages, s);
    let rps = stages.index(s).rps as int;
    let d = stages.index(s).duration_sec as int;
    lemma_stage_ticks_bound(stages.index(s));
    lemma_prefix_bounds(stages, s);
    if k + 1 < stage_ticks(stages.index(s)) {
        lemma_stage_of_tick_locate(stages, s, k + 1);
        assert(stage_of_tick(stages, n + 1) == s);
        lemma_div_is_ordered(k * 1000, (k + 1) * 1000, rps);
        lemma_prefix_bounds(stages, s + 1);
    } else {
        // Tick n is the last of stage s; tick n + 1 opens stage s + 1.
        assert(k + 1 == stage_ticks(stages.index(s)));
        lemma_prefix_ticks_snoc(stages, s);
        assert(n + 1 == prefix_ticks(stages, s + 1));
        assert(s + 1 < stages.len()) by {
            if s + 1 == stages.len() {
                assert(stages.take(stages.len() as int) =~= stages);
            }
        }
        lemma_stage_ticks_bound(stages.index(s + 1));
        lemma_stage_of_tick_locate(stages, s + 1, 0);
        assert(stage_of_tick(stages, n + 1) == s + 1);
        lemma_prefix_ticks_snoc(stages, s + 1);
        // planned(n) = offset(s) + (d*rps - 1)*1000/rps <= offset(s) + d*1000 = offset(s+1)
        assert(k * 1000 == d * 1000 * rps - 1000) by (nonlinear_arith)
            requires
                k + 1 == d * rps,
        ;
        lemma_div_is_ordered(k * 1000, d * 1000 * rps, rps);
        lemma_div_multiples_vanish(d * 1000, rps);
        assert(rps * (d * 1000) == d * 1000 * rps) by (nonlinear_arith);
        assert(k * 1000 / rps <= d * 1000);
        lemma_prefix_bounds(stages, s + 1);
        lemma_prefix_bounds(stages, s + 2);
        assert(offset_ms(stages, s + 1) == offset_ms(stages, s) + d * 1000);
    }
}

/// Every planned time lies within the planned duration of the run.
pub proof fn lemma_planned_within(stages: Seq<Stage>, n: int)
    requires
        valid_stages(stages),
        0 <= n < total_ticks_of(stages),
    ensures
        0 <= spec_tick_at(stages, n).planned_at_ms <= total_duration_ms(stages),
{
    lemma_stage_of_tick_props(stages, n);
    let s = stage_of_tick(stages, n);
    let k = n - prefix_ticks(stages, s);
    let rps = stages.index(s).rps as int;
    let d = stages.index(s).duration_sec as int;
    lemma_stage_ticks_bound(stages.index(s));
    lemma_prefix_bounds(stages, s);
    lemma_prefix_bounds(stages, s + 1);
    lemma_prefix_ticks_snoc(stages, s);
    assert(k * 1000 <= d * 1000 * rps - 1000) by (nonlinear_arith)
        requires
            k < d * rps,
            rps >= 1,
    ;
    lemma_div_is_ordered(0, k * 1000, rps);
    lemma_div_is_ordered(k * 1000, d * 1000 * rps, rps);
    lemma_div_multiples_vanish(d * 1000, rps);
    assert(rps * (d * 1000) == d * 1000 * rps) by (nonlinear_arith);
    assert(k * 1000 / rps <= d * 1000);
    assert(offset_ms(stages, s + 1) == offset_ms(stages, s) + d * 1000);
    lemma_offset_monotone(stages, s + 1, stages.len() as int);
    assert(stages.take(stages.len() as int) =~= stages);
}

/// Prefix durations are monotone in the prefix length.
pub proof fn lemma_offset_monotone(stages: Seq<Stage>, i: int, j: int)
    requires
        valid_stages(stages),
        0 <= i <= j <= stages.len(),
    ensures
        offset_ms(stages, i) <= offset_ms(stages, j),
    decreases j - i,
{
    if i < j {
        lemma_offset_monotone(stages, i, j - 1);
        lemma_prefix_ticks_snoc(stages, j - 1);
    }
}

/// With every stage at ten requests per second or fewer, adjacent ticks are
/// planned at least one hundred milliseconds apart — wider than any latency
/// the mock executor reports.
pub proof fn lemma_tick_gap_100(stages: Seq<Stage>, n: int)
    requires
        valid_stages(stages),
        forall|i: int| 0 <= i < stages.len() ==> (#[trigger] stages.index(i)).rps <= 10,
        0 <= n,
        n + 1 < total_ticks_of(stages),
    ensures
        spec_tick_at(stages, n).planned_at_ms + 100 <= spec_tick_at(stages, n + 1).planned_at_ms,
{
    lemma_prefix_ticks_monotone(stages, 0, stages.len() as int);
    assert(stages.take(0) =~= Seq::<Stage>::empty());
    lemma_stage_of_tick_props(stages, n);
    let s = stage_of_tick(stages, n);
    let k = n - prefix_ticks(stages, s);
    let rps = stages.index(s).rps as int;
    let d = stages.index(s).duration_sec as int;
    lemma_stage_ticks_bound(stages.index(s));
    lemma_prefix_bounds(stages, s);
    if k + 1 < stage_ticks(stages.index(s)) {
        lemma_stage_of_tick_locate(stages, s, k + 1);
        assert(stage_of_tick(stages, n + 1) == s);
        // ⌊k·1000/rps⌋ + 100 == (k·1000 + 100·rps)/rps <= ⌊(k+1)·1000/rps⌋
        lemma_hoist_over_denominator(k * 1000, 100, rps as nat);
        lemma_div_is_ordered(k * 1000 + 100 * rps, (k + 1) * 1000, rps);
        lemma_prefix_bounds(stages, s + 1);
    } else {
        // Tick n closes stage s; tick n + 1 opens stage s + 1.
        assert(k + 1 == stage_ticks(stages.index(s)));
        lemma_prefix_ticks_snoc(stages, s);
        assert(n + 1 == prefix_ticks(stages, s + 1));
        assert(s + 1 < stages.len()) by {
            if s + 1 == stages.len() {
                assert(stages.take(stages.len() as int) =~= stages);
            }
        }
        lemma_stage_ticks_bound(stages.index(s + 1));
        lemma_stage_of_tick_locate(stages, s + 1, 0);
        assert(stage_of_tick(stages, n + 1) == s + 1);
        // ⌊(d·rps − 1)·1000/rps⌋ + 100 == (d·1000·rps − 1000 + 100·rps)/rps <= d·1000
        assert(k * 1000 == d * 1000 * rps - 1000) by (nonlinear_arith)
            requires
                k + 1 == d * rps,
        ;
        lemma_hoist_over_denominator(k * 1000, 100, rps as nat);
        lemma_div_is_ordered(k * 1000 + 100 * rps, d * 1000 * rps, rps);
        lemma_div_multiples_vanish(d * 1000, rps);
        assert(rps * (d * 1000) == d * 1000 * rps) by (nonlinear_arith);
        assert(k * 1000 / rps + 100 <= d * 1000);
        lemma_prefix_bounds(stages, s + 1);
        lemma_prefix_bounds(stages, s + 2);
        assert(offset_ms(stages, s + 1) == offset_ms(stages, s) + d * 1000);
    }
}

/// The first tick of a run is planned at time zero and opens its stage.
pub proof fn lemma_first_tick(stages: Seq<Stage>)
    requires
        valid_stages(stages),
        total_ticks_of(stages) > 0,
    ensures
        spec_tick_at(stages, 0).planned_at_ms == 0,
        spec_tick_at(stages, 0).is_new_stage,
        spec_tick_at(stages, 0).stage_index == 0,
{
    assert(stages.len() > 0) by {
        if stages.len() == 0 {
            assert(total_ticks_of(stages) == 0);
        }
    }
    lemma_stage_ticks_bound(stages.index(0));
    assert(stages.take(0) =~= Seq::<Stage>::empty());
    lemma_stage_of_tick_locate(stages, 0, 0);
}

/// Within one stage whose rate divides 1000 evenly, adjacent ticks are
/// planned exactly `1000 / rps` milliseconds apart.
pub proof fn lemma_tick_delta_same_stage(stages: Seq<Stage>, n: int)
    requires
        valid_stages(stages),
        0 <= n,
        n + 1 < total_ticks_of(stages),
        stage_of_tick(stages, n + 1) == stage_of_tick(stages, n),
        1000int % (stages.index(stage_of_tick(stages, n)).rps as int) == 0,
    ensures
        spec_tick_at(stages, n + 1).planned_at_ms - spec_tick_at(stages, n).planned_at_ms == 1000int
            / (stages.index(stage_of_tick(stages, n)).rps as int),
{
    lemma_stage_of_tick_props(stages, n);
    let s = stage_of_tick(stages, n);
    let k = n - prefix_ticks(stages, s);
    let rps = stages.index(s).rps as int;
    let q: int = 1000int / rps;
    vstd::arithmetic::div_mod::lemma_fundamental_div_mod(1000int, rps);
    assert(1000 == rps * q);
    lemma_stage_ticks_bound(stages.index(s));
    lemma_prefix_bounds(stages, s);
    lemma_prefix_bounds(stages, s + 1);
    assert((k + 1) * 1000 == k * 1000 + q * rps) by (nonlinear_arith)
        requires
            1000 == rps * q,
    ;
    lemma_hoist_over_denominator(k * 1000, q, rps as nat);
    assert((k + 1) * 1000 / rps == k * 1000 / rps + q);
    lemma_div_is_ordered(0, k * 1000, rps);
    lemma_div_is_ordered(k * 1000, stage_ticks(stages.index(s)) * 1000, rps);
}

/// The lazy tick sequence across a workload's stages: each call of `next`
/// plans one tick, in order.
#[derive(Debug)]
pub struct Scheduler {
    pub total_ticks: u64,
    pub stages: Vec<Stage>,
    pub current_stage_index: usize,
    pub current_step_index: usize,
    pub stage_offset_ms: u64,
    pub stage_start_ms: u64,
    pub stage_max_ticks: Vec<i32>,
    pub planned_duration_ms: u64,
    pub planned_duration_sec: u64,
}

impl Scheduler {
    /// Well-formedness: the precomputed totals match the stage list and the
    /// cursor sits inside it.
    pub open spec fn wf(self) -> bool {
        &&& valid_stages(self.stages@)
        &&& self.stage_max_ticks@.len() == self.stages@.len()
        &&& forall|i: int|
            0 <= i < self.stages@.len() ==> self.stage_max_ticks@.index(i) == stage_ticks(
                #[trigger] self.stages@.index(i),
            )
        &&& self.total_ticks == total_ticks_of(self.stages@)
        &&& self.planned_duration_ms == total_duration_ms(self.stages@)
        &&& self.planned_duration_sec == total_duration_sec(self.stages@)
        &&& self.current_stage_index <= self.stages@.len()
        &&& self.current_stage_index < self.stages@.len() ==> self.current_step_index
            <= stage_ticks(self.stages@.index(self.current_stage_index as int))
        &&& self.current_stage_index == self.stages@.len() ==> self.current_step_index == 0
        &&& self.stage_start_ms == offset_ms(self.stages@, self.current_stage_index as int)
        &&& self.stage_offset_ms == offset_ms(self.stages@, self.current_stage_index as int)
    }

    /// How many ticks the scheduler has already planned.
    pub open spec fn emitted(self) -> int {
        prefix_ticks(self.stages@, self.current_stage_index as int) + self.current_step_index
    }

    /// A scheduler at the start of the workload, with the per-stage tick
    /// counts and the run's planned totals precomputed.
    pub fn new(workload: &Workload) -> (r: Scheduler)
        requires
            valid_stages(workload.stages@),
        ensures
            r.wf(),
            r.stages@ == workload.stages@,
            r.emitted() == 0,
            r.total_ticks == total_ticks_of(workload.stages@),
            r.planned_duration_ms == total_duration_ms(workload.stages@),
            r.planned_duration_sec == total_duration_sec(workload.stages@),
    {
        let n = workload.stages.len();
        let mut stages: Vec<Stage> = Vec::with_capacity(n);
        let mut stage_max_ticks: Vec<i32> = Vec::with_capacity(n);
        let mut total_ticks: u64 = 0;
        let mut planned_duration_ms: u64 = 0;
        let mut planned_duration_sec: u64 = 0;
        let mut i: usize = 0;
        while i < n
            invariant
                i <= n,
                n == workload.stages@.len(),
                valid_stages(workload.stages@),
                stages@ == workload.stages@.take(i as int),
                stage_max_ticks@.len() == i,
                forall|k: int|
                    0 <= k < i ==> stage_max_ticks@.index(k) == stage_ticks(
                        #[trigger] workload.stages@.index(k),
                    ),
                total_ticks == prefix_ticks(workload.stages@, i as int),
                planned_duration_ms == offset_ms(workload.stages@, i as int),
                planned_duration_sec == total_duration_sec(workload.stages@.take(i as int)),
                total_ticks <= i * 864_000_000,
                planned_duration_ms <= i * 86_400_000,
                planned_duration_sec <= i * 86_400,
            decreases n - i,
        {
            let stage = workload.stages[i];
            proof {
                assert(runnable_stage(workload.stages@.index(i as int)));
                lemma_stage_ticks_bound(stage);
                lemma_prefix_ticks_snoc(workload.stages@, i as int);
                assert(workload.stages@.take(i + 1).drop_last() =~= workload.stages@.take(
                    i as int,
                ));
                assert(workload.stages@.take(i + 1) =~= workload.stages@.take(i as int).push(
                    workload.stages@.index(i as int),
                ));
            }
            stages.push(stage);
            stage_max_ticks.push(stage.duration_sec * stage.rps);
            total_ticks = total_ticks + (stage.duration_sec as u64) * (stage.rps as u64);
            planned_duration_ms = planned_duration_ms + (stage.duration_sec as u64) * 1000;
            planned_duration_sec = planned_duration_sec + stage.duration_sec as u64;
            i = i + 1;
        }
        proof {
            assert(workload.stages@.take(n as int) =~= workload.stages@);
            assert(workload.stages@.take(0) =~= Seq::<Stage>::empty());
        }
        Scheduler {
            total_ticks,
            stages,
            current_stage_index: 0,
            current_step_index: 0,
            stage_offset_ms: 0,
            stage_start_ms: 0,
            stage_max_ticks,
            planned_duration_ms,
            planned_duration_sec,
        }
    }

    /// The tick count of one stage, absent for an index past the stages.
    pub fn get_stage_max_ticks(&self, stage_index: usize) -> (r: Option<i32>)
        requires
            self.wf(),
        ensures
            stage_index < self.stages@.len() ==> r == Some(
                (stage_ticks(self.stages@.index(stage_index as int))) as i32,
            ),
            stage_index >= self.stages@.len() ==> r.is_none(),
    {
        if stage_index < self.stage_max_ticks.len() {
            Some(self.stage_max_ticks[stage_index])
        } else {
            None
        }
    }

    /// Plans the next tick: the `emitted()`-th tick of the stage list, or
    /// nothing once every stage is exhausted.
    pub fn next(&mut self) -> (r: Option<Tick>)
        requires
            old(self).wf(),
        ensures
            final(self).wf(),
            final(self).stages@ == old(self).stages@,
            final(self).total_ticks == old(self).total_ticks,
            final(self).planned_duration_ms == old(self).planned_duration_ms,
            final(self).planned_duration_sec == old(self).planned_duration_sec,
            old(self).emitted() < total_ticks_of(old(self).stages@) ==> {
                &&& r == Some(spec_tick_at(old(self).stages@, old(self).emitted()))
                &&& final(self).emitted() == old(self).emitted() + 1
            },
            old(self).emitted() >= total_ticks_of(old(self).stages@) ==> {
                &&& r.is_none()
                &&& final(self).emitted() == old(self).emitted()
            },
    {
        let ghost stages = self.stages@;
        let ghost n = self.emitted();
        proof {
            lemma_prefix_ticks_monotone(stages, self.current_stage_index as int,
                stages.len() as int);
            assert(stages.take(stages.len() as int) =~= stages);
        }
        if self.current_stage_index < self.stages.len() {
            let max = self.stage_max_ticks[self.current_stage_index];
            proof {
                lemma_stage_ticks_bound(stages.index(self.current_stage_index as int));
            }
            if self.current_step_index >= max as usize {
                let finished = self.stages[self.current_stage_index];
                proof {
                    lemma_prefix_ticks_snoc(stages, self.current_stage_index as int);
                    lemma_prefix_bounds(stages, self.current_stage_index as int);
                    lemma_prefix_bounds(stages, self.current_stage_index + 1);
                }
                self.stage_offset_ms = self.stage_offset_ms + (finished.duration_sec as u64)
                    * 1000;
                self.current_step_index = 0;
                self.current_stage_index = self.current_stage_index + 1;
                self.stage_start_ms = self.stage_offset_ms;
            }
        }
        let is_new_stage = self.current_step_index == 0;
        if self.current_stage_index >= self.stages.len() {
            proof {
                assert(self.emitted() == n);
                assert(n >= total_ticks_of(stages));
            }
            return None;
        }
        proof {
            lemma_stage_ticks_bound(stages.index(self.current_stage_index as int));
            assert(self.current_step_index < stage_ticks(
                stages.index(self.current_stage_index as int),
            ));
            assert(self.emitted() == n);
            lemma_prefix_ticks_snoc(stages, self.current_stage_index as int);
            lemma_prefix_ticks_monotone(stages, self.current_stage_index + 1,
                stages.len() as int);
            assert(n < total_ticks_of(stages));
            lemma_stage_of_tick_locate(stages, self.current_stage_index as int,
                self.current_step_index as int);
            lemma_prefix_bounds(stages, self.current_stage_index as int);
            lemma_div_is_ordered(
                (self.current_step_index as int) * 1000,
                864_000_000_000,
                stages.index(self.current_stage_index as int).rps as int,
            );
        }
        let stage = self.stages[self.current_stage_index];
        let tick_in_stage = self.current_step_index as u64;
        self.current_step_index = self.current_step_index + 1;
        let tick_offset_ms = tick_in_stage * 1000 / (stage.rps as u64);
        Some(
            Tick {
                tick_index: tick_in_stage,
                stage_index: self.current_stage_index as u64,
                planned_at_ms: self.stage_start_ms + tick_offset_ms,
                target_rps: stage.rps as u32,
                is_new_stage,
            },
        )
    }
}

} // verus!
