use vstd::prelude::*;
use vstd::string::StringExecFns;
use crate::execution_plan::{plan_wf, ExecutionPlan};
use crate::schema::{spec_method_str, valid_journey, valid_step, Step, StepMethod, StepView,
    MAX_STEPS};

verus! {

/// The largest clock value the runtime accepts; keeps sleep arithmetic
/// within `u64`.
pub const MAX_NOW_MS: u64 = 0x4000_0000_0000_0000;

/// The parked marker: a virtual user whose readiness is set here waits for a
/// request completion and is never picked.
pub const PARKED: u64 = u64::MAX;

/// One virtual user: where it stands in its journey and when it is next
/// ready.
#[derive(Debug, Clone, Copy, PartialEq, Eq, Structural)]
pub struct VUState {
    pub vu_id: u32,
    pub journey_id: u32,
    pub step_index: usize,
    pub next_ready_at_ms: u64,
    pub iteration_count: u64,
    pub total_sleep_ms: u64,
}

/// The runtime's context; the step walker needs no shared state, so it is
/// empty.
pub struct Ctx {}

/// One request to execute, with the metrics key it is grouped under.
#[derive(Debug)]
pub struct RequestSpec {
    pub method: StepMethod,
    pub path: String,
    pub endpoint_key: String,
    pub timeout_ms: u64,
    pub journey_id: u64,
    pub stage_index: u64,
}

/// The metrics grouping key of a request: the method's name, a space, and
/// the path.
pub open spec fn endpoint_key_of(method: StepMethod, path: Seq<char>) -> Seq<char> {
    spec_method_str(method) + seq![' '] + path
}

/// The canonical "METHOD path" key of a request.
pub fn endpoint_key(method: StepMethod, path: &str) -> (r: String)
    ensures
        r@ == endpoint_key_of(method, path@),
{
    proof {
        reveal_strlit(" ");
    }
    let mut r = String::new();
    r.append(method.name());
    r.append(" ");
    r.append(path);
    proof {
        assert(r@ =~= endpoint_key_of(method, path@));
    }
    r
}

/// What a virtual user does next: wait, run a request, or begin a new
/// iteration.
#[derive(Debug)]
pub enum NextAction {
    NotReady(u64),
    Ready(RequestSpec),
    CompletedIteration,
}

/// The milliseconds one step sleeps; a request step sleeps none.
pub open spec fn step_sleep(s: StepView) -> int {
    match s {
        StepView::Sleep { duration_ms } => duration_ms as int,
        StepView::Request { .. } => 0,
    }
}

/// The sleep of steps `i..j`.
pub open spec fn sleep_sum(steps: Seq<StepView>, i: int, j: int) -> int
    decreases j - i,
{
    if i >= j {
        0
    } else {
        step_sleep(steps.index(i)) + sleep_sum(steps, i + 1, j)
    }
}

/// The position of the first request step at or after `i`; the step count
/// when none remains.
pub open spec fn first_request_from(steps: Seq<StepView>, i: int) -> int
    decreases steps.len() - i,
{
    if i < 0 || i >= steps.len() {
        steps.len() as int
    } else if steps.index(i) is Request {
        i
    } else {
        first_request_from(steps, i + 1)
    }
}

proof fn lemma_first_request_props(steps: Seq<StepView>, i: int)
    requires
        0 <= i <= steps.len(),
    ensures
        i <= first_request_from(steps, i) <= steps.len(),
        first_request_from(steps, i) < steps.len() ==> steps.index(
            first_request_from(steps, i),
        ) is Request,
        forall|k: int| i <= k < first_request_from(steps, i) ==> !(steps.index(k) is Request),
    decreases steps.len() - i,
{
    if i < steps.len() && !(steps.index(i) is Request) {
        lemma_first_request_props(steps, i + 1);
    }
}

proof fn lemma_sleep_sum_snoc(steps: Seq<StepView>, i: int, j: int)
    requires
        0 <= i <= j < steps.len(),
    ensures
        sleep_sum(steps, i, j + 1) == sleep_sum(steps, i, j) + step_sleep(steps.index(j)),
    decreases j - i,
{
    if i < j {
        lemma_sleep_sum_snoc(steps, i + 1, j);
    } else {
        assert(sleep_sum(steps, i + 1, j + 1) == 0);
    }
}

proof fn lemma_sleep_sum_bounds(steps: Seq<StepView>, i: int, j: int)
    requires
        0 <= i <= j <= steps.len(),
        forall|k: int| 0 <= k < steps.len() ==> valid_step(#[trigger] steps.index(k)),
    ensures
        0 <= sleep_sum(steps, i, j) <= (j - i) * 10000,
    decreases j - i,
{
    if i < j {
        lemma_sleep_sum_bounds(steps, i + 1, j);
        assert(valid_step(steps.index(i)));
    }
}

/// The journey steps a virtual user walks, as their mathematical content.
pub open spec fn vu_steps(plan: ExecutionPlan, vu: VUState) -> Seq<StepView> {
    plan.journeys@.index(vu.journey_id as int)@.steps
}

/// A virtual user the runtime accepts: its journey exists in the plan.
pub open spec fn vu_in_plan(plan: ExecutionPlan, vu: VUState) -> bool {
    (vu.journey_id as int) < plan.journeys@.len()
}

/// The engine's pool of virtual users, picked by position.
pub struct VuPool {
    pub vus: Vec<VUState>,
}

/// The first pool position that is ready at `now_ms`.
pub open spec fn spec_pick_ready(vus: Seq<VUState>, now_ms: u64) -> Option<int>
    decreases vus.len(),
{
    if vus.len() == 0 {
        None
    } else if vus.first().next_ready_at_ms <= now_ms {
        Some(0)
    } else {
        match spec_pick_ready(vus.drop_first(), now_ms) {
            Some(i) => Some(i + 1),
            None => None,
        }
    }
}

/// What a pick means: the picked user is ready and everyone before it is
/// not; no pick means nobody is ready.
pub proof fn lemma_pick_ready_props(vus: Seq<VUState>, now_ms: u64)
    ensures
        match spec_pick_ready(vus, now_ms) {
            Some(i) => 0 <= i < vus.len() && vus.index(i).next_ready_at_ms <= now_ms && forall|
                j: int,
            | 0 <= j < i ==> vus.index(j).next_ready_at_ms > now_ms,
            None => forall|j: int| 0 <= j < vus.len() ==> vus.index(j).next_ready_at_ms > now_ms,
        },
    decreases vus.len(),
{
    if vus.len() > 0 && vus.first().next_ready_at_ms > now_ms {
        lemma_pick_ready_props(vus.drop_first(), now_ms);
        let rest = spec_pick_ready(vus.drop_first(), now_ms);
        match rest {
            Some(i) => {
                assert forall|j: int| 0 <= j < i + 1 implies vus.index(j).next_ready_at_ms
                    > now_ms by {
                    if j > 0 {
                        assert(vus.drop_first().index(j - 1) == vus.index(j));
                    }
                }
            },
            None => {
                assert forall|j: int| 0 <= j < vus.len() implies vus.index(j).next_ready_at_ms
                    > now_ms by {
                    if j > 0 {
                        assert(vus.drop_first().index(j - 1) == vus.index(j));
                    }
                }
            },
        }
    }
}

/// Virtual-user exclusivity: a user parked on an in-flight request is never
/// picked, at any clock value a run can reach.
pub proof fn lemma_parked_vu_never_picked(vus: Seq<VUState>, now_ms: u64, v: int)
    requires
        0 <= v < vus.len(),
        vus.index(v).next_ready_at_ms == PARKED,
        now_ms < PARKED,
    ensures
        spec_pick_ready(vus, now_ms) != Some(v),
{
    lemma_pick_ready_props(vus, now_ms);
}

/// The sum of the users' sleep tallies.
pub open spec fn total_sleep_of(vus: Seq<VUState>) -> int
    decreases vus.len(),
{
    if vus.len() == 0 {
        0
    } else {
        total_sleep_of(vus.drop_last()) + vus.last().total_sleep_ms
    }
}

impl VuPool {
    /// A pool over the given users, in order.
    pub fn new(vus: Vec<VUState>) -> (r: VuPool)
        ensures
            r.vus@ == vus@,
    {
        VuPool { vus }
    }

    /// The first user ready at `now_ms`, scanning in pool order; absent when
    /// every user is waiting or parked.
    pub fn pick_ready_vu(&self, now_ms: u64) -> (r: Option<usize>)
        ensures
            match r {
                Some(i) => Some(i as int) == spec_pick_ready(self.vus@, now_ms),
                None => spec_pick_ready(self.vus@, now_ms).is_none(),
            },
    {
        let mut idx: usize = 0;
        while idx < self.vus.len()
            invariant
                idx <= self.vus@.len(),
                forall|j: int| 0 <= j < idx ==> self.vus@.index(j).next_ready_at_ms > now_ms,
            decreases self.vus@.len() - idx,
        {
            if self.vus[idx].next_ready_at_ms <= now_ms {
                proof {
                    lemma_pick_ready_props(self.vus@, now_ms);
                    let p = spec_pick_ready(self.vus@, now_ms);
                    match p {
                        Some(i) => {
                            if i < idx as int {
                                assert(self.vus@.index(i).next_ready_at_ms > now_ms);
                            }
                            if i > idx as int {
                                assert(self.vus@.index(idx as int).next_ready_at_ms > now_ms);
                            }
                        },
                        None => {
                            assert(self.vus@.index(idx as int).next_ready_at_ms > now_ms);
                        },
                    }
                }
                return Some(idx);
            }
            idx = idx + 1;
        }
        proof {
            lemma_pick_ready_props(self.vus@, now_ms);
            if spec_pick_ready(self.vus@, now_ms) is Some {
                let i = spec_pick_ready(self.vus@, now_ms).unwrap();
                assert(self.vus@.index(i).next_ready_at_ms > now_ms);
            }
        }
        None
    }

    /// The users' combined sleep, capped at the top of `u64`.
    pub fn get_total_sleep_ms(&self) -> (r: u64)
        ensures
            r == sat_of(total_sleep_of(self.vus@)),
    {
        let mut sum: u64 = 0;
        let mut i: usize = 0;
        while i < self.vus.len()
            invariant
                i <= self.vus@.len(),
                sum == sat_of(total_sleep_of(self.vus@.take(i as int))),
            decreases self.vus@.len() - i,
        {
            proof {
                assert(self.vus@.take(i + 1).drop_last() =~= self.vus@.take(i as int));
                assert(self.vus@.take(i + 1).last() == self.vus@.index(i as int));
            }
            let t = self.vus[i].total_sleep_ms;
            if sum <= u64::MAX - t {
                sum = sum + t;
            } else {
                sum = u64::MAX;
            }
            i = i + 1;
        }
        proof {
            assert(self.vus@.take(self.vus@.len() as int) == self.vus@);
        }
        sum
    }

    /// The user at one position, to read.
    pub fn vu_read(&self, vu_idx: usize) -> (r: VUState)
        requires
            vu_idx < self.vus@.len(),
        ensures
            r == self.vus@.index(vu_idx as int),
    {
        self.vus[vu_idx]
    }

    /// Replaces the user at one position.
    pub fn vu_write(&mut self, vu_idx: usize, vu: VUState)
        requires
            vu_idx < old(self).vus@.len(),
        ensures
            final(self).vus@ == old(self).vus@.update(vu_idx as int, vu),
    {
        self.vus.set(vu_idx, vu);
    }

    /// A mutable borrow of the user at one position; an index past the pool
    /// is rejected with a message.
    pub fn get_mut(&mut self, vu_idx: usize) -> (r: Result<&mut VUState, String>)
        ensures
            vu_idx < old(self).vus@.len() ==> (r matches Ok(v) && *v == old(self).vus@.index(
                vu_idx as int,
            ) && final(self).vus@ == old(self).vus@.update(vu_idx as int, *final(v))),
            vu_idx >= old(self).vus@.len() ==> r is Err && final(self).vus@ == old(self).vus@,
    {
        if vu_idx < self.vus.len() {
            Ok(&mut self.vus[vu_idx])
        } else {
            Err("VU index out of bounds".to_owned())
        }
    }
}

/// The capped value a `u64` tally holds for an ideal sum.
pub open spec fn sat_of(x: int) -> int {
    if x <= u64::MAX {
        x
    } else {
        u64::MAX as int
    }
}

/// The step walker over a borrowed virtual user.
pub struct VuRuntime {}

impl VuRuntime {
    /// Advances a user past a finished request: the next step becomes
    /// current, the user is ready at the completion time, and a finished
    /// journey rolls over to a new iteration.
    pub fn on_request_executed(
        &self,
        plan: &ExecutionPlan,
        vu: &mut VUState,
        now_ms: u64,
    )
        requires
            plan_wf(*plan),
            vu_in_plan(*plan, *old(vu)),
            old(vu).step_index < MAX_STEPS + 1,
        ensures
            final(vu).vu_id == old(vu).vu_id,
            final(vu).journey_id == old(vu).journey_id,
            final(vu).total_sleep_ms == old(vu).total_sleep_ms,
            final(vu).next_ready_at_ms == now_ms,
            old(vu).step_index + 1 >= vu_steps(*plan, *old(vu)).len() ==> {
                &&& final(vu).step_index == 0
                &&& final(vu).iteration_count == sat_of(old(vu).iteration_count + 1)
            },
            old(vu).step_index + 1 < vu_steps(*plan, *old(vu)).len() ==> {
                &&& final(vu).step_index == old(vu).step_index + 1
                &&& final(vu).iteration_count == old(vu).iteration_count
            },
    {
        vu.step_index = vu.step_index + 1;
        vu.next_ready_at_ms = now_ms;
        let journey = match plan.get_journey(vu.journey_id as i32) {
            Ok(j) => j,
            Err(_) => {
                proof {
                    assert(false);
                }
                return ;
            },
        };
        if vu.step_index >= journey.steps.len() {
            vu.step_index = 0;
            if vu.iteration_count < u64::MAX {
                vu.iteration_count = vu.iteration_count + 1;
            }
        }
    }

    /// What the user does at `now_ms`: wait until it is ready; otherwise
    /// walk its steps — sleeps push its readiness forward and accumulate,
    /// the first request parks it and is returned, and a journey end with no
    /// request left reports a completed iteration. A user standing past its
    /// last step first rolls over to step zero and a new iteration.
    pub fn next_action(
        &self,
        plan: &ExecutionPlan,
        vu: &mut VUState,
        now_ms: u64,
    ) -> (r: NextAction)
        requires
            plan_wf(*plan),
            vu_in_plan(*plan, *old(vu)),
            now_ms <= MAX_NOW_MS,
        ensures
            final(vu).vu_id == old(vu).vu_id,
            final(vu).journey_id == old(vu).journey_id,
            old(vu).next_ready_at_ms > now_ms ==> (r matches NextAction::NotReady(t) && t == old(
                vu,
            ).next_ready_at_ms && *final(vu) == *old(vu)),
            old(vu).next_ready_at_ms <= now_ms ==> {
                let steps = vu_steps(*plan, *old(vu));
                let rolled = old(vu).step_index >= steps.len();
                let i0 = if rolled {
                    0int
                } else {
                    old(vu).step_index as int
                };
                let j = first_request_from(steps, i0);
                &&& final(vu).iteration_count == if rolled {
                    sat_of(old(vu).iteration_count + 1)
                } else {
                    old(vu).iteration_count as int
                }
                &&& final(vu).total_sleep_ms == sat_of(
                    old(vu).total_sleep_ms + sleep_sum(steps, i0, j),
                )
                &&& j < steps.len() ==> {
                    &&& r matches NextAction::Ready(req)
                    &&& steps.index(j) matches StepView::Request { method, path, timeout_ms, .. }
                        && req.method == method && req.path@ == path && req.endpoint_key@
                        == endpoint_key_of(method, path) && req.timeout_ms == match timeout_ms {
                        Some(t) => t as u64,
                        None => 0u64,
                    } && req.journey_id == old(vu).journey_id && req.stage_index == 0
                    &&& final(vu).step_index == j
                    &&& final(vu).next_ready_at_ms == PARKED
                }
                &&& j >= steps.len() ==> {
                    &&& r is CompletedIteration
                    &&& final(vu).step_index == steps.len()
                    &&& final(vu).next_ready_at_ms == if i0 < steps.len() {
                        now_ms + sleep_sum(steps, i0, j)
                    } else {
                        old(vu).next_ready_at_ms as int
                    }
                }
            },
    {
        if vu.next_ready_at_ms > now_ms {
            return NextAction::NotReady(vu.next_ready_at_ms);
        }
        let ghost steps = vu_steps(*plan, *old(vu));
        let journey = match plan.get_journey(vu.journey_id as i32) {
            Ok(j) => j,
            Err(_) => {
                proof {
                    assert(false);
                }
                return NextAction::CompletedIteration;
            },
        };
        proof {
            assert(valid_journey(plan.journeys@.index(vu.journey_id as int)@));
            assert(journey@.steps == steps);
        }
        if journey.steps.len() <= vu.step_index {
            vu.step_index = 0;
            if vu.iteration_count < u64::MAX {
                vu.iteration_count = vu.iteration_count + 1;
            }
        }
        let ghost i0 = vu.step_index as int;
        let ghost j = first_request_from(steps, i0);
        proof {
            lemma_first_request_props(steps, i0);
        }
        loop
            invariant
                plan_wf(*plan),
                journey@.steps == steps,
                journey == plan.journeys@.index(old(vu).journey_id as int),
                steps.len() <= MAX_STEPS,
                forall|k: int| 0 <= k < steps.len() ==> valid_step(#[trigger] steps.index(k)),
                0 <= i0 <= steps.len(),
                i0 == if old(vu).step_index >= steps.len() {
                    0int
                } else {
                    old(vu).step_index as int
                },
                i0 <= vu.step_index as int <= steps.len(),
                j == first_request_from(steps, vu.step_index as int),
                j == first_request_from(steps, i0),
                i0 <= j <= steps.len(),
                j < steps.len() ==> steps.index(j) is Request,
                vu.vu_id == old(vu).vu_id,
                vu.journey_id == old(vu).journey_id,
                vu.iteration_count == if old(vu).step_index >= steps.len() {
                    sat_of(old(vu).iteration_count + 1)
                } else {
                    old(vu).iteration_count as int
                },
                vu.total_sleep_ms == sat_of(
                    old(vu).total_sleep_ms + sleep_sum(steps, i0, vu.step_index as int),
                ),
                vu.next_ready_at_ms == if i0 < vu.step_index as int {
                    now_ms + sleep_sum(steps, i0, vu.step_index as int)
                } else {
                    old(vu).next_ready_at_ms as int
                },
                old(vu).next_ready_at_ms <= now_ms,
                now_ms <= MAX_NOW_MS,
            decreases steps.len() - vu.step_index,
        {
            if vu.step_index >= journey.steps.len() {
                return NextAction::CompletedIteration;
            }
            proof {
                lemma_sleep_sum_snoc(steps, i0, vu.step_index as int);
                lemma_sleep_sum_bounds(steps, i0, vu.step_index as int);
            }
            match &journey.steps[vu.step_index] {
                Step::Sleep { duration_ms } => {
                    proof {
                        assert(valid_step(steps.index(vu.step_index as int)));
                    }
                    let base = if vu.next_ready_at_ms > now_ms {
                        vu.next_ready_at_ms
                    } else {
                        now_ms
                    };
                    vu.next_ready_at_ms = base + (*duration_ms as u64);
                    if vu.total_sleep_ms <= u64::MAX - (*duration_ms as u64) {
                        vu.total_sleep_ms = vu.total_sleep_ms + (*duration_ms as u64);
                    } else {
                        vu.total_sleep_ms = u64::MAX;
                    }
                    vu.step_index = vu.step_index + 1;
                },
                Step::Request { method, path, headers: _, body: _, timeout_ms } => {
                    vu.next_ready_at_ms = PARKED;
                    let timeout: u64 = match timeout_ms {
                        Some(t) => *t as u64,
                        None => 0,
                    };
                    let key = endpoint_key(*method, path.as_str());
                    return NextAction::Ready(
                        RequestSpec {
                            method: *method,
                            path: path.clone(),
                            endpoint_key: key,
                            timeout_ms: timeout,
                            journey_id: vu.journey_id as u64,
                            stage_index: 0,
                        },
                    );
                },
            }
        }
    }
}

} // verus!
