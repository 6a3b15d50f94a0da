use vstd::prelude::*;
use crate::sampler::{sampler_wf, WeightSampler};
use crate::schema::{duplicate_journeys, journeys_match, valid_journey, valid_scenario, Journey,
    Scenario, MAX_JOURNEYS};
use crate::text::{dec_str, u64_to_string};

verus! {

/// The failure of a plan lookup.
#[derive(Debug, Clone, Copy, PartialEq, Eq, Structural)]
pub enum PlanError {
    InvalidJourneyId,
}

/// The immutable compiled view of a scenario: its journeys, the target's
/// base URL, and the weighted sampler over the journeys.
#[derive(Debug)]
pub struct ExecutionPlan {
    pub scenario_name: String,
    pub version: String,
    pub base_url: String,
    pub journeys: Vec<Journey>,
    pub weight_sampler: WeightSampler,
    pub limits: Option<String>,
}

/// Well-formedness of a plan: the sampler is well formed, its journey ids
/// are exactly the positions of the plan's journeys, and every journey is
/// within the documented bounds.
pub open spec fn plan_wf(p: ExecutionPlan) -> bool {
    &&& sampler_wf(p.weight_sampler)
    &&& p.weight_sampler.journey_ids@.len() == p.journeys@.len()
    &&& forall|i: int|
        0 <= i < p.journeys@.len() ==> p.weight_sampler.journey_ids@.index(i) == i as i32
    &&& p.journeys@.len() <= MAX_JOURNEYS
    &&& forall|i: int| 0 <= i < p.journeys@.len() ==> valid_journey(#[trigger] p.journeys@.index(i)@)
}

proof fn lemma_cumulative_ends_increasing(weights: Seq<u16>)
    requires
        weights.len() <= 65536,
        forall|i: int| 0 <= i < weights.len() ==> weights.index(i) >= 1,
    ensures
        crate::sampler::spec_cumulative_ends(weights).len() == weights.len(),
        forall|i: int, j: int|
            0 <= i < j < weights.len() ==> crate::sampler::spec_cumulative_ends(weights).index(i)
                < crate::sampler::spec_cumulative_ends(weights).index(j),
        forall|i: int|
            0 <= i < weights.len() ==> crate::sampler::spec_cumulative_ends(weights).index(i) <= (i
                + 1) * 65535,
    decreases weights.len(),
{
    if weights.len() > 0 {
        lemma_cumulative_ends_increasing(weights.drop_last());
        let prefix = crate::sampler::spec_cumulative_ends(weights.drop_last());
        let ends = crate::sampler::spec_cumulative_ends(weights);
        assert forall|i: int, j: int| 0 <= i < j < weights.len() implies ends.index(i)
            < ends.index(j) by {
            if j < weights.len() - 1 {
                assert(prefix.index(i) < prefix.index(j));
            } else {
                if i < weights.len() - 1 {
                    assert(ends.index(i) == prefix.index(i));
                    if i < weights.len() - 2 {
                        assert(prefix.index(i) < prefix.index(weights.len() - 2));
                    }
                }
            }
        }
    }
}

impl ExecutionPlan {
    /// The compiled plan of a scenario: its name and version rendered as
    /// text, the target's base URL, equal copies of the journeys, and a
    /// sampler over them with an empty seed (the run engine seeds it).
    pub fn from_scenario(scenario: &Scenario) -> (r: ExecutionPlan)
        requires
            scenario.journeys@.len() <= MAX_JOURNEYS,
        ensures
            r.scenario_name@ == scenario.name@,
            r.version@ == dec_str(scenario.version as nat),
            r.base_url@ == scenario.target.base_url@,
            journeys_match(r.journeys@, scenario.journeys@),
            r.weight_sampler.seed@ == Seq::<char>::empty(),
            r.weight_sampler.journey_ids@.len() == scenario.journeys@.len(),
            forall|i: int|
                0 <= i < scenario.journeys@.len() ==> r.weight_sampler.journey_ids@.index(i)
                    == i as i32,
            r.weight_sampler.cumulative_ends@ == crate::sampler::spec_cumulative_ends(
                scenario.journeys@.map_values(|j: Journey| j.weight),
            ),
            r.weight_sampler.total_weight as int == if scenario.journeys@.len() == 0 {
                0int
            } else {
                r.weight_sampler.cumulative_ends@.last() as int
            },
            r.limits.is_none(),
            valid_scenario(*scenario) ==> plan_wf(r),
    {
        let sampler = WeightSampler::from_scenario(scenario);
        proof {
            if valid_scenario(*scenario) {
                let weights = scenario.journeys@.map_values(|j: Journey| j.weight);
                assert forall|i: int| 0 <= i < weights.len() implies weights.index(i) >= 1 by {
                    assert(valid_journey(scenario.journeys@.index(i)@));
                }
                lemma_cumulative_ends_increasing(weights);
            }
        }
        ExecutionPlan {
            scenario_name: scenario.name.clone(),
            version: u64_to_string(scenario.version as u64),
            base_url: scenario.target.base_url.clone(),
            journeys: duplicate_journeys(&scenario.journeys),
            weight_sampler: sampler,
            limits: None,
        }
    }

    /// The journey with the given id; every id at or above the journey
    /// count, and every negative id, is rejected with `InvalidJourneyId`.
    pub fn get_journey(&self, id: i32) -> (r: Result<&Journey, PlanError>)
        ensures
            0 <= id < self.journeys@.len() ==> r == Ok::<&Journey, PlanError>(
                &self.journeys@.index(id as int),
            ),
            !(0 <= id < self.journeys@.len()) ==> r == Err::<&Journey, PlanError>(
                PlanError::InvalidJourneyId,
            ),
    {
        if id >= 0 && (id as usize) < self.journeys.len() {
            Ok(&self.journeys[id as usize])
        } else {
            Err(PlanError::InvalidJourneyId)
        }
    }
}

/// The compiled plan of a scenario, with the sampler seeded by the decimal
/// rendering of `seed`.
pub fn plan(scenario: &Scenario, seed: u32) -> (r: ExecutionPlan)
    requires
        scenario.journeys@.len() <= MAX_JOURNEYS,
    ensures
        r.scenario_name@ == scenario.name@,
        r.base_url@ == scenario.target.base_url@,
        journeys_match(r.journeys@, scenario.journeys@),
        r.weight_sampler.seed@ == dec_str(seed as nat),
        r.weight_sampler.journey_ids@.len() == scenario.journeys@.len(),
        forall|i: int|
            0 <= i < scenario.journeys@.len() ==> r.weight_sampler.journey_ids@.index(i)
                == i as i32,
        r.weight_sampler.cumulative_ends@ == crate::sampler::spec_cumulative_ends(
            scenario.journeys@.map_values(|j: Journey| j.weight),
        ),
        r.weight_sampler.total_weight as int == if scenario.journeys@.len() == 0 {
            0int
        } else {
            r.weight_sampler.cumulative_ends@.last() as int
        },
        valid_scenario(*scenario) ==> plan_wf(r),
{
    let mut p = ExecutionPlan::from_scenario(scenario);
    p.weight_sampler.seed = u64_to_string(seed as u64);
    p
}

} // verus!
