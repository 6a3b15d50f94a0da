use vstd::prelude::*;
use vstd::string::StrSliceExecFns;
use vstd::string::StringSliceAdditionalSpecFns;
use vstd::utf8::encode_utf8;
use crate::hashing::{be_u64_first8, be_u64_of, sha256, sha256_of};
use crate::schema::Scenario;

verus! {

/// Cumulative sums of a weight list: entry `i` is the sum of `weights[..=i]`.
pub open spec fn spec_cumulative_ends(weights: Seq<u16>) -> Seq<u32>
    decreases weights.len(),
{
    if weights.len() == 0 {
        Seq::empty()
    } else {
        let prefix = spec_cumulative_ends(weights.drop_last());
        let prev: u32 = if prefix.len() == 0 {
            0u32
        } else {
            prefix.last()
        };
        prefix.push((prev + weights.last()) as u32)
    }
}

/// Running totals of the weights: `r[i] = weights[0] + ... + weights[i]`.
pub fn calculate_cumulative_ends(weights: &mut [u16]) -> (r: Vec<u32>)
    requires
        old(weights)@.len() <= 65536,
    ensures
        r@ == spec_cumulative_ends(old(weights)@),
        final(weights)@ == old(weights)@,
{
    let mut ends: Vec<u32> = Vec::with_capacity(weights.len());
    let mut acc: u32 = 0;
    let mut i: usize = 0;
    while i < weights.len()
        invariant
            i <= weights@.len(),
            weights@.len() <= 65536,
            weights@ == old(weights)@,
            ends@ == spec_cumulative_ends(weights@.take(i as int)),
            acc == if i == 0 { 0u32 } else { ends@.last() },
            acc <= i * 65535,
        decreases weights@.len() - i,
    {
        proof {
            assert(weights@.take(i + 1).drop_last() == weights@.take(i as int));
        }
        acc = acc + weights[i] as u32;
        ends.push(acc);
        i = i + 1;
    }
    proof {
        assert(weights@.take(weights@.len() as int) == weights@);
    }
    ends
}

/// Deterministic weighted choice of a journey: a stable key is hashed into a
/// bucket below `total_weight`, and the bucket selects the journey whose
/// cumulative-weight interval contains it.
#[derive(Debug, Clone)]
pub struct WeightSampler {
    pub seed: String,
    pub total_weight: u32,
    pub journey_ids: Vec<i32>,
    pub cumulative_ends: Vec<u32>,
}

/// Well-formedness of a sampler: one cumulative end per journey, strictly
/// increasing, the last one equal to the total weight.
pub open spec fn sampler_wf(s: WeightSampler) -> bool {
    &&& s.journey_ids@.len() == s.cumulative_ends@.len()
    &&& forall|i: int, j: int|
        0 <= i < j < s.cumulative_ends@.len() ==> s.cumulative_ends@.index(i)
            < s.cumulative_ends@.index(j)
    &&& s.cumulative_ends@.len() > 0 ==> s.cumulative_ends@.last() == s.total_weight
    &&& s.cumulative_ends@.len() == 0 ==> s.total_weight == 0
}

/// The position of the first cumulative end above `bucket`; the list's
/// length when there is none.
pub open spec fn first_end_above(ends: Seq<u32>, bucket: u32) -> int
    decreases ends.len(),
{
    if ends.len() == 0 {
        0
    } else if ends.first() > bucket {
        0
    } else {
        1 + first_end_above(ends.drop_first(), bucket)
    }
}

proof fn lemma_first_end_above_props(ends: Seq<u32>, bucket: u32)
    ensures
        0 <= first_end_above(ends, bucket) <= ends.len(),
        forall|j: int| 0 <= j < first_end_above(ends, bucket) ==> ends.index(j) <= bucket,
        first_end_above(ends, bucket) < ends.len() ==> ends.index(
            first_end_above(ends, bucket),
        ) > bucket,
    decreases ends.len(),
{
    if ends.len() == 0 {
    } else if ends.first() > bucket {
    } else {
        lemma_first_end_above_props(ends.drop_first(), bucket);
        assert forall|j: int| 0 <= j < first_end_above(ends, bucket) implies ends.index(j)
            <= bucket by {
            if j > 0 {
                assert(ends.drop_first().index(j - 1) == ends.index(j));
            }
        }
    }
}

proof fn lemma_first_end_above_unique(ends: Seq<u32>, bucket: u32, i: int)
    requires
        0 <= i <= ends.len(),
        forall|j: int| 0 <= j < i ==> ends.index(j) <= bucket,
        i < ends.len() ==> ends.index(i) > bucket,
    ensures
        i == first_end_above(ends, bucket),
{
    lemma_first_end_above_props(ends, bucket);
    let f = first_end_above(ends, bucket);
    if i < f {
        assert(ends.index(i) <= bucket);
    } else if f < i {
        assert(ends.index(f) <= bucket);
    }
}

/// What `peek_bucket` returns: the journey at the first cumulative end above
/// the bucket; absent when the sampler is empty or every end is below.
pub open spec fn spec_peek_bucket(s: WeightSampler, bucket: u32) -> Option<i32> {
    if s.total_weight == 0 || s.journey_ids@.len() == 0 {
        None
    } else {
        let i = first_end_above(s.cumulative_ends@, bucket);
        if i < s.journey_ids@.len() {
            Some(s.journey_ids@.index(i))
        } else {
            None
        }
    }
}

/// The bytes hashed for a stable key: the key, the text `:seed=`, then the
/// seed.
pub open spec fn sampler_key_bytes(stable_key_bytes: Seq<u8>, seed: Seq<char>) -> Seq<u8> {
    stable_key_bytes + seq![58u8, 115u8, 101u8, 101u8, 100u8, 61u8] + encode_utf8(seed)
}

/// The bucket a byte key falls into: the first eight digest bytes, read
/// big-endian, reduced modulo the total weight.
pub open spec fn spec_bucket_of(key_bytes: Seq<u8>, total_weight: u32) -> u32
    recommends
        total_weight > 0,
{
    (be_u64_of(sha256_of(key_bytes)) % total_weight as nat) as u32
}

/// What `peek` returns for a stable key with the given byte encoding, under
/// an explicit seed.
pub open spec fn spec_peek_with_seed(
    s: WeightSampler,
    seed: Seq<char>,
    stable_key_bytes: Seq<u8>,
) -> Option<i32> {
    if s.total_weight == 0 {
        None
    } else {
        spec_peek_bucket(
            s,
            spec_bucket_of(sampler_key_bytes(stable_key_bytes, seed), s.total_weight),
        )
    }
}

/// What `peek` returns for a stable key with the given byte encoding.
pub open spec fn spec_peek(s: WeightSampler, stable_key_bytes: Seq<u8>) -> Option<i32> {
    spec_peek_with_seed(s, s.seed@, stable_key_bytes)
}

impl WeightSampler {
    /// A sampler over the scenario's journeys, in order, under the given
    /// seed. Journey `i` gets the cumulative interval ending at the sum of
    /// the first `i + 1` weights.
    pub fn new(scenario: Scenario, seed: String) -> (r: WeightSampler)
        requires
            scenario.journeys@.len() <= 65536,
        ensures
            r.seed == seed,
            r.journey_ids@.len() == scenario.journeys@.len(),
            forall|i: int|
                0 <= i < scenario.journeys@.len() ==> r.journey_ids@.index(i) == i as i32,
            r.cumulative_ends@ == spec_cumulative_ends(
                scenario.journeys@.map_values(|j: crate::schema::Journey| j.weight),
            ),
            r.total_weight as int == if scenario.journeys@.len() == 0 {
                0int
            } else {
                r.cumulative_ends@.last() as int
            },
    {
        let mut r = Self::from_scenario(&scenario);
        r.seed = seed;
        r
    }

    /// A sampler over the scenario's journeys with an empty seed; the run
    /// engine overwrites the seed before use.
    pub fn from_scenario(scenario: &Scenario) -> (r: WeightSampler)
        requires
            scenario.journeys@.len() <= 65536,
        ensures
            r.seed@ == Seq::<char>::empty(),
            r.journey_ids@.len() == scenario.journeys@.len(),
            forall|i: int|
                0 <= i < scenario.journeys@.len() ==> r.journey_ids@.index(i) == i as i32,
            r.cumulative_ends@ == spec_cumulative_ends(
                scenario.journeys@.map_values(|j: crate::schema::Journey| j.weight),
            ),
            r.total_weight as int == if scenario.journeys@.len() == 0 {
                0int
            } else {
                r.cumulative_ends@.last() as int
            },
    {
        let n = scenario.journeys.len();
        let mut journey_ids: Vec<i32> = Vec::with_capacity(n);
        let mut weights: Vec<u16> = Vec::with_capacity(n);
        let mut i: usize = 0;
        while i < n
            invariant
                i <= n,
                n == scenario.journeys@.len(),
                n <= 65536,
                journey_ids@.len() == i,
                weights@.len() == i,
                forall|k: int| 0 <= k < i ==> journey_ids@.index(k) == k as i32,
                weights@ == scenario.journeys@.take(i as int).map_values(
                    |j: crate::schema::Journey| j.weight,
                ),
            decreases n - i,
        {
            journey_ids.push(i as i32);
            weights.push(scenario.journeys[i].weight);
            proof {
                assert(scenario.journeys@.take(i + 1).map_values(
                    |j: crate::schema::Journey| j.weight,
                ) =~= scenario.journeys@.take(i as int).map_values(
                    |j: crate::schema::Journey| j.weight,
                ).push(scenario.journeys@.index(i as int).weight));
            }
            i = i + 1;
        }
        proof {
            assert(scenario.journeys@.take(n as int) == scenario.journeys@);
        }
        let cumulative_ends = calculate_cumulative_ends(weights.as_mut_slice());
        let total_weight: u32 = if cumulative_ends.len() == 0 {
            0
        } else {
            cumulative_ends[cumulative_ends.len() - 1]
        };
        WeightSampler { seed: String::new(), total_weight, journey_ids, cumulative_ends }
    }

    /// The journey whose cumulative interval contains `bucket`: the entry at
    /// the first cumulative end above it. Absent when the sampler is empty
    /// or `bucket` lies at or above every end.
    pub fn peek_bucket(&self, bucket: u32) -> (r: Option<i32>)
        requires
            sampler_wf(*self),
        ensures
            r == spec_peek_bucket(*self, bucket),
    {
        if self.total_weight == 0 || self.journey_ids.len() == 0 {
            return None;
        }
        let ghost ends = self.cumulative_ends@;
        let mut lo: usize = 0;
        let mut hi: usize = self.cumulative_ends.len();
        while lo < hi
            invariant
                0 <= lo <= hi <= ends.len(),
                ends == self.cumulative_ends@,
                forall|j: int| 0 <= j < lo ==> ends.index(j) <= bucket,
                forall|j: int| hi <= j < ends.len() ==> ends.index(j) > bucket,
                sampler_wf(*self),
            decreases hi - lo,
        {
            let mid = lo + (hi - lo) / 2;
            if self.cumulative_ends[mid] > bucket {
                proof {
                    assert forall|j: int| mid <= j < ends.len() implies ends.index(j)
                        > bucket by {
                        if j > mid {
                            assert(ends.index(mid as int) < ends.index(j));
                        }
                    }
                }
                hi = mid;
            } else {
                proof {
                    assert forall|j: int| 0 <= j < mid + 1 implies ends.index(j) <= bucket by {
                        if j < mid {
                            assert(ends.index(j) < ends.index(mid as int));
                        }
                    }
                }
                lo = mid + 1;
            }
        }
        proof {
            lemma_first_end_above_unique(ends, bucket, lo as int);
        }
        if lo < self.journey_ids.len() {
            Some(self.journey_ids[lo])
        } else {
            None
        }
    }

    /// The journey selected by a stable key given as raw bytes: the key is
    /// extended with `:seed=` and the seed, hashed with SHA-256, and the
    /// first eight digest bytes pick the bucket. Absent only when the total
    /// weight is zero.
    pub fn peek_bytes(&self, stable_key_bytes: &[u8]) -> (r: Option<i32>)
        requires
            sampler_wf(*self),
        ensures
            r == spec_peek(*self, stable_key_bytes@),
    {
        if self.total_weight == 0 {
            return None;
        }
        let mut key: Vec<u8> = Vec::new();
        let mut i: usize = 0;
        while i < stable_key_bytes.len()
            invariant
                i <= stable_key_bytes@.len(),
                key@ == stable_key_bytes@.take(i as int),
            decreases stable_key_bytes@.len() - i,
        {
            let b = stable_key_bytes[i];
            key.push(b);
            proof {
                assert(stable_key_bytes@.take(i + 1) =~= stable_key_bytes@.take(i as int).push(
                    stable_key_bytes@.index(i as int),
                ));
            }
            i = i + 1;
        }
        proof {
            assert(stable_key_bytes@.take(stable_key_bytes@.len() as int) == stable_key_bytes@);
        }
        key.push(58);  // ':'
        key.push(115);  // 's'
        key.push(101);  // 'e'
        key.push(101);  // 'e'
        key.push(100);  // 'd'
        key.push(61);  // '='
        let seed_bytes = self.seed.as_str().as_bytes_vec();
        let mut k: usize = 0;
        let ghost mid = key@;
        while k < seed_bytes.len()
            invariant
                k <= seed_bytes@.len(),
                key@ == mid + seed_bytes@.take(k as int),
            decreases seed_bytes@.len() - k,
        {
            let b = seed_bytes[k];
            key.push(b);
            proof {
                assert(mid + seed_bytes@.take(k + 1) =~= (mid + seed_bytes@.take(k as int)).push(
                    seed_bytes@.index(k as int),
                ));
            }
            k = k + 1;
        }
        proof {
            assert(seed_bytes@.take(seed_bytes@.len() as int) == seed_bytes@);
            assert(key@ =~= sampler_key_bytes(stable_key_bytes@, self.seed@));
        }
        let digest = sha256(key.as_slice());
        let n = be_u64_first8(&digest);
        let bucket = (n % self.total_weight as u64) as u32;
        self.peek_bucket(bucket)
    }

    /// The journey selected by a stable key given as text; the key's UTF-8
    /// bytes decide, as in `peek_bytes`.
    pub fn peek(&self, stable_key: &str) -> (r: Option<i32>)
        requires
            sampler_wf(*self),
        ensures
            r == spec_peek(*self, stable_key.spec_bytes()),
    {
        let key_bytes = stable_key.as_bytes_vec();
        self.peek_bytes(key_bytes.as_slice())
    }
}

/// A present peek result is always one of the sampler's journey ids,
/// whatever the seed.
pub proof fn lemma_peek_in_range_with_seed(s: WeightSampler, seed: Seq<char>, key_bytes: Seq<u8>)
    requires
        sampler_wf(s),
    ensures
        match spec_peek_with_seed(s, seed, key_bytes) {
            Some(id) => exists|i: int|
                0 <= i < s.journey_ids@.len() && #[trigger] s.journey_ids@.index(i) == id,
            None => true,
        },
{
    if s.total_weight != 0 {
        let bucket = spec_bucket_of(sampler_key_bytes(key_bytes, seed), s.total_weight);
        lemma_first_end_above_props(s.cumulative_ends@, bucket);
        if spec_peek_with_seed(s, seed, key_bytes) is Some {
            let i = first_end_above(s.cumulative_ends@, bucket);
            assert(s.journey_ids@.index(i) == s.journey_ids@.index(i));
        }
    }
}

/// A present peek result is always one of the sampler's journey ids.
pub proof fn lemma_peek_in_range(s: WeightSampler, key_bytes: Seq<u8>)
    requires
        sampler_wf(s),
    ensures
        match spec_peek(s, key_bytes) {
            Some(id) => exists|i: int|
                0 <= i < s.journey_ids@.len() && #[trigger] s.journey_ids@.index(i) == id,
            None => true,
        },
{
    lemma_peek_in_range_with_seed(s, s.seed@, key_bytes);
}

/// With a positive total weight, every key selects some journey.
pub proof fn lemma_peek_some(s: WeightSampler, key_bytes: Seq<u8>)
    requires
        sampler_wf(s),
        s.total_weight > 0,
    ensures
        spec_peek(s, key_bytes) is Some,
{
    let bucket = spec_bucket_of(sampler_key_bytes(key_bytes, s.seed@), s.total_weight);
    assert(bucket < s.total_weight) by {
        assert(be_u64_of(sha256_of(sampler_key_bytes(key_bytes, s.seed@))) % (
        s.total_weight as nat) < s.total_weight as nat);
    }
    lemma_first_end_above_props(s.cumulative_ends@, bucket);
    assert(s.cumulative_ends@.len() > 0);
    if first_end_above(s.cumulative_ends@, bucket) == s.cumulative_ends@.len() {
        assert(s.cumulative_ends@.index(s.cumulative_ends@.len() - 1) <= bucket);
    }
}

/// Sampler stability: what `peek` returns is a function of the key bytes,
/// the seed, and the weight tables alone — two well-formed samplers that
/// agree on those agree on every key.
pub proof fn lemma_peek_stable(a: WeightSampler, b: WeightSampler, stable_key_bytes: Seq<u8>)
    requires
        a.seed@ == b.seed@,
        a.total_weight == b.total_weight,
        a.journey_ids@ == b.journey_ids@,
        a.cumulative_ends@ == b.cumulative_ends@,
    ensures
        spec_peek(a, stable_key_bytes) == spec_peek(b, stable_key_bytes),
{
}

} // verus!
