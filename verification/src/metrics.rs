use vstd::prelude::*;
use vstd::multiset::Multiset;
use crate::executor::ResponseResult;
use crate::histogram::{hist_high, hist_new, hist_record, hist_values, LatencyHistogram};
use crate::text::str_eq;

verus! {

/// The microsecond ceiling of every latency histogram: sixty seconds.
pub const HIGHEST_US: u64 = 60_000_000;

/// The lowest discernible microsecond value of every latency histogram.
pub const LOWEST_US: u64 = 1;

/// The precision of every latency histogram, in significant figures.
pub const SIGFIG: u8 = 3;

/// The ceiling on the request count the aggregator accepts; keeps every
/// rate computation within `u64`.
pub const MAX_REQUESTS: u64 = 0x10_0000_0000_0000;

/// Request tallies: every request is either ok or an error.
#[derive(Debug, Clone, Copy, PartialEq, Eq, Structural)]
pub struct Requests {
    pub total: u64,
    pub ok: u64,
    pub error: u64,
}

/// A latency digest in milliseconds; the unverified report printer fills it
/// from a histogram.
#[derive(Debug, Clone, Copy, PartialEq, Eq, Structural)]
pub struct LatencySummary {
    pub count: u64,
    pub min: u64,
    pub max: u64,
    pub mean: u64,
    pub p50: u64,
    pub p90: u64,
    pub p95: u64,
    pub p99: u64,
}

impl Default for LatencySummary {
    /// An all-zero digest.
    fn default() -> (r: LatencySummary)
        ensures
            r == (LatencySummary {
                count: 0u64,
                min: 0u64,
                max: 0u64,
                mean: 0u64,
                p50: 0u64,
                p90: 0u64,
                p95: 0u64,
                p99: 0u64,
            }),
    {
        LatencySummary { count: 0, min: 0, max: 0, mean: 0, p50: 0, p90: 0, p95: 0, p99: 0 }
    }
}

/// Per-endpoint tallies and timing window.
#[derive(Debug, Clone, Copy, PartialEq, Eq, Structural)]
pub struct EndpointStats {
    pub request: Requests,
    pub latency_summary: LatencySummary,
    pub achieved_rps: u64,
    pub first_at_ms: u64,
    pub last_at_ms: u64,
    pub count: u64,
}

/// Per-stage tallies and achieved rate.
#[derive(Debug, Clone, Copy, PartialEq, Eq, Structural)]
pub struct ByStage {
    pub stage_index: u64,
    pub achieved_rps: u64,
    pub request_count: u64,
    pub stage_started_ms: u64,
    pub stage_duration_ms: u64,
}

/// A latency clamped into the histogram range.
pub open spec fn clamp_us(v: u64) -> u64 {
    if v > HIGHEST_US {
        HIGHEST_US
    } else {
        v
    }
}

/// A histogram as the aggregator keeps it: bounded at sixty seconds, with
/// every recorded sample within that bound.
pub open spec fn hist_wf(h: LatencyHistogram) -> bool {
    &&& hist_high(h) == HIGHEST_US
    &&& forall|v: u64| hist_values(h).count(v) > 0 ==> v <= HIGHEST_US
}

/// The position of `key` in an association list's keys; the length when
/// absent.
pub open spec fn key_pos(keys: Seq<Seq<char>>, key: Seq<char>) -> int
    decreases keys.len(),
{
    if keys.len() == 0 {
        0
    } else if keys.first() == key {
        0
    } else {
        1 + key_pos(keys.drop_first(), key)
    }
}

/// The keys of an association list.
pub open spec fn entry_keys<V>(entries: Seq<(String, V)>) -> Seq<Seq<char>> {
    entries.map_values(|p: (String, V)| p.0@)
}

pub proof fn lemma_key_pos_props(keys: Seq<Seq<char>>, key: Seq<char>)
    ensures
        0 <= key_pos(keys, key) <= keys.len(),
        key_pos(keys, key) < keys.len() ==> keys.index(key_pos(keys, key)) == key,
        forall|j: int| 0 <= j < key_pos(keys, key) ==> keys.index(j) != key,
    decreases keys.len(),
{
    if keys.len() > 0 && keys.first() != key {
        lemma_key_pos_props(keys.drop_first(), key);
        assert forall|j: int| 0 <= j < key_pos(keys, key) implies keys.index(j) != key by {
            if j > 0 {
                assert(keys.drop_first().index(j - 1) == keys.index(j));
            }
        }
    }
}

pub proof fn lemma_key_pos_unique(keys: Seq<Seq<char>>, key: Seq<char>, i: int)
    requires
        0 <= i <= keys.len(),
        forall|j: int| 0 <= j < i ==> keys.index(j) != key,
        i < keys.len() ==> keys.index(i) == key,
    ensures
        i == key_pos(keys, key),
{
    lemma_key_pos_props(keys, key);
    let p = key_pos(keys, key);
    if i < p {
        assert(keys.index(i) != key);
    } else if p < i {
        assert(keys.index(p) != key);
    }
}

/// The position of a stage index in a stage list; the length when absent.
pub open spec fn stage_pos<V>(entries: Seq<(u64, V)>, key: u64) -> int
    decreases entries.len(),
{
    if entries.len() == 0 {
        0
    } else if entries.first().0 == key {
        0
    } else {
        1 + stage_pos(entries.drop_first(), key)
    }
}

pub proof fn lemma_stage_pos_props<V>(entries: Seq<(u64, V)>, key: u64)
    ensures
        0 <= stage_pos(entries, key) <= entries.len(),
        stage_pos(entries, key) < entries.len() ==> entries.index(stage_pos(entries, key)).0
            == key,
        forall|j: int| 0 <= j < stage_pos(entries, key) ==> entries.index(j).0 != key,
    decreases entries.len(),
{
    if entries.len() > 0 && entries.first().0 != key {
        lemma_stage_pos_props(entries.drop_first(), key);
        assert forall|j: int| 0 <= j < stage_pos(entries, key) implies entries.index(j).0
            != key by {
            if j > 0 {
                assert(entries.drop_first().index(j - 1) == entries.index(j));
            }
        }
    }
}

pub proof fn lemma_stage_pos_unique<V>(entries: Seq<(u64, V)>, key: u64, i: int)
    requires
        0 <= i <= entries.len(),
        forall|j: int| 0 <= j < i ==> entries.index(j).0 != key,
        i < entries.len() ==> entries.index(i).0 == key,
    ensures
        i == stage_pos(entries, key),
{
    lemma_stage_pos_props(entries, key);
    let p = stage_pos(entries, key);
    if i < p {
        assert(entries.index(i).0 != key);
    } else if p < i {
        assert(entries.index(p).0 != key);
    }
}

/// The requests counted over all endpoints.
pub open spec fn sum_endpoint_totals(entries: Seq<(String, EndpointStats)>) -> int
    decreases entries.len(),
{
    if entries.len() == 0 {
        0
    } else {
        sum_endpoint_totals(entries.drop_last()) + entries.last().1.request.total
    }
}

proof fn lemma_sum_push(entries: Seq<(String, EndpointStats)>, e: (String, EndpointStats))
    ensures
        sum_endpoint_totals(entries.push(e)) == sum_endpoint_totals(entries) + e.1.request.total,
{
    assert(entries.push(e).drop_last() =~= entries);
}

proof fn lemma_sum_update(
    entries: Seq<(String, EndpointStats)>,
    k: int,
    e: (String, EndpointStats),
)
    requires
        0 <= k < entries.len(),
    ensures
        sum_endpoint_totals(entries.update(k, e)) == sum_endpoint_totals(entries) - entries.index(
            k,
        ).1.request.total + e.1.request.total,
    decreases entries.len(),
{
    if k == entries.len() - 1 {
        assert(entries.update(k, e).drop_last() =~= entries.drop_last());
        assert(entries.update(k, e).last() == e);
    } else {
        lemma_sum_update(entries.drop_last(), k, e);
        assert(entries.update(k, e).drop_last() =~= entries.drop_last().update(k, e));
        assert(entries.update(k, e).last() == entries.last());
    }
}

/// The rounded rate `total / window × 1000`, with rounding half up.
pub open spec fn spec_rps(total: int, window: int) -> int
    recommends
        window >= 1,
{
    (2000 * total + window) / (2 * window)
}

/// An endpoint record after one more fold at `now_ms`.
pub open spec fn updated_endpoint(e: EndpointStats, ok: bool, now_ms: u64) -> EndpointStats {
    let window: int = if now_ms > e.first_at_ms {
        now_ms - e.first_at_ms
    } else {
        1
    };
    EndpointStats {
        request: Requests {
            total: (e.request.total + 1) as u64,
            ok: if ok {
                (e.request.ok + 1) as u64
            } else {
                e.request.ok
            },
            error: if ok {
                e.request.error
            } else {
                (e.request.error + 1) as u64
            },
        },
        latency_summary: e.latency_summary,
        achieved_rps: spec_rps(e.request.total + 1, window) as u64,
        first_at_ms: e.first_at_ms,
        last_at_ms: now_ms,
        count: (e.count + 1) as u64,
    }
}

/// The endpoint record of a first fold at `now_ms`.
pub open spec fn new_endpoint(ok: bool, now_ms: u64) -> EndpointStats {
    EndpointStats {
        request: Requests {
            total: 1u64,
            ok: if ok {
                1u64
            } else {
                0u64
            },
            error: if ok {
                0u64
            } else {
                1u64
            },
        },
        latency_summary: LatencySummary {
            count: 0u64,
            min: 0u64,
            max: 0u64,
            mean: 0u64,
            p50: 0u64,
            p90: 0u64,
            p95: 0u64,
            p99: 0u64,
        },
        achieved_rps: spec_rps(1, 1) as u64,
        first_at_ms: now_ms,
        last_at_ms: now_ms,
        count: 1u64,
    }
}

/// A stage record after one more fold at `now_ms`.
pub open spec fn updated_stage(b: ByStage, now_ms: u64) -> ByStage {
    let count: int = b.request_count + 1;
    let dur: int = if now_ms >= b.stage_started_ms {
        now_ms - b.stage_started_ms
    } else {
        0
    };
    ByStage {
        stage_index: b.stage_index,
        achieved_rps: (if dur == 0 {
            count * 1000
        } else {
            count * 1000 / dur
        }) as u64,
        request_count: count as u64,
        stage_started_ms: b.stage_started_ms,
        stage_duration_ms: dur as u64,
    }
}

/// The stage record of a first fold.
pub open spec fn new_stage(stage_index: u64, stage_start_ms: u64) -> ByStage {
    ByStage {
        stage_index,
        achieved_rps: 0u64,
        request_count: 1u64,
        stage_started_ms: stage_start_ms,
        stage_duration_ms: 0u64,
    }
}


fn find_endpoint_pos(entries: &Vec<(String, EndpointStats)>, key: &String) -> (r: usize)
    ensures
        r as int == key_pos(entry_keys(entries@), key@),
{
    let mut i: usize = 0;
    while i < entries.len()
        invariant
            i <= entries@.len(),
            forall|j: int| 0 <= j < i ==> entries@.index(j).0@ != key@,
        decreases entries@.len() - i,
    {
        if str_eq(entries[i].0.as_str(), key.as_str()) {
            proof {
                assert forall|j: int| 0 <= j < i implies #[trigger] entry_keys(entries@).index(j)
                    != key@ by {
                    assert(entries@.index(j).0@ != key@);
                }
                lemma_key_pos_unique(entry_keys(entries@), key@, i as int);
            }
            return i;
        }
        i = i + 1;
    }
    proof {
        assert forall|j: int| 0 <= j < i implies #[trigger] entry_keys(entries@).index(j)
            != key@ by {
            assert(entries@.index(j).0@ != key@);
        }
        lemma_key_pos_unique(entry_keys(entries@), key@, i as int);
    }
    i
}

fn find_journey_pos(entries: &Vec<(String, (usize, u64))>, key: &String) -> (r: usize)
    ensures
        r as int == key_pos(entries@.map_values(|p: (String, (usize, u64))| p.0@), key@),
{
    let ghost jkeys = entries@.map_values(|p: (String, (usize, u64))| p.0@);
    let mut i: usize = 0;
    while i < entries.len()
        invariant
            i <= entries@.len(),
            jkeys == entries@.map_values(|p: (String, (usize, u64))| p.0@),
            forall|j: int| 0 <= j < i ==> entries@.index(j).0@ != key@,
        decreases entries@.len() - i,
    {
        if str_eq(entries[i].0.as_str(), key.as_str()) {
            proof {
                assert forall|j: int| 0 <= j < i implies #[trigger] jkeys.index(j) != key@ by {
                    assert(entries@.index(j).0@ != key@);
                }
                lemma_key_pos_unique(jkeys, key@, i as int);
            }
            return i;
        }
        i = i + 1;
    }
    proof {
        assert forall|j: int| 0 <= j < i implies #[trigger] jkeys.index(j) != key@ by {
            assert(entries@.index(j).0@ != key@);
        }
        lemma_key_pos_unique(jkeys, key@, i as int);
    }
    i
}

fn find_stage_pos(entries: &Vec<(u64, ByStage)>, key: u64) -> (r: usize)
    ensures
        r as int == stage_pos(entries@, key),
{
    let mut i: usize = 0;
    while i < entries.len()
        invariant
            i <= entries@.len(),
            forall|j: int| 0 <= j < i ==> entries@.index(j).0 != key,
        decreases entries@.len() - i,
    {
        if entries[i].0 == key {
            proof {
                lemma_stage_pos_unique(entries@, key, i as int);
            }
            return i;
        }
        i = i + 1;
    }
    proof {
        lemma_stage_pos_unique(entries@, key, i as int);
    }
    i
}

/// The single-owner fold of completed responses: overall, per-endpoint,
/// per-stage and per-journey tallies, and the matching latency histograms.
pub struct MetricsAggregator {
    pub total_requests: u64,
    pub ok_requests: u64,
    pub error_requests: u64,
    pub overall_latency: LatencyHistogram,
    pub latency_by_stage: Vec<(u64, LatencyHistogram)>,
    pub latency_by_endpoint: Vec<(String, LatencyHistogram)>,
    pub latency: Vec<u64>,
    pub latency_min: u64,
    pub latency_max: u64,
    pub latency_sum: u64,
    pub by_endpoint: Vec<(String, EndpointStats)>,
    pub by_journey: Vec<(String, (usize, u64))>,
    pub by_stage: Vec<(u64, ByStage)>,
}

/// Well-formedness of the aggregator. It carries the report's consistency:
/// the total is ok plus error, endpoint totals sum to the overall total, and
/// every histogram holds only values within its sixty-second range.
pub open spec fn metrics_wf(m: MetricsAggregator) -> bool {
    &&& m.total_requests == m.ok_requests + m.error_requests
    &&& m.total_requests <= MAX_REQUESTS
    &&& sum_endpoint_totals(m.by_endpoint@) == m.total_requests
    &&& forall|i: int, j: int|
        0 <= i < j < m.by_endpoint@.len() ==> m.by_endpoint@.index(i).0@ != m.by_endpoint@.index(
            j,
        ).0@
    &&& forall|i: int|
        0 <= i < m.by_endpoint@.len() ==> {
            let e = #[trigger] m.by_endpoint@.index(i).1;
            &&& e.request.total == e.request.ok + e.request.error
            &&& e.request.total <= m.total_requests
            &&& e.count == e.request.total
            &&& e.request.total >= 1
        }
    &&& hist_wf(m.overall_latency)
    &&& m.latency_by_endpoint@.len() == m.by_endpoint@.len()
    &&& forall|i: int|
        0 <= i < m.by_endpoint@.len() ==> #[trigger] m.latency_by_endpoint@.index(i).0@
            == m.by_endpoint@.index(i).0@
    &&& forall|i: int|
        0 <= i < m.latency_by_endpoint@.len() ==> hist_wf(
            #[trigger] m.latency_by_endpoint@.index(i).1,
        )
    &&& forall|i: int, j: int|
        0 <= i < j < m.by_stage@.len() ==> m.by_stage@.index(i).0 != m.by_stage@.index(j).0
    &&& forall|i: int|
        0 <= i < m.by_stage@.len() ==> {
            let b = #[trigger] m.by_stage@.index(i).1;
            &&& b.request_count <= m.total_requests
            &&& b.request_count >= 1
            &&& b.stage_index == m.by_stage@.index(i).0
        }
    &&& m.latency_by_stage@.len() == m.by_stage@.len()
    &&& forall|i: int|
        0 <= i < m.by_stage@.len() ==> #[trigger] m.latency_by_stage@.index(i).0
            == m.by_stage@.index(i).0
    &&& forall|i: int|
        0 <= i < m.latency_by_stage@.len() ==> hist_wf(#[trigger] m.latency_by_stage@.index(i).1)
    &&& forall|i: int, j: int|
        0 <= i < j < m.by_journey@.len() ==> m.by_journey@.index(i).0@ != m.by_journey@.index(
            j,
        ).0@
    &&& forall|i: int|
        0 <= i < m.by_journey@.len() ==> (#[trigger] m.by_journey@.index(i).1).1
            <= m.total_requests
}

impl MetricsAggregator {
    /// An empty aggregator: no requests, the minimum tracker at the top, and
    /// an empty overall histogram.
    pub fn new() -> (r: MetricsAggregator)
        ensures
            metrics_wf(r),
            r.total_requests == 0,
            r.ok_requests == 0,
            r.error_requests == 0,
            r.by_endpoint@.len() == 0,
            r.by_journey@.len() == 0,
            r.by_stage@.len() == 0,
            r.latency_by_endpoint@.len() == 0,
            r.latency_by_stage@.len() == 0,
            r.latency@.len() == 0,
            r.latency_min == u64::MAX,
            r.latency_max == 0,
            r.latency_sum == 0,
            hist_values(r.overall_latency) == Multiset::<u64>::empty(),
    {
        MetricsAggregator {
            total_requests: 0,
            ok_requests: 0,
            error_requests: 0,
            overall_latency: hist_new(LOWEST_US, HIGHEST_US, SIGFIG),
            latency_by_stage: Vec::new(),
            latency_by_endpoint: Vec::new(),
            latency: Vec::new(),
            latency_min: u64::MAX,
            latency_max: 0,
            latency_sum: 0,
            by_endpoint: Vec::new(),
            by_journey: Vec::new(),
            by_stage: Vec::new(),
        }
    }

    /// Records one latency into the overall histogram, clamped into range.
    pub fn record_overall_latency(&mut self, latency_us: u64)
        requires
            hist_wf(old(self).overall_latency),
        ensures
            hist_values(final(self).overall_latency) == hist_values(
                old(self).overall_latency,
            ).insert(clamp_us(latency_us)),
            hist_wf(final(self).overall_latency),
            *final(self) == (MetricsAggregator {
                overall_latency: final(self).overall_latency,
                ..*old(self)
            }),
    {
        let v = if latency_us > HIGHEST_US {
            HIGHEST_US
        } else {
            latency_us
        };
        hist_record(&mut self.overall_latency, v);
        proof {
            assert forall|x: u64|
                hist_values(self.overall_latency).count(x) > 0 implies x <= HIGHEST_US by {
                if x != v {
                    assert(hist_values(old(self).overall_latency).count(x) > 0);
                }
            }
        }
    }

    /// Updates the per-endpoint record and histogram under `key`, or opens
    /// them on first sight. Nothing else changes.
    fn touch_endpoint(&mut self, key: &String, ok: bool, now_ms: u64, clamped: u64)
        requires
            clamped <= HIGHEST_US,
            1 <= old(self).total_requests <= MAX_REQUESTS,
            forall|i: int, j: int|
                0 <= i < j < old(self).by_endpoint@.len() ==> old(self).by_endpoint@.index(i).0@
                    != old(self).by_endpoint@.index(j).0@,
            forall|i: int|
                0 <= i < old(self).by_endpoint@.len() ==> {
                    let e = (#[trigger] old(self).by_endpoint@.index(i)).1;
                    &&& e.request.total == e.request.ok + e.request.error
                    &&& e.request.total <= old(self).total_requests - 1
                    &&& e.count == e.request.total
                    &&& e.request.total >= 1
                },
            sum_endpoint_totals(old(self).by_endpoint@) == old(self).total_requests - 1,
            old(self).latency_by_endpoint@.len() == old(self).by_endpoint@.len(),
            forall|i: int|
                0 <= i < old(self).by_endpoint@.len() ==> #[trigger] old(self).latency_by_endpoint@.index(i).0@ == old(self).by_endpoint@.index(i).0@,
            forall|i: int|
                0 <= i < old(self).latency_by_endpoint@.len() ==> hist_wf(
                    #[trigger] old(self).latency_by_endpoint@.index(i).1,
                ),
        ensures
            *final(self) == (MetricsAggregator {
                by_endpoint: final(self).by_endpoint,
                latency_by_endpoint: final(self).latency_by_endpoint,
                ..*old(self)
            }),
            sum_endpoint_totals(final(self).by_endpoint@) == old(self).total_requests,
            forall|i: int, j: int|
                0 <= i < j < final(self).by_endpoint@.len() ==> final(self).by_endpoint@.index(
                    i,
                ).0@ != final(self).by_endpoint@.index(j).0@,
            forall|i: int|
                0 <= i < final(self).by_endpoint@.len() ==> {
                    let e = (#[trigger] final(self).by_endpoint@.index(i)).1;
                    &&& e.request.total == e.request.ok + e.request.error
                    &&& e.request.total <= old(self).total_requests
                    &&& e.count == e.request.total
                    &&& e.request.total >= 1
                },
            final(self).latency_by_endpoint@.len() == final(self).by_endpoint@.len(),
            forall|i: int|
                0 <= i < final(self).by_endpoint@.len() ==> #[trigger] final(self).latency_by_endpoint@.index(i).0@ == final(self).by_endpoint@.index(i).0@,
            forall|i: int|
                0 <= i < final(self).latency_by_endpoint@.len() ==> hist_wf(
                    #[trigger] final(self).latency_by_endpoint@.index(i).1,
                ),
            ({
                let k = key_pos(entry_keys(old(self).by_endpoint@), key@);
                if k < old(self).by_endpoint@.len() {
                    &&& final(self).by_endpoint@.len() == old(self).by_endpoint@.len()
                    &&& final(self).by_endpoint@.index(k).0 == old(self).by_endpoint@.index(k).0
                    &&& final(self).by_endpoint@.index(k).1 == updated_endpoint(
                        old(self).by_endpoint@.index(k).1,
                        ok,
                        now_ms,
                    )
                    &&& forall|i: int|
                        0 <= i < old(self).by_endpoint@.len() && i != k ==> final(self).by_endpoint@.index(i) == old(self).by_endpoint@.index(i)
                    &&& final(self).latency_by_endpoint@.len() == old(self).latency_by_endpoint@.len()
                    &&& hist_values(final(self).latency_by_endpoint@.index(k).1) == hist_values(
                        old(self).latency_by_endpoint@.index(k).1,
                    ).insert(clamped)
                    &&& forall|i: int|
                        0 <= i < old(self).latency_by_endpoint@.len() && i != k ==> final(self).latency_by_endpoint@.index(i) == old(self).latency_by_endpoint@.index(i)
                } else {
                    &&& final(self).by_endpoint@.len() == old(self).by_endpoint@.len() + 1
                    &&& final(self).by_endpoint@.last().0@ == key@
                    &&& final(self).by_endpoint@.last().1 == new_endpoint(ok, now_ms)
                    &&& forall|i: int|
                        0 <= i < old(self).by_endpoint@.len() ==> final(self).by_endpoint@.index(
                            i,
                        ) == old(self).by_endpoint@.index(i)
                    &&& final(self).latency_by_endpoint@.len() == old(self).latency_by_endpoint@.len() + 1
                    &&& hist_values(final(self).latency_by_endpoint@.last().1) == Multiset::<
                        u64,
                    >::empty().insert(clamped)
                    &&& forall|i: int|
                        0 <= i < old(self).latency_by_endpoint@.len() ==> final(self).latency_by_endpoint@.index(i) == old(self).latency_by_endpoint@.index(i)
                }
            }),
    {
        let ghost old_endpoints = self.by_endpoint@;
        let ghost old_hists = self.latency_by_endpoint@;
        let i = find_endpoint_pos(&self.by_endpoint, key);
        proof {
            lemma_key_pos_props(entry_keys(old_endpoints), key@);
        }
        if i < self.by_endpoint.len() {
            let key_copy = self.by_endpoint[i].0.clone();
            let e = self.by_endpoint[i].1;
            let window: u64 = if now_ms > e.first_at_ms {
                now_ms - e.first_at_ms
            } else {
                1
            };
            let total = e.request.total + 1;
            let rps = rps_rounded(total, window);
            let updated = EndpointStats {
                request: Requests {
                    total,
                    ok: if ok {
                        e.request.ok + 1
                    } else {
                        e.request.ok
                    },
                    error: if ok {
                        e.request.error
                    } else {
                        e.request.error + 1
                    },
                },
                latency_summary: e.latency_summary,
                achieved_rps: rps,
                first_at_ms: e.first_at_ms,
                last_at_ms: now_ms,
                count: e.count + 1,
            };
            self.by_endpoint.set(i, (key_copy, updated));
            proof {
                lemma_sum_update(
                    old_endpoints,
                    i as int,
                    (old_endpoints.index(i as int).0, updated),
                );
                assert(self.by_endpoint@ =~= old_endpoints.update(
                    i as int,
                    (old_endpoints.index(i as int).0, updated),
                ));
            }
            let mut h = self.latency_by_endpoint.remove(i);
            hist_record(&mut h.1, clamped);
            proof {
                assert forall|x: u64| hist_values(h.1).count(x) > 0 implies x <= HIGHEST_US by {
                    if x != clamped {
                        assert(hist_values(old_hists.index(i as int).1).count(x) > 0);
                    }
                }
            }
            self.latency_by_endpoint.insert(i, h);
            proof {
                assert(self.latency_by_endpoint@ =~= old_hists.update(
                    i as int,
                    (old_hists.index(i as int).0, self.latency_by_endpoint@.index(i as int).1),
                ));
            }
        } else {
            let key_copy = key.clone();
            let fresh = EndpointStats {
                request: Requests {
                    total: 1,
                    ok: if ok {
                        1
                    } else {
                        0
                    },
                    error: if ok {
                        0
                    } else {
                        1
                    },
                },
                latency_summary: LatencySummary::default(),
                achieved_rps: rps_rounded(1, 1),
                first_at_ms: now_ms,
                last_at_ms: now_ms,
                count: 1,
            };
            self.by_endpoint.push((key_copy, fresh));
            proof {
                lemma_sum_push(old_endpoints, self.by_endpoint@.last());
            }
            let mut h = hist_new(LOWEST_US, HIGHEST_US, SIGFIG);
            hist_record(&mut h, clamped);
            let key_copy2 = key.clone();
            self.latency_by_endpoint.push((key_copy2, h));
        }
        proof {
            assert forall|a: int, b: int|
                0 <= a < b < self.by_endpoint@.len() implies self.by_endpoint@.index(a).0@
                != self.by_endpoint@.index(b).0@ by {
                if b < old_endpoints.len() {
                    assert(old_endpoints.index(a).0@ != old_endpoints.index(b).0@);
                } else {
                    assert(entry_keys(old_endpoints).index(a) == old_endpoints.index(a).0@);
                }
            }
        }
    }

    /// Updates the per-stage record and histogram under `stage_index`, or
    /// opens them on first sight. Nothing else changes.
    fn touch_stage(&mut self, stage_index: u64, stage_start_ms: u64, now_ms: u64, clamped: u64)
        requires
            clamped <= HIGHEST_US,
            1 <= old(self).total_requests <= MAX_REQUESTS,
            forall|i: int, j: int|
                0 <= i < j < old(self).by_stage@.len() ==> old(self).by_stage@.index(i).0 != old(self).by_stage@.index(j).0,
            forall|i: int|
                0 <= i < old(self).by_stage@.len() ==> {
                    let b = (#[trigger] old(self).by_stage@.index(i)).1;
                    &&& b.request_count <= old(self).total_requests - 1
                    &&& b.request_count >= 1
                    &&& b.stage_index == old(self).by_stage@.index(i).0
                },
            old(self).latency_by_stage@.len() == old(self).by_stage@.len(),
            forall|i: int|
                0 <= i < old(self).by_stage@.len() ==> #[trigger] old(self).latency_by_stage@.index(i).0 == old(self).by_stage@.index(i).0,
            forall|i: int|
                0 <= i < old(self).latency_by_stage@.len() ==> hist_wf(
                    #[trigger] old(self).latency_by_stage@.index(i).1,
                ),
        ensures
            *final(self) == (MetricsAggregator {
                by_stage: final(self).by_stage,
                latency_by_stage: final(self).latency_by_stage,
                ..*old(self)
            }),
            forall|i: int, j: int|
                0 <= i < j < final(self).by_stage@.len() ==> final(self).by_stage@.index(i).0
                    != final(self).by_stage@.index(j).0,
            forall|i: int|
                0 <= i < final(self).by_stage@.len() ==> {
                    let b = (#[trigger] final(self).by_stage@.index(i)).1;
                    &&& b.request_count <= old(self).total_requests
                    &&& b.request_count >= 1
                    &&& b.stage_index == final(self).by_stage@.index(i).0
                },
            final(self).latency_by_stage@.len() == final(self).by_stage@.len(),
            forall|i: int|
                0 <= i < final(self).by_stage@.len() ==> #[trigger] final(self).latency_by_stage@.index(i).0 == final(self).by_stage@.index(i).0,
            forall|i: int|
                0 <= i < final(self).latency_by_stage@.len() ==> hist_wf(
                    #[trigger] final(self).latency_by_stage@.index(i).1,
                ),
            ({
                let k = stage_pos(old(self).by_stage@, stage_index);
                if k < old(self).by_stage@.len() {
                    &&& final(self).by_stage@.len() == old(self).by_stage@.len()
                    &&& final(self).by_stage@.index(k).0 == old(self).by_stage@.index(k).0
                    &&& final(self).by_stage@.index(k).1 == updated_stage(
                        old(self).by_stage@.index(k).1,
                        now_ms,
                    )
                    &&& forall|i: int|
                        0 <= i < old(self).by_stage@.len() && i != k ==> final(self).by_stage@.index(i) == old(self).by_stage@.index(i)
                    &&& final(self).latency_by_stage@.len() == old(self).latency_by_stage@.len()
                    &&& hist_values(final(self).latency_by_stage@.index(k).1) == hist_values(
                        old(self).latency_by_stage@.index(k).1,
                    ).insert(clamped)
                    &&& forall|i: int|
                        0 <= i < old(self).latency_by_stage@.len() && i != k ==> final(self).latency_by_stage@.index(i) == old(self).latency_by_stage@.index(i)
                } else {
                    &&& final(self).by_stage@.len() == old(self).by_stage@.len() + 1
                    &&& final(self).by_stage@.last().0 == stage_index
                    &&& final(self).by_stage@.last().1 == new_stage(stage_index, stage_start_ms)
                    &&& forall|i: int|
                        0 <= i < old(self).by_stage@.len() ==> final(self).by_stage@.index(i)
                            == old(self).by_stage@.index(i)
                    &&& final(self).latency_by_stage@.len() == old(self).latency_by_stage@.len()
                        + 1
                    &&& hist_values(final(self).latency_by_stage@.last().1) == Multiset::<
                        u64,
                    >::empty().insert(clamped)
                    &&& forall|i: int|
                        0 <= i < old(self).latency_by_stage@.len() ==> final(self).latency_by_stage@.index(i) == old(self).latency_by_stage@.index(i)
                }
            }),
    {
        let ghost old_stages = self.by_stage@;
        let ghost old_stage_hists = self.latency_by_stage@;
        let s = find_stage_pos(&self.by_stage, stage_index);
        proof {
            lemma_stage_pos_props(old_stages, stage_index);
        }
        if s < self.by_stage.len() {
            let b = self.by_stage[s].1;
            let count = b.request_count + 1;
            let dur: u64 = if now_ms >= b.stage_started_ms {
                now_ms - b.stage_started_ms
            } else {
                0
            };
            let achieved: u64 = if dur == 0 {
                count * 1000
            } else {
                count * 1000 / dur
            };
            proof {
                if dur != 0 {
                    vstd::arithmetic::div_mod::lemma_div_is_ordered(
                        (count * 1000) as int,
                        (count * 1000) as int,
                        dur as int,
                    );
                }
            }
            let updated = ByStage {
                stage_index: b.stage_index,
                achieved_rps: achieved,
                request_count: count,
                stage_started_ms: b.stage_started_ms,
                stage_duration_ms: dur,
            };
            self.by_stage.set(s, (b.stage_index, updated));
            proof {
                assert(self.by_stage@ =~= old_stages.update(
                    s as int,
                    (old_stages.index(s as int).0, updated),
                ));
            }
            let mut h = self.latency_by_stage.remove(s);
            hist_record(&mut h.1, clamped);
            proof {
                assert forall|x: u64| hist_values(h.1).count(x) > 0 implies x <= HIGHEST_US by {
                    if x != clamped {
                        assert(hist_values(old_stage_hists.index(s as int).1).count(x) > 0);
                    }
                }
            }
            self.latency_by_stage.insert(s, h);
            proof {
                assert(self.latency_by_stage@ =~= old_stage_hists.update(
                    s as int,
                    (
                        old_stage_hists.index(s as int).0,
                        self.latency_by_stage@.index(s as int).1,
                    ),
                ));
            }
        } else {
            let fresh = ByStage {
                stage_index,
                achieved_rps: 0,
                request_count: 1,
                stage_started_ms: stage_start_ms,
                stage_duration_ms: 0,
            };
            self.by_stage.push((stage_index, fresh));
            let mut h = hist_new(LOWEST_US, HIGHEST_US, SIGFIG);
            hist_record(&mut h, clamped);
            self.latency_by_stage.push((stage_index, h));
        }
    }

    /// Counts one more pick of the journey under `journey_name`, or opens
    /// its entry on first sight. Nothing else changes.
    fn touch_journey(&mut self, journey_name: &String, journey_id: u64)
        requires
            journey_id < 0x1_0000_0000,
            1 <= old(self).total_requests <= MAX_REQUESTS,
            forall|i: int, j: int|
                0 <= i < j < old(self).by_journey@.len() ==> old(self).by_journey@.index(i).0@
                    != old(self).by_journey@.index(j).0@,
            forall|i: int|
                0 <= i < old(self).by_journey@.len() ==> (#[trigger] old(self).by_journey@.index(
                    i,
                )).1.1 <= old(self).total_requests - 1,
        ensures
            *final(self) == (MetricsAggregator { by_journey: final(self).by_journey, ..*old(self) }),
            forall|i: int, j: int|
                0 <= i < j < final(self).by_journey@.len() ==> final(self).by_journey@.index(
                    i,
                ).0@ != final(self).by_journey@.index(j).0@,
            forall|i: int|
                0 <= i < final(self).by_journey@.len() ==> (#[trigger] final(self).by_journey@.index(i)).1.1 <= old(self).total_requests,
            ({
                let k = key_pos(
                    old(self).by_journey@.map_values(|p: (String, (usize, u64))| p.0@),
                    journey_name@,
                );
                if k < old(self).by_journey@.len() {
                    &&& final(self).by_journey@.len() == old(self).by_journey@.len()
                    &&& final(self).by_journey@.index(k).0 == old(self).by_journey@.index(k).0
                    &&& final(self).by_journey@.index(k).1.0 == old(self).by_journey@.index(
                        k,
                    ).1.0
                    &&& final(self).by_journey@.index(k).1.1 == old(self).by_journey@.index(
                        k,
                    ).1.1 + 1
                    &&& forall|i: int|
                        0 <= i < old(self).by_journey@.len() && i != k ==> final(self).by_journey@.index(i) == old(self).by_journey@.index(i)
                } else {
                    &&& final(self).by_journey@.len() == old(self).by_journey@.len() + 1
                    &&& final(self).by_journey@.last().0@ == journey_name@
                    &&& final(self).by_journey@.last().1 == (journey_id as usize, 1u64)
                    &&& forall|i: int|
                        0 <= i < old(self).by_journey@.len() ==> final(self).by_journey@.index(
                            i,
                        ) == old(self).by_journey@.index(i)
                }
            }),
    {
        let ghost old_journeys = self.by_journey@;
        let j = find_journey_pos(&self.by_journey, journey_name);
        proof {
            lemma_key_pos_props(
                old_journeys.map_values(|p: (String, (usize, u64))| p.0@),
                journey_name@,
            );
        }
        if j < self.by_journey.len() {
            let key_copy = self.by_journey[j].0.clone();
            let entry = (self.by_journey[j].1.0, self.by_journey[j].1.1 + 1);
            self.by_journey.set(j, (key_copy, entry));
            proof {
                assert(self.by_journey@ =~= old_journeys.update(
                    j as int,
                    (old_journeys.index(j as int).0, entry),
                ));
            }
        } else {
            let key_copy = journey_name.clone();
            self.by_journey.push((key_copy, (journey_id as usize, 1)));
        }
        proof {
            let ghost jkeys = old_journeys.map_values(|p: (String, (usize, u64))| p.0@);
            assert forall|a: int, b: int|
                0 <= a < b < self.by_journey@.len() implies self.by_journey@.index(a).0@
                != self.by_journey@.index(b).0@ by {
                if b < old_journeys.len() {
                    assert(old_journeys.index(a).0@ != old_journeys.index(b).0@);
                } else {
                    assert(jkeys.index(a) == old_journeys.index(a).0@);
                }
            }
        }
    }

    /// Folds one completed response into every tally: the overall counters,
    /// the latency trackers and histograms, and the per-endpoint, per-stage
    /// and per-journey records — updating the entry under the response's key
    /// or opening it on first sight.
    pub fn consume(&mut self, request_event: ResponseResult, now_ms: u64)
        requires
            metrics_wf(*old(self)),
            old(self).total_requests < MAX_REQUESTS,
            request_event.journey_id < 0x1_0000_0000,
        ensures
            metrics_wf(*final(self)),
            final(self).total_requests == old(self).total_requests + 1,
            final(self).ok_requests == old(self).ok_requests + if request_event.ok {
                1int
            } else {
                0int
            },
            final(self).error_requests == old(self).error_requests + if request_event.ok {
                0int
            } else {
                1int
            },
            final(self).latency@ == old(self).latency@.push(request_event.latency_ms),
            final(self).latency_min == if request_event.latency_ms < old(self).latency_min {
                request_event.latency_ms
            } else {
                old(self).latency_min
            },
            final(self).latency_max == if request_event.latency_ms > old(self).latency_max {
                request_event.latency_ms
            } else {
                old(self).latency_max
            },
            final(self).latency_sum == crate::vu_runner::sat_of(
                old(self).latency_sum + request_event.latency_ms,
            ),
            hist_values(final(self).overall_latency) == hist_values(
                old(self).overall_latency,
            ).insert(clamp_us(request_event.latency_us)),
            ({
                let k = key_pos(entry_keys(old(self).by_endpoint@), request_event.endpoint_key@);
                if k < old(self).by_endpoint@.len() {
                    &&& final(self).by_endpoint@.len() == old(self).by_endpoint@.len()
                    &&& final(self).by_endpoint@.index(k).0 == old(self).by_endpoint@.index(k).0
                    &&& final(self).by_endpoint@.index(k).1 == updated_endpoint(
                        old(self).by_endpoint@.index(k).1,
                        request_event.ok,
                        now_ms,
                    )
                    &&& forall|i: int|
                        0 <= i < old(self).by_endpoint@.len() && i != k ==> final(self).by_endpoint@.index(i) == old(self).by_endpoint@.index(i)
                    &&& hist_values(final(self).latency_by_endpoint@.index(k).1) == hist_values(
                        old(self).latency_by_endpoint@.index(k).1,
                    ).insert(clamp_us(request_event.latency_us))
                } else {
                    &&& final(self).by_endpoint@.len() == old(self).by_endpoint@.len() + 1
                    &&& final(self).by_endpoint@.last().0@ == request_event.endpoint_key@
                    &&& final(self).by_endpoint@.last().1 == new_endpoint(
                        request_event.ok,
                        now_ms,
                    )
                    &&& forall|i: int|
                        0 <= i < old(self).by_endpoint@.len() ==> final(self).by_endpoint@.index(
                            i,
                        ) == old(self).by_endpoint@.index(i)
                    &&& hist_values(final(self).latency_by_endpoint@.last().1) == Multiset::<
                        u64,
                    >::empty().insert(clamp_us(request_event.latency_us))
                }
            }),
            ({
                let k = stage_pos(old(self).by_stage@, request_event.stage_index);
                if k < old(self).by_stage@.len() {
                    &&& final(self).by_stage@.len() == old(self).by_stage@.len()
                    &&& final(self).by_stage@.index(k).0 == old(self).by_stage@.index(k).0
                    &&& final(self).by_stage@.index(k).1 == updated_stage(
                        old(self).by_stage@.index(k).1,
                        now_ms,
                    )
                    &&& forall|i: int|
                        0 <= i < old(self).by_stage@.len() && i != k ==> final(self).by_stage@.index(i) == old(self).by_stage@.index(i)
                    &&& hist_values(final(self).latency_by_stage@.index(k).1) == hist_values(
                        old(self).latency_by_stage@.index(k).1,
                    ).insert(clamp_us(request_event.latency_us))
                } else {
                    &&& final(self).by_stage@.len() == old(self).by_stage@.len() + 1
                    &&& final(self).by_stage@.last().0 == request_event.stage_index
                    &&& final(self).by_stage@.last().1 == new_stage(
                        request_event.stage_index,
                        request_event.stage_start_ms,
                    )
                    &&& forall|i: int|
                        0 <= i < old(self).by_stage@.len() ==> final(self).by_stage@.index(i)
                            == old(self).by_stage@.index(i)
                    &&& hist_values(final(self).latency_by_stage@.last().1) == Multiset::<
                        u64,
                    >::empty().insert(clamp_us(request_event.latency_us))
                }
            }),
            ({
                let k = key_pos(
                    old(self).by_journey@.map_values(|p: (String, (usize, u64))| p.0@),
                    request_event.journey_name@,
                );
                if k < old(self).by_journey@.len() {
                    &&& final(self).by_journey@.len() == old(self).by_journey@.len()
                    &&& final(self).by_journey@.index(k).0 == old(self).by_journey@.index(k).0
                    &&& final(self).by_journey@.index(k).1.0 == old(self).by_journey@.index(
                        k,
                    ).1.0
                    &&& final(self).by_journey@.index(k).1.1 == old(self).by_journey@.index(
                        k,
                    ).1.1 + 1
                    &&& forall|i: int|
                        0 <= i < old(self).by_journey@.len() && i != k ==> final(self).by_journey@.index(i) == old(self).by_journey@.index(i)
                } else {
                    &&& final(self).by_journey@.len() == old(self).by_journey@.len() + 1
                    &&& final(self).by_journey@.last().0@ == request_event.journey_name@
                    &&& final(self).by_journey@.last().1 == (
                    request_event.journey_id as usize,
                    1u64,
                    )
                    &&& forall|i: int|
                        0 <= i < old(self).by_journey@.len() ==> final(self).by_journey@.index(
                            i,
                        ) == old(self).by_journey@.index(i)
                }
            }),
    {
        self.total_requests = self.total_requests + 1;
        if request_event.ok {
            self.ok_requests = self.ok_requests + 1;
        } else {
            self.error_requests = self.error_requests + 1;
        }
        if request_event.latency_ms < self.latency_min {
            self.latency_min = request_event.latency_ms;
        }
        if request_event.latency_ms > self.latency_max {
            self.latency_max = request_event.latency_ms;
        }
        if self.latency_sum <= u64::MAX - request_event.latency_ms {
            self.latency_sum = self.latency_sum + request_event.latency_ms;
        } else {
            self.latency_sum = u64::MAX;
        }
        self.latency.push(request_event.latency_ms);
        self.record_overall_latency(request_event.latency_us);
        let clamped = if request_event.latency_us > HIGHEST_US {
            HIGHEST_US
        } else {
            request_event.latency_us
        };
        self.touch_endpoint(&request_event.endpoint_key, request_event.ok, now_ms, clamped);
        self.touch_stage(
            request_event.stage_index,
            request_event.stage_start_ms,
            now_ms,
            clamped,
        );
        self.touch_journey(&request_event.journey_name, request_event.journey_id);
    }
}

/// Histogram range: in a well-formed aggregator, every latency sample held
/// by the overall, per-endpoint and per-stage histograms is at most sixty
/// million microseconds — anything larger was clamped when it was recorded.
pub proof fn lemma_histogram_range(m: MetricsAggregator)
    requires
        metrics_wf(m),
    ensures
        forall|v: u64| hist_values(m.overall_latency).count(v) > 0 ==> v <= HIGHEST_US,
        forall|i: int, v: u64|
            0 <= i < m.latency_by_endpoint@.len() && #[trigger] hist_values(
                m.latency_by_endpoint@.index(i).1,
            ).count(v) > 0 ==> v <= HIGHEST_US,
        forall|i: int, v: u64|
            0 <= i < m.latency_by_stage@.len() && #[trigger] hist_values(
                m.latency_by_stage@.index(i).1,
            ).count(v) > 0 ==> v <= HIGHEST_US,
{
    assert forall|i: int, v: u64|
        0 <= i < m.latency_by_endpoint@.len() && #[trigger] hist_values(
            m.latency_by_endpoint@.index(i).1,
        ).count(v) > 0 implies v <= HIGHEST_US by {
        assert(hist_wf(m.latency_by_endpoint@.index(i).1));
    }
    assert forall|i: int, v: u64|
        0 <= i < m.latency_by_stage@.len() && #[trigger] hist_values(
            m.latency_by_stage@.index(i).1,
        ).count(v) > 0 implies v <= HIGHEST_US by {
        assert(hist_wf(m.latency_by_stage@.index(i).1));
    }
}

/// The rounded rate `total / window × 1000`, computed without overflow.
fn rps_rounded(total: u64, window: u64) -> (r: u64)
    requires
        1 <= window,
        total <= MAX_REQUESTS + 1,
    ensures
        r == spec_rps(total as int, window as int),
{
    let t = total as u128;
    let w = window as u128;
    let v = (2000 * t + w) / (2 * w);
    proof {
        vstd::arithmetic::div_mod::lemma_div_is_ordered(
            (2000 * t + w) as int,
            2000 * (MAX_REQUESTS + 1) as int + w as int,
            (2 * w) as int,
        );
        vstd::arithmetic::div_mod::lemma_div_is_ordered_by_denominator(
            2000 * (MAX_REQUESTS + 1) as int + w as int,
            2,
            2 * w as int,
        );
    }
    v as u64
}

} // verus!
