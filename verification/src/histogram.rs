use vstd::prelude::*;
use vstd::multiset::Multiset;

verus! {

/// An HDR histogram of microsecond latencies. The verifier sees it only
/// through `hist_values` and `hist_high`; the `hist` field itself is for the
/// unverified report printer, which reads percentiles out of it.
#[verifier::external_body]
pub struct LatencyHistogram {
    pub hist: hdrhistogram::Histogram<u64>,
}

/// The samples a histogram holds: the values that were recorded into it.
pub uninterp spec fn hist_values(h: LatencyHistogram) -> Multiset<u64>;

/// The highest trackable value the histogram was created with; recording
/// clamps there.
pub uninterp spec fn hist_high(h: LatencyHistogram) -> u64;

/// Relies on hdrhistogram::Histogram::new_with_bounds: with a lowest
/// discernible value of 1, a highest trackable value of at least 2 and a
/// precision of 3 significant figures, creation succeeds, the histogram is
/// empty, and its highest trackable value is the one given.
#[verifier::external_body]
pub(crate) fn hist_new(low: u64, high: u64, sigfig: u8) -> (h: LatencyHistogram)
    requires
        low == 1,
        high >= 2,
        sigfig == 3,
    ensures
        hist_values(h) == Multiset::<u64>::empty(),
        hist_high(h) == high,
{
    LatencyHistogram {
        hist: hdrhistogram::Histogram::new_with_bounds(low, high, sigfig).expect(
            "histogram creation failed",
        ),
    }
}

/// Relies on hdrhistogram::Histogram::saturating_record: recording cannot
/// fail, and a value within the trackable range is recorded as one more
/// sample of that value.
#[verifier::external_body]
pub(crate) fn hist_record(h: &mut LatencyHistogram, value: u64)
    requires
        value <= hist_high(*old(h)),
    ensures
        hist_values(*final(h)) == hist_values(*old(h)).insert(value),
        hist_high(*final(h)) == hist_high(*old(h)),
{
    h.hist.saturating_record(value);
}

} // verus!
