use vstd::prelude::*;

verus! {

/// Whole milliseconds in a span of `secs` seconds and `subsec_nanos`
/// nanoseconds, the sub-millisecond rest dropped.
pub open spec fn millis_of(secs: u64, subsec_nanos: u32) -> int {
    secs * 1000 + subsec_nanos / 1_000_000
}

/// A device latency in whole milliseconds, as device listings show it.
pub fn as_millis(secs: u64, subsec_nanos: u32) -> (r: u64)
    requires
        millis_of(secs, subsec_nanos) <= u64::MAX,
    ensures
        r == millis_of(secs, subsec_nanos),
{
    secs * 1000 + (subsec_nanos as u64) / 1_000_000
}

} // verus!
