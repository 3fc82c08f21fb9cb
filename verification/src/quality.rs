//! Connection quality: a categorical view of the most recent measured
//! round-trip latency of a client.

use vstd::prelude::*;

verus! {

/// The quality class of a latency measurement, in milliseconds:
/// below 50 ms is EXCELLENT, below 100 ms is GOOD, anything else is POOR;
/// a client with no measurement yet is UNKNOWN.
pub open spec fn spec_quality_label(latency_ms: Option<u64>) -> Seq<char> {
    match latency_ms {
        Option::None => "UNKNOWN"@,
        Option::Some(l) => if l < 50 {
            "EXCELLENT"@
        } else if l < 100 {
            "GOOD"@
        } else {
            "POOR"@
        },
    }
}

/// Map a latency measurement to its quality label.
pub fn quality_label(latency_ms: Option<u64>) -> (r: String)
    ensures
        r@ == spec_quality_label(latency_ms),
{
    match latency_ms {
        Option::None => String::from_str("UNKNOWN"),
        Option::Some(l) => {
            if l < 50 {
                String::from_str("EXCELLENT")
            } else if l < 100 {
                String::from_str("GOOD")
            } else {
                String::from_str("POOR")
            }
        },
    }
}

} // verus!
