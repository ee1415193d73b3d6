//! Spans of time.

use vstd::prelude::*;

verus! {

/// A span of time: whole seconds, and nanoseconds below one second.
#[derive(Clone, Copy, Debug, PartialEq, Eq, Structural)]
pub struct Duration {
    pub secs: u64,
    pub nanos: u32,
}

impl Duration {
    /// The whole milliseconds of the span.
    pub open spec fn millis(self) -> nat {
        (self.secs * 1000 + self.nanos / 1_000_000) as nat
    }

    /// The span of no length.
    pub fn zero() -> (span: Duration)
        ensures
            span == (Duration { secs: 0, nanos: 0 }),
    {
        Duration { secs: 0, nanos: 0 }
    }

    pub fn from_secs(secs: u64) -> (span: Duration)
        ensures
            span == (Duration { secs, nanos: 0 }),
    {
        Duration { secs, nanos: 0 }
    }

    pub fn is_zero(&self) -> (yes: bool)
        ensures
            yes == (self.secs == 0 && self.nanos == 0),
    {
        self.secs == 0 && self.nanos == 0
    }
}

/// The reading of a 64-bit millisecond clock that started `elapsed` ago.
pub fn now_ms(elapsed: Duration) -> (ms: u64)
    ensures
        ms == elapsed.millis() % 0x1_0000_0000_0000_0000,
{
    let millis: u128 = elapsed.secs as u128 * 1000 + (elapsed.nanos / 1_000_000) as u128;
    assert(millis as u64 as u128 == millis % 0x1_0000_0000_0000_0000u128) by (bit_vector);
    #[verifier::truncate]
    let ms: u64 = millis as u64;
    ms
}

/// The milliseconds of a span are those that have passed entirely.
pub proof fn law_whole_milliseconds(span: Duration)
    ensures
        ({
            let nanos = span.secs * 1_000_000_000 + span.nanos;
            span.millis() * 1_000_000 <= nanos < (span.millis() + 1) * 1_000_000
        }),
{
}

} // verus!
