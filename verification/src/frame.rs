//! Media frames and their timestamps.

use vstd::prelude::*;

use crate::stack::{
    micros_timestamp, nanos_timestamp, timestamp_micros, timestamp_nanos, TICK_LIMIT,
};

verus! {

/// A point in media time: a number of ticks, of which the scale make a second.
#[derive(Clone, Copy, Debug)]
pub struct Timestamp {
    ticks: u64,
    scale: u64,
}

/// `n` cut down to 64 bits.
pub open spec fn low_64(n: int) -> int {
    n % 0x1_0000_0000_0000_0000
}

/// `n` cut down to 64 bits and read as a signed number.
pub open spec fn signed_low_64(n: int) -> int {
    if low_64(n) < 0x8000_0000_0000_0000 {
        low_64(n)
    } else {
        low_64(n) - 0x1_0000_0000_0000_0000
    }
}

impl Timestamp {
    #[verifier::type_invariant]
    spec fn in_range(self) -> bool {
        &&& self.ticks < TICK_LIMIT
        &&& 0 < self.scale < TICK_LIMIT
    }

    /// The number of ticks.
    pub closed spec fn spec_ticks(self) -> u64 {
        self.ticks
    }

    /// The number of ticks in a second.
    pub closed spec fn spec_scale(self) -> u64 {
        self.scale
    }

    /// The time in nanoseconds, rounded down.
    pub open spec fn nanos(self) -> int {
        (self.spec_ticks() * 1_000_000_000) / self.spec_scale() as int
    }

    /// The time in microseconds, rounded down.
    pub open spec fn micros(self) -> int {
        (self.spec_ticks() * 1_000_000) / self.spec_scale() as int
    }

    /// The number of ticks.
    pub fn ticks(&self) -> (r: u64)
        ensures
            r == self.spec_ticks(),
    {
        self.ticks
    }

    /// The number of ticks in a second.
    pub fn scale(&self) -> (r: u64)
        ensures
            r == self.spec_scale(),
    {
        self.scale
    }

    /// The timestamp of `ticks` at `scale` ticks per second, both in the range of a QUIC
    /// variable-length integer.
    pub fn from_scale(ticks: u64, scale: u64) -> (r: Option<Self>)
        ensures
            r is Some <==> ticks < TICK_LIMIT && 0 < scale < TICK_LIMIT,
            r matches Some(t) ==> t.spec_ticks() == ticks && t.spec_scale() == scale,
    {
        if ticks < TICK_LIMIT && 0 < scale && scale < TICK_LIMIT {
            Some(Timestamp { ticks, scale })
        } else {
            None
        }
    }

    /// The timestamp of `nanos` nanoseconds. A count that no timestamp can hold is refused.
    pub fn from_nanos(nanos: u64) -> (r: Result<Self, String>)
        ensures
            match r {
                Ok(t) => nanos < TICK_LIMIT && t.spec_ticks() == nanos && t.spec_scale()
                    == 1_000_000_000,
                Err(e) => nanos >= TICK_LIMIT && e@ == "time overflow"@,
            },
    {
        match nanos_timestamp(nanos) {
            Ok(ticks) => Ok(Timestamp { ticks, scale: 1_000_000_000 }),
            Err(e) => Err(e),
        }
    }

    /// The timestamp of `micros` microseconds. A count that no timestamp can hold is refused.
    pub fn from_micros(micros: u64) -> (r: Result<Self, String>)
        ensures
            match r {
                Ok(t) => micros < TICK_LIMIT && t.spec_ticks() == micros && t.spec_scale()
                    == 1_000_000,
                Err(e) => micros >= TICK_LIMIT && e@ == "time overflow"@,
            },
    {
        match micros_timestamp(micros) {
            Ok(ticks) => Ok(Timestamp { ticks, scale: 1_000_000 }),
            Err(e) => Err(e),
        }
    }

    /// The time in nanoseconds, as 64 bits hold it.
    pub fn as_nanos(&self) -> (r: u64)
        ensures
            r == low_64(self.nanos()),
    {
        proof {
            use_type_invariant(self);
        }
        let nanos: u128 = timestamp_nanos(self.ticks, self.scale);
        assert(nanos as u64 == nanos % 0x1_0000_0000_0000_0000u128) by (bit_vector);
        #[verifier::truncate]
        let low: u64 = nanos as u64;
        low
    }

    /// The time in microseconds.
    pub fn as_micros(&self) -> (r: u128)
        ensures
            r == self.micros(),
    {
        proof {
            use_type_invariant(self);
        }
        timestamp_micros(self.ticks, self.scale)
    }

    /// The time in microseconds, as a signed integer of 64 bits holds it.
    pub fn as_signed_micros(&self) -> (r: i64)
        ensures
            r == signed_low_64(self.micros()),
    {
        let micros: u128 = self.as_micros();
        assert(micros % 0x1_0000_0000_0000_0000u128 < 0x8000_0000_0000_0000u128 ==> micros as i64
            == micros % 0x1_0000_0000_0000_0000u128) by (bit_vector);
        assert(micros % 0x1_0000_0000_0000_0000u128 >= 0x8000_0000_0000_0000u128 ==> micros as i64
            == micros % 0x1_0000_0000_0000_0000u128 - 0x1_0000_0000_0000_0000u128)
            by (bit_vector);
        #[verifier::truncate]
        let low: i64 = micros as i64;
        low
    }
}

/// One frame of a track.
#[derive(Debug)]
pub struct Frame {
    pub timestamp: Timestamp,
    pub payload: Vec<u8>,
    pub keyframe: bool,
}

/// A publisher's nanoseconds come back unchanged at the subscriber.
pub proof fn law_nanos_round_trip(t: Timestamp, nanos: u64)
    requires
        t.spec_ticks() == nanos,
        t.spec_scale() == 1_000_000_000,
    ensures
        low_64(t.nanos()) == nanos,
{
    assert((nanos * 1_000_000_000) / 1_000_000_000int == nanos) by (nonlinear_arith);
}

/// A publisher's microseconds come back unchanged at the subscriber.
pub proof fn law_micros_round_trip(t: Timestamp, micros: u64)
    requires
        micros < TICK_LIMIT,
        t.spec_ticks() == micros,
        t.spec_scale() == 1_000_000,
    ensures
        signed_low_64(t.micros()) == micros,
{
    assert((micros * 1_000_000) / 1_000_000int == micros) by (nonlinear_arith);
}

} // verus!
