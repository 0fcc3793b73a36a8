//! A deterministic, non-cryptographic xorshift bit source, seeded once
//! from the wall clock.  Suitable only for display codes, never for
//! secrets.

use vstd::prelude::*;

verus! {

/// One step of the three-shift xorshift transform on a 64-bit state.
pub open spec fn next_state(x: u64) -> u64 {
    let a = x ^ (x << 13);
    let b = a ^ (a >> 7);
    b ^ (b << 17)
}

/// Relies on `std::time::SystemTime::now` and
/// `SystemTime::duration_since`: reads the nanoseconds since the Unix
/// epoch, or zero when the clock is before the epoch.  The value
/// depends on the moment of the call, so nothing is promised of it.
#[verifier::external_body]
fn now_nanos() -> u64 {
    std::time::SystemTime::now()
        .duration_since(std::time::UNIX_EPOCH)
        .map(|duration| duration.as_nanos() as u64)
        .unwrap_or(0)
}

/// A 64-bit xorshift pseudo-random bit source.
#[derive(Clone, Copy, Debug)]
pub(crate) struct XorShift64 {
    pub(crate) state: u64,
}

impl XorShift64 {
    /// Builds the bit source from one clock reading: the reading mixed
    /// by XOR with a fixed odd constant, so that a zero reading does
    /// not give a zero seed.
    pub(crate) fn seed_from(nanos: u64) -> (r: Self)
        ensures
            r.state == nanos ^ 0x9E3779B97F4A7C15,
    {
        XorShift64 { state: nanos ^ 0x9E3779B97F4A7C15 }
    }

    /// Seeds the state from the wall clock; the reading decides the
    /// state, so nothing is promised of it.
    pub(crate) fn from_system_time() -> Self {
        Self::seed_from(now_nanos())
    }

    /// Advances the state by one xorshift step and returns it.
    pub(crate) fn next_u64(&mut self) -> (r: u64)
        ensures
            r == next_state(old(self).state),
            final(self).state == r,
    {
        let mut x = self.state;
        x = x ^ (x << 13u64);
        x = x ^ (x >> 7u64);
        x = x ^ (x << 17u64);
        self.state = x;
        x
    }

    /// The next pseudo-random index below `upper`; `upper == 0` yields
    /// `0` without advancing the state.
    pub(crate) fn next_usize(&mut self, upper: usize) -> (r: usize)
        ensures
            upper > 0 ==> r < upper,
            upper > 0 ==> final(self).state == next_state(old(self).state) && r as int == next_state(
                old(self).state,
            ) as int % upper as int,
            upper == 0 ==> r == 0 && *final(self) == *old(self),
    {
        if upper == 0 {
            return 0;
        }
        let w = self.next_u64();
        (w % (upper as u64)) as usize
    }
}

} // verus!
