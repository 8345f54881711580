//! The pseudo-random number generator of the HULK runtime.
use vstd::prelude::*;

verus! {

/// One xorshift step: `x ^= x << 7; x ^= x >> 9`.
pub open spec fn xorshift(x: u64) -> u64 {
    ((x ^ (x << 7u64)) ^ ((x ^ (x << 7u64)) >> 9u64)) as u64
}

/// The state a seed of `nanos` nanoseconds gives.
pub open spec fn seeded_state(nanos: u64) -> u64 {
    nanos ^ 0x9e3779b97f4a7c15u64
}

/// Reads the system clock with `SystemTime::elapsed` on `UNIX_EPOCH`: the
/// time since the epoch, or `None` when the clock reads earlier than the
/// epoch. Nothing is promised of the value, which depends on the clock.
#[verifier::external_body]
fn elapsed_since_epoch() -> (r: Option<std::time::Duration>) {
    match std::time::UNIX_EPOCH.elapsed() {
        Ok(elapsed) => Some(elapsed),
        Err(_) => None,
    }
}

/// The whole nanoseconds of `d`, by `Duration::as_nanos`. Nothing is stated
/// of the value: it is a function of `d`, which Verus sees nothing inside.
#[verifier::external_body]
fn whole_nanos(d: &std::time::Duration) -> (r: u128) {
    d.as_nanos()
}

/// The nanoseconds since the epoch, truncated to 64 bits, or `None` when the
/// clock reads earlier than the epoch.
fn nanos_since_epoch() -> (r: Option<u64>) {
    match elapsed_since_epoch() {
        Some(d) => {
            let n = whole_nanos(&d);
            let low = n % 0x1_0000_0000_0000_0000u128;
            Some(low as u64)
        },
        None => None,
    }
}

/// The seed taken from a clock reading: the reading itself, or 0 when the
/// clock could not be read.
pub open spec fn seed_of(clock: Option<u64>) -> u64 {
    match clock {
        Some(nanos) => nanos,
        None => 0,
    }
}

/// A pseudo-random number generator; the state 0 means "not seeded yet".
#[derive(Debug)]
pub struct Rng {
    state: u64,
}

impl Rng {
    /// The state from which the next number is computed.
    pub closed spec fn state(&self) -> u64 {
        self.state
    }

    /// A generator that seeds itself from the clock on first use.
    pub fn new() -> (r: Rng)
        ensures
            r.state() == 0,
    {
        Rng { state: 0 }
    }

    /// Seeds the state from a time of `nanos` nanoseconds.
    pub fn seed_from(&mut self, nanos: u64)
        ensures
            final(self).state() == seeded_state(nanos),
    {
        self.state = nanos ^ 0x9e3779b97f4a7c15u64;
    }

    /// Seeds the state from a clock reading (`None` when the clock could not
    /// be read, which seeds as time 0).
    pub fn seed_from_clock(&mut self, clock: Option<u64>)
        ensures
            final(self).state() == seeded_state(seed_of(clock)),
    {
        let nanos = match clock {
            Some(n) => n,
            None => 0,
        };
        self.seed_from(nanos);
    }

    /// Seeds the state from the current time. Which state results depends on
    /// the clock; it is the seed of some reading.
    pub fn init_rng(&mut self)
        ensures
            exists|clock: Option<u64>| final(self).state() == seeded_state(seed_of(clock)),
    {
        let clock = nanos_since_epoch();
        self.seed_from_clock(clock);
    }

    /// One step of the generator, with `clock` the reading to seed from if it
    /// is not seeded yet: one xorshift step of the state, which becomes the
    /// new state and is returned.
    pub fn next_with_clock(&mut self, clock: Option<u64>) -> (r: u64)
        ensures
            final(self).state() == r,
            old(self).state() != 0 ==> r == xorshift(old(self).state()),
            old(self).state() == 0 ==> r == xorshift(seeded_state(seed_of(clock))),
    {
        if self.state == 0 {
            self.seed_from_clock(clock);
        }
        let mut x = self.state;
        x = x ^ (x << 7u64);
        x = x ^ (x >> 9u64);
        self.state = x;
        x
    }

    /// Returns the next 64-bit pseudo-random number: one xorshift step of the
    /// state, which becomes the new state. An unseeded generator is seeded
    /// from the clock first; which number then comes depends on the clock.
    pub fn next_u64(&mut self) -> (r: u64)
        ensures
            final(self).state() == r,
            old(self).state() != 0 ==> r == xorshift(old(self).state()),
            old(self).state() == 0 ==> exists|clock: Option<u64>| r == xorshift(seeded_state(seed_of(clock))),
    {
        let clock = if self.state == 0 {
            nanos_since_epoch()
        } else {
            None
        };
        self.next_with_clock(clock)
    }
}

} // verus!
