//! Bit rate measurement over a clock supplied by the caller.
use vstd::prelude::*;

verus! {

/// Clock ticks per second.
pub const CLOCKS_PER_SEC: u64 = 1000;

/// The measurement state: the clock of the last update, the update interval,
/// the bytes counted since the last update and the last rate computed.
pub struct BitRateState {
    pub last_clock: u64,
    pub update_interval: u64,
    pub bytes: u64,
    pub bit_rate: u64,
}

/// `bytes` bits per second over `elapsed` ticks; the product saturates at `u64::MAX`.
pub open spec fn rate_of(bytes: u64, elapsed: u64) -> u64 {
    let bits = bytes * (8 * CLOCKS_PER_SEC);
    (if bits > u64::MAX { u64::MAX as int } else { bits }) as u64 / elapsed
}

/// Counting `bytes` at clock `now`: the new state and whether the rate was updated.
/// A clock that went back restarts the count from `now`.
pub open spec fn update_state(st: BitRateState, now: u64, bytes: u64) -> (BitRateState, bool) {
    if now >= st.last_clock {
        let total = (st.bytes + bytes) as u64;
        if now - st.last_clock >= st.update_interval {
            (BitRateState { last_clock: now, bytes: 0, bit_rate: rate_of(total, (now - st.last_clock) as u64), ..st }, true)
        } else {
            (BitRateState { bytes: total, ..st }, false)
        }
    } else {
        (BitRateState { last_clock: now, bytes: 0, ..st }, false)
    }
}

/// The rate reported at clock `now`: zero once two intervals have passed without an update.
pub open spec fn rate_at(st: BitRateState, now: u64) -> u64 {
    if now - st.last_clock >= 2 * st.update_interval {
        0
    } else {
        st.bit_rate
    }
}

/// Measures a bit rate from byte counts and the clock `clock_fn`.
pub struct BitRateCalculator<F: Fn() -> u64> {
    clock_fn: F,
    last_clock: u64,
    update_interval: u64,
    bytes: u64,
    bit_rate: u64,
}

impl<F: Fn() -> u64> BitRateCalculator<F> {
    /// The measurement state.
    pub closed spec fn state(&self) -> BitRateState {
        BitRateState {
            last_clock: self.last_clock,
            update_interval: self.update_interval,
            bytes: self.bytes,
            bit_rate: self.bit_rate,
        }
    }

    /// The clock.
    pub closed spec fn clock(&self) -> F {
        self.clock_fn
    }

    /// Whether the update interval is positive.
    pub open spec fn wf(&self) -> bool {
        self.state().update_interval >= 1
    }

    /// A calculator over `clock_fn`, with an interval of one second and nothing counted.
    pub fn new(clock_fn: F) -> (r: Self)
        ensures
            r.wf(),
            r.clock() == clock_fn,
            r.state() == (BitRateState { last_clock: 0, update_interval: CLOCKS_PER_SEC, bytes: 0, bit_rate: 0 }),
    {
        BitRateCalculator { clock_fn, last_clock: 0, update_interval: CLOCKS_PER_SEC, bytes: 0, bit_rate: 0 }
    }

    /// Starts counting from the current clock.
    pub fn initialize(&mut self)
        requires
            call_requires(old(self).clock(), ()),
        ensures
            final(self).clock() == old(self).clock(),
            call_ensures(old(self).clock(), (), final(self).state().last_clock),
            final(self).state() == (BitRateState { last_clock: final(self).state().last_clock, bytes: 0, bit_rate: 0, ..old(self).state() }),
    {
        let now = (self.clock_fn)();
        self.initialize_at(now);
    }

    /// Starts counting from clock `now`.
    pub fn initialize_at(&mut self, now: u64)
        ensures
            final(self).clock() == old(self).clock(),
            final(self).state() == (BitRateState { last_clock: now, bytes: 0, bit_rate: 0, ..old(self).state() }),
    {
        self.last_clock = now;
        self.bytes = 0;
        self.bit_rate = 0;
    }

    /// Clears the count, the rate and the last clock.
    pub fn reset(&mut self)
        ensures
            final(self).clock() == old(self).clock(),
            final(self).state() == (BitRateState { last_clock: 0, bytes: 0, bit_rate: 0, ..old(self).state() }),
    {
        self.last_clock = 0;
        self.bytes = 0;
        self.bit_rate = 0;
    }

    /// Counts `bytes` at clock `now`; returns whether the rate was updated.
    pub fn update_at(&mut self, now: u64, bytes: usize) -> (r: bool)
        requires
            old(self).wf(),
            now >= old(self).state().last_clock ==> old(self).state().bytes + bytes <= u64::MAX,
        ensures
            final(self).wf(),
            final(self).clock() == old(self).clock(),
            (final(self).state(), r) == update_state(old(self).state(), now, bytes as u64),
    {
        let mut updated = false;
        if now >= self.last_clock {
            self.bytes = self.bytes + bytes as u64;
            if now - self.last_clock >= self.update_interval {
                let bits = match self.bytes.checked_mul(8 * CLOCKS_PER_SEC) {
                    Some(b) => b,
                    None => u64::MAX,
                };
                self.bit_rate = bits / (now - self.last_clock);
                self.last_clock = now;
                self.bytes = 0;
                updated = true;
            }
        } else {
            self.last_clock = now;
            self.bytes = 0;
        }
        updated
    }

    /// Counts `bytes` at the current clock; returns whether the rate was updated.
    pub fn update(&mut self, bytes: usize) -> (r: bool)
        requires
            old(self).wf(),
            call_requires(old(self).clock(), ()),
            old(self).state().bytes + bytes <= u64::MAX,
        ensures
            final(self).wf(),
            final(self).clock() == old(self).clock(),
            exists|now: u64| #[trigger] call_ensures(old(self).clock(), (), now)
                && (final(self).state(), r) == update_state(old(self).state(), now, bytes as u64),
    {
        let now = (self.clock_fn)();
        self.update_at(now, bytes)
    }

    /// The rate at clock `now`.
    pub fn bit_rate_at(&self, now: u64) -> (r: u64)
        requires
            now >= self.state().last_clock,
            2 * self.state().update_interval <= u64::MAX,
        ensures
            r == rate_at(self.state(), now),
    {
        if now - self.last_clock >= 2 * self.update_interval {
            return 0;
        }
        self.bit_rate
    }

    /// The rate at the current clock.
    pub fn get_bit_rate(&self) -> (r: u64)
        requires
            call_requires(self.clock(), ()),
            forall|t: u64| #[trigger] call_ensures(self.clock(), (), t) ==> t >= self.state().last_clock,
            2 * self.state().update_interval <= u64::MAX,
        ensures
            exists|now: u64| #[trigger] call_ensures(self.clock(), (), now) && r == rate_at(self.state(), now),
    {
        let now = (self.clock_fn)();
        self.bit_rate_at(now)
    }

    /// Sets the update interval; zero is refused.
    pub fn set_update_interval(&mut self, interval: u64) -> (r: bool)
        ensures
            r == (interval >= 1),
            final(self).clock() == old(self).clock(),
            final(self).state() == (if r { BitRateState { update_interval: interval, ..old(self).state() } } else { old(self).state() }),
    {
        if interval < 1 {
            return false;
        }
        self.update_interval = interval;
        true
    }

    /// The update interval.
    pub fn get_update_interval(&self) -> (r: u64)
        ensures
            r == self.state().update_interval,
    {
        self.update_interval
    }
}

} // verus!
