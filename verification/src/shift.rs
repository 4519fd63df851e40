//! The condition deciding when the rolling window rotates its filters.
//!
//! Two strategies are provided: one by elapsed wall-clock time, one by
//! insertion count. Either is replaceable by any type implementing
//! [`ShiftCondition`].

use vstd::prelude::*;

verus! {

/// Default window length for the duration strategy, in nanoseconds:
/// 3600 seconds, or one hour.
pub const DEFAULT_SHIFT_DURATION_NANOS: u128 = 3_600_000_000_000;

/// Default number of insertions before the window rotates.
pub const DEFAULT_SHIFT_INSERTIONS: usize = 4096;

/// A policy deciding, after each insertion, whether the rolling window
/// should rotate. Its contract is relational: each mutator says how the
/// new state may relate to the old one, and `decision` says what a
/// result of `should_shift` means of the state. A strategy whose answer
/// depends on the clock leaves `decision` trivial; one whose answer is a
/// pure function of its state pins the result exactly.
pub trait ShiftCondition: Sized + Default {
    /// What a result `r` of `should_shift` tells about this state.
    spec fn decision(&self, r: bool) -> bool;

    /// How `increment` may change the state.
    spec fn incremented(&self, next: Self) -> bool;

    /// How `do_shift` may change the state.
    spec fn reset(&self, next: Self) -> bool;

    /// The state can record one more insertion.
    spec fn ready(&self) -> bool;

    /// Whether the window should rotate now. A pure read: no mutation.
    fn should_shift(&self) -> (r: bool)
        ensures
            self.decision(r),
    ;

    /// Mark the start of a new window.
    fn do_shift(&mut self)
        ensures
            old(self).reset(*final(self)),
    ;

    /// Record one insertion event.
    fn increment(&mut self)
        requires
            old(self).ready(),
        ensures
            old(self).incremented(*final(self)),
    ;

    /// Record one insertion, then say whether the window should rotate.
    /// This is the one entry point the rolling filter uses after each
    /// insertion.
    fn should_shift_after_increment(&mut self) -> (r: bool)
        requires
            old(self).ready(),
        ensures
            old(self).incremented(*final(self)),
            final(self).decision(r),
    {
        self.increment();
        self.should_shift()
    }
}

/// Declares `std::time::Instant`: an opaque reading of a monotonic clock.
#[verifier::external_type_specification]
#[verifier::external_body]
pub struct ExInstant(std::time::Instant);

/// Relies on `std::time::Instant::now`: a reading of the monotonic clock
/// at the time of the call. Nothing is promised of its value.
pub assume_specification[ std::time::Instant::now ]() -> std::time::Instant;

/// Relies on `std::time::Instant::elapsed`: the time between that instant
/// and the clock now. Nothing is promised of its value.
pub assume_specification[ std::time::Instant::elapsed ](i: &std::time::Instant) -> core::time::Duration;

/// Relies on `core::time::Duration::as_nanos`: the duration counted in
/// whole nanoseconds. Nothing is promised of its value.
pub assume_specification[ core::time::Duration::as_nanos ](d: &core::time::Duration) -> u128;

/// The duration strategy's decision logic, over a drawn clock reading:
/// the window has tripped exactly when at least the configured span has
/// elapsed. The boundary is inclusive: an insertion processed at the
/// window's very end already rotates.
pub fn window_tripped(elapsed_nanos: u128, duration_nanos: u128) -> (r: bool)
    ensures
        r == (elapsed_nanos >= duration_nanos),
{
    elapsed_nanos >= duration_nanos
}

/// Shift condition that rotates the window once a configured span of
/// wall-clock time has elapsed since the last rotation.
pub struct ShiftByDuration {
    /// The configured window length, in nanoseconds.
    pub duration_nanos: u128,
    /// The clock reading at the last rotation (or at construction).
    pub last_shift: std::time::Instant,
}

impl ShiftByDuration {
    /// Create a shift condition whose window is the given number of
    /// nanoseconds of wall-clock time, starting now.
    pub fn new(duration_nanos: u128) -> (r: Self)
        ensures
            r.duration_nanos == duration_nanos,
    {
        ShiftByDuration { duration_nanos, last_shift: std::time::Instant::now() }
    }
}

impl Default for ShiftByDuration {
    /// The default window: one hour of wall-clock time.
    fn default() -> (r: Self)
        ensures
            r.duration_nanos == DEFAULT_SHIFT_DURATION_NANOS,
    {
        ShiftByDuration::new(DEFAULT_SHIFT_DURATION_NANOS)
    }
}

impl ShiftCondition for ShiftByDuration {
    /// The clock, not the state, decides, so no spec over the state can
    /// pin the answer; the comparison of the drawn reading against the
    /// window is [`window_tripped`], whose contract is exact.
    open spec fn decision(&self, r: bool) -> bool {
        true
    }

    /// Recording an insertion changes nothing.
    open spec fn incremented(&self, next: Self) -> bool {
        next == *self
    }

    /// A rotation keeps the window length; the timestamp is a fresh
    /// clock reading.
    open spec fn reset(&self, next: Self) -> bool {
        next.duration_nanos == self.duration_nanos
    }

    open spec fn ready(&self) -> bool {
        true
    }

    /// True when at least the configured span has elapsed since the last
    /// rotation (or construction): the clock reading is drawn here, and
    /// [`window_tripped`] makes the verified comparison.
    fn should_shift(&self) -> (r: bool) {
        let elapsed: u128 = self.last_shift.elapsed().as_nanos();
        window_tripped(elapsed, self.duration_nanos)
    }

    /// Restart the window at the clock's reading now.
    fn do_shift(&mut self) {
        self.last_shift = std::time::Instant::now();
    }

    /// Insertions are not counted by this strategy.
    fn increment(&mut self) {
    }
}

/// Shift condition that rotates the window after a configured number of
/// insertions.
pub struct ShiftByInsertions {
    /// The configured limit: the window rotates on the insertion that
    /// reaches it.
    pub insertions: usize,
    /// Insertions recorded since the last rotation.
    pub insertion_count: usize,
}

impl ShiftByInsertions {
    /// Create a shift condition that rotates the window after the given
    /// number of insertions.
    pub fn new(limit: usize) -> (r: Self)
        ensures
            r.insertions == limit,
            r.insertion_count == 0,
    {
        ShiftByInsertions { insertions: limit, insertion_count: 0 }
    }
}

impl Default for ShiftByInsertions {
    /// The default limit: 4096 insertions per window.
    fn default() -> (r: Self)
        ensures
            r.insertions == DEFAULT_SHIFT_INSERTIONS,
            r.insertion_count == 0,
    {
        ShiftByInsertions { insertions: DEFAULT_SHIFT_INSERTIONS, insertion_count: 0 }
    }
}

impl ShiftCondition for ShiftByInsertions {
    /// The state alone decides: the answer is true exactly when the
    /// count has reached the limit.
    open spec fn decision(&self, r: bool) -> bool {
        r == (self.insertion_count >= self.insertions)
    }

    /// Recording an insertion adds one to the count.
    open spec fn incremented(&self, next: Self) -> bool {
        next.insertions == self.insertions && next.insertion_count == self.insertion_count + 1
    }

    /// A rotation resets the count to zero.
    open spec fn reset(&self, next: Self) -> bool {
        next.insertions == self.insertions && next.insertion_count == 0
    }

    /// The counter must not overflow.
    open spec fn ready(&self) -> bool {
        self.insertion_count < usize::MAX
    }

    /// Since the count is incremented before it is checked, the window
    /// must already rotate when the count equals the limit.
    fn should_shift(&self) -> (r: bool) {
        self.insertion_count >= self.insertions
    }

    fn do_shift(&mut self) {
        self.insertion_count = 0;
    }

    fn increment(&mut self) {
        self.insertion_count = self.insertion_count + 1;
    }
}

} // verus!
