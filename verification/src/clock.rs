//! Scheduling clocks: the monotonic clock, its accelerated variant for simulation,
//! and a deterministic manual clock for tests.
use vstd::prelude::*;

use std::sync::{Arc, Condvar, Mutex};
use std::time::Instant;

verus! {

/// A signed span of time in nanoseconds.
#[derive(Debug, Clone, Copy, PartialEq, Eq, Structural, Default)]
pub struct Duration {
    nanos: i64,
}

impl Duration {
    /// The zero duration.
    pub fn zero() -> (r: Self)
        ensures
            r.nanos_spec() == 0,
    {
        Duration { nanos: 0 }
    }

    pub closed spec fn nanos_spec(self) -> i64 {
        self.nanos
    }

    pub fn from_nanos(nanos: i64) -> (r: Self)
        ensures
            r.nanos_spec() == nanos,
    {
        Duration { nanos }
    }

    pub fn from_millis(millis: i64) -> (r: Self)
        requires
            i64::MIN <= millis * 1_000_000 <= i64::MAX,
        ensures
            r.nanos_spec() == millis * 1_000_000,
    {
        Duration { nanos: millis * 1_000_000 }
    }

    pub fn as_nanos(&self) -> (r: i64)
        ensures
            r == self.nanos_spec(),
    {
        self.nanos
    }
}

/// Clock interface for resource scheduling.
pub trait Clock {
    /// Return the current time for scheduling.
    fn now(&self) -> Duration;

    /// Sleep until the given deadline.
    fn sleep_until(&self, deadline: Duration);

    /// Wake any sleepers (best-effort).
    fn wake(&self) {
    }
}

#[verifier::external_type_specification]
#[verifier::external_body]
pub struct ExInstant(std::time::Instant);

/// `Instant` is `Copy`: its `clone` hands back the same instant.
pub assume_specification[ <std::time::Instant as Clone>::clone ](i: &Instant) -> (r: Instant)
    ensures
        r == *i,
;

/// `Instant::now`: nothing is claimed of the instant read.
#[verifier::external_body]
fn instant_now() -> (r: Instant) {
    Instant::now()
}

/// `Instant::elapsed` in whole nanoseconds: nothing is claimed of the time read.
#[verifier::external_body]
fn elapsed_nanos(start: &Instant) -> (r: u128) {
    start.elapsed().as_nanos()
}

/// Blocks the calling thread for `nanos` nanoseconds: `Receiver::recv_timeout` on a
/// channel whose sender stays alive and silent, so the call returns when the
/// timeout has elapsed. Nothing is claimed.
#[verifier::external_body]
fn block_for_nanos(nanos: u64) {
    let (_sender, receiver) = std::sync::mpsc::channel::<()>();
    let _ = receiver.recv_timeout(std::time::Duration::from_nanos(nanos));
}

/// Elapsed nanoseconds as a clock reading: clamped to the largest `i64`.
pub open spec fn clamp_nanos(n: nat) -> i64 {
    if n <= i64::MAX {
        n as i64
    } else {
        i64::MAX
    }
}

/// How long the monotonic clock sleeps to reach `deadline` from `now`: nothing when
/// the deadline has passed, otherwise the gap (at most `u64::MAX`).
pub open spec fn std_sleep_nanos(deadline: i64, now: i64) -> nat {
    let delta = deadline - now;
    if delta <= 0 {
        0
    } else if delta <= u64::MAX {
        delta as nat
    } else {
        u64::MAX as nat
    }
}

pub fn std_sleep_delta(deadline: i64, now: i64) -> (r: u64)
    ensures
        r == std_sleep_nanos(deadline, now),
{
    let delta: i128 = deadline as i128 - now as i128;
    if delta <= 0 {
        0
    } else {
        delta as u64
    }
}

/// Monotonic clock based on `std::time::Instant`.
#[derive(Debug, Clone)]
pub struct StdClock {
    start: Instant,
}

impl StdClock {
    pub fn new() -> (r: Self) {
        StdClock { start: instant_now() }
    }
}

impl Clock for StdClock {
    /// The nanoseconds elapsed since the clock was made, clamped to the largest
    /// `i64`; how many have elapsed is the machine's to say.
    fn now(&self) -> (r: Duration)
        ensures
            exists|e: nat| r.nanos_spec() == #[trigger] clamp_nanos(e),
    {
        let elapsed = elapsed_nanos(&self.start);
        let nanos: i64 = if elapsed <= i64::MAX as u128 {
            elapsed as i64
        } else {
            i64::MAX
        };
        assert(nanos == clamp_nanos(elapsed as nat));
        Duration::from_nanos(nanos)
    }

    fn sleep_until(&self, deadline: Duration) {
        let now = self.now();
        let delta = std_sleep_delta(deadline.as_nanos(), now.as_nanos());
        if delta == 0 {
            return;
        }
        block_for_nanos(delta);
    }
}

/// A simulated reading: real_nanos elapsed nanoseconds times the scale, clamped to the
/// largest `i64`.
pub open spec fn scaled_nanos(elapsed: nat, scale: nat) -> i64 {
    clamp_nanos(elapsed * scale)
}

/// Real nanoseconds to sleep for a simulated gap: the gap divided by the scale,
/// rounded up.
pub open spec fn scaled_sleep_nanos(deadline: i64, now: i64, scale: nat) -> nat {
    let gap = if deadline - now < i64::MIN {
        i64::MIN as int
    } else if deadline - now > i64::MAX {
        i64::MAX as int
    } else {
        deadline - now
    };
    if gap <= 0 || scale == 0 {
        0
    } else {
        ((gap + scale - 1) / (scale as int)) as nat
    }
}

pub fn scaled_now_nanos(elapsed: u128, scale: u32) -> (r: i64)
    ensures
        r == scaled_nanos(elapsed as nat, scale as nat),
{
    let sc: u128 = scale as u128;
    let product: u128 = if elapsed > 0 && sc > u128::MAX / elapsed {
        assert(elapsed * sc > u128::MAX) by (nonlinear_arith)
            requires
                elapsed > 0,
                sc > u128::MAX / elapsed,
        ;
        u128::MAX
    } else {
        assert(elapsed * sc <= u128::MAX) by (nonlinear_arith)
            requires
                elapsed == 0 || sc <= u128::MAX / elapsed,
        ;
        elapsed * sc
    };
    if product <= i64::MAX as u128 {
        product as i64
    } else {
        i64::MAX
    }
}

pub fn scaled_sleep_delta(deadline: i64, now: i64, scale: u32) -> (r: u64)
    requires
        scale >= 1,
    ensures
        r == scaled_sleep_nanos(deadline, now, scale as nat),
        r > 0 <==> deadline > now,
{
    let wide: i128 = deadline as i128 - now as i128;
    let gap: i64 = if wide > i64::MAX as i128 {
        i64::MAX
    } else if wide < i64::MIN as i128 {
        i64::MIN
    } else {
        wide as i64
    };
    if gap <= 0 {
        return 0;
    }
    let s: i128 = scale as i128;
    let real_nanos: i128 = (gap as i128 + s - 1) / s;
    assert(1 <= (gap + s - 1) / (s as int) <= gap) by (nonlinear_arith)
        requires
            gap >= 1,
            s >= 1,
    ;
    real_nanos as u64
}

/// Monotonic clock with simulation time acceleration.
#[derive(Debug, Clone)]
pub struct ScaledClock {
    start: Instant,
    scale: u32,
}

impl ScaledClock {
    pub closed spec fn scale_spec(&self) -> u32 {
        self.scale
    }

    /// A clock running `scale` times faster than real_nanos time (a scale of zero is
    /// taken as one).
    pub fn new(scale: u32) -> (r: Self)
        ensures
            r.scale_spec() == if scale == 0 {
                1
            } else {
                scale
            },
    {
        let scale = if scale < 1 {
            1
        } else {
            scale
        };
        ScaledClock { start: instant_now(), scale }
    }

    pub fn scale(&self) -> (r: u32)
        ensures
            r == self.scale_spec(),
    {
        self.scale
    }
}

impl Clock for ScaledClock {
    /// The real nanoseconds elapsed since the clock was made times the scale,
    /// clamped to the largest `i64`; how many have elapsed is the machine's to say.
    fn now(&self) -> (r: Duration)
        ensures
            exists|e: nat| r.nanos_spec() == #[trigger] scaled_nanos(e, self.scale_spec() as nat),
    {
        let elapsed = elapsed_nanos(&self.start);
        let n = scaled_now_nanos(elapsed, self.scale);
        assert(n == scaled_nanos(elapsed as nat, self.scale_spec() as nat));
        Duration::from_nanos(n)
    }

    fn sleep_until(&self, deadline: Duration) {
        let now = self.now();
        let scale = if self.scale < 1 {
            1
        } else {
            self.scale
        };
        let real_nanos = scaled_sleep_delta(deadline.as_nanos(), now.as_nanos(), scale);
        if real_nanos == 0 {
            return;
        }
        block_for_nanos(real_nanos);
    }
}

/// A simulated sleep never takes longer in real_nanos time than the same gap on the
/// monotonic clock: dividing by a scale of at least one only shortens it.
pub proof fn law_scaled_sleep_is_no_longer(deadline: i64, now: i64, scale: nat)
    requires
        scale >= 1,
    ensures
        scaled_sleep_nanos(deadline, now, scale) <= std_sleep_nanos(deadline, now),
        scale > 1 && deadline - now > 1 ==> scaled_sleep_nanos(deadline, now, scale)
            < std_sleep_nanos(deadline, now),
{
    let delta = deadline - now;
    let gap: int = if delta > i64::MAX {
        i64::MAX as int
    } else {
        delta
    };
    if delta > 0 {
        assert(delta <= u64::MAX);
        assert(gap <= delta);
        assert((gap + scale - 1) / (scale as int) <= gap) by (nonlinear_arith)
            requires
                gap >= 1,
                scale >= 1,
        ;
        if scale > 1 && delta > 1 {
            assert((gap + scale - 1) / (scale as int) < gap) by (nonlinear_arith)
                requires
                    gap >= 2,
                    scale >= 2,
            ;
        }
    }
}

/// The scaled reading never goes down: more elapsed real time, or a larger
/// scale, gives a reading no smaller than before.
pub proof fn law_scaled_now_monotonic(e1: nat, e2: nat, s1: nat, s2: nat)
    requires
        e1 <= e2,
        s1 <= s2,
    ensures
        scaled_nanos(e1, s1) <= scaled_nanos(e2, s2),
{
    assert(e1 * s1 <= e2 * s2) by (nonlinear_arith)
        requires
            e1 <= e2,
            s1 <= s2,
    ;
}

// ---------------------------------------------------------------------------
// Manual clock
// ---------------------------------------------------------------------------

/// The state a manual clock shares between its handles.
#[derive(Debug, Clone, Copy, PartialEq, Eq, Structural, Default)]
pub struct ManualClockState {
    pub now: Duration,
    pub sleep_calls: u64,
    pub interrupted: bool,
}

pub open spec fn saturating_nanos(a: i64, b: i64) -> i64 {
    if a + b > i64::MAX {
        i64::MAX
    } else if a + b < i64::MIN {
        i64::MIN
    } else {
        (a + b) as i64
    }
}

impl ManualClockState {
    pub closed spec fn advanced(self, delta: Duration) -> ManualClockState {
        ManualClockState {
            now: Duration { nanos: saturating_nanos(self.now.nanos, delta.nanos) },
            ..self
        }
    }

    pub open spec fn slept(self) -> ManualClockState {
        ManualClockState {
            sleep_calls: if self.sleep_calls == u64::MAX {
                u64::MAX
            } else {
                (self.sleep_calls + 1) as u64
            },
            ..self
        }
    }

    /// A sleeper waiting for `deadline` stays blocked in this state.
    pub closed spec fn blocks(self, deadline: Duration) -> bool {
        !self.interrupted && self.now.nanos < deadline.nanos
    }

    /// Advances the time by `delta`, saturating; returns the new time.
    pub fn advance(self, delta: Duration) -> (r: (ManualClockState, Duration))
        ensures
            r.0 == self.advanced(delta),
            r.1 == r.0.now,
    {
        let sum: i128 = self.now.nanos as i128 + delta.nanos as i128;
        let nanos: i64 = if sum > i64::MAX as i128 {
            i64::MAX
        } else if sum < i64::MIN as i128 {
            i64::MIN
        } else {
            sum as i64
        };
        let next = Duration { nanos };
        (ManualClockState { now: next, ..self }, next)
    }

    pub fn with_time(self, time: Duration) -> (r: (ManualClockState, ()))
        ensures
            r.0 == (ManualClockState { now: time, ..self }),
    {
        (ManualClockState { now: time, ..self }, ())
    }

    pub fn interrupted(self) -> (r: (ManualClockState, ()))
        ensures
            r.0 == (ManualClockState { interrupted: true, ..self }),
    {
        (ManualClockState { interrupted: true, ..self }, ())
    }

    pub fn record_sleep(self) -> (r: (ManualClockState, ()))
        ensures
            r.0 == self.slept(),
    {
        let calls = if self.sleep_calls == u64::MAX {
            u64::MAX
        } else {
            self.sleep_calls + 1
        };
        (ManualClockState { sleep_calls: calls, ..self }, ())
    }

    pub fn read_time(self) -> (r: (ManualClockState, Duration))
        ensures
            r.0 == self,
            r.1 == self.now,
    {
        (self, self.now)
    }

    pub fn read_sleep_calls(self) -> (r: (ManualClockState, u64))
        ensures
            r.0 == self,
            r.1 == self.sleep_calls,
    {
        (self, self.sleep_calls)
    }

    pub fn is_blocked(&self, deadline: Duration) -> (r: bool)
        ensures
            r == self.blocks(deadline),
    {
        !self.interrupted && self.now.nanos < deadline.nanos
    }
}

/// Advancing never moves a manual clock backwards, and an interrupt releases every
/// sleeper whatever its deadline.
pub proof fn law_manual_clock(s: ManualClockState, delta: Duration, deadline: Duration)
    ensures
        delta.nanos_spec() >= 0 ==> s.advanced(delta).now.nanos_spec() >= s.now.nanos_spec(),
        !(ManualClockState { interrupted: true, ..s }).blocks(deadline),
        s.advanced(delta).now.nanos_spec() >= deadline.nanos_spec() ==> !s.advanced(
            delta,
        ).blocks(deadline),
{
}

#[verifier::external_type_specification]
#[verifier::external_body]
#[verifier::reject_recursive_types(T)]
pub struct ExMutex<T: ?Sized>(std::sync::Mutex<T>);

#[verifier::external_type_specification]
#[verifier::external_body]
pub struct ExCondvar(std::sync::Condvar);

pub assume_specification<T>[ std::sync::Mutex::<T>::new ](t: T) -> Mutex<T>;

pub assume_specification[ std::sync::Condvar::new ]() -> Condvar;

pub assume_specification[ std::sync::Condvar::notify_all ](cvar: &Condvar);

/// `Mutex::lock` around one state transition: the lock is taken (a poisoned lock
/// panics, as it did before), `f` maps the state held to the next state and a
/// result, the next state is stored and the result returned. What state was held
/// is not known here: other handles change it.
#[verifier::external_body]
pub(crate) fn locked_transition<S: Default, R, F: FnOnce(S) -> (S, R)>(
    lock: &Mutex<S>,
    f: F,
) -> (r: R)
    requires
        forall|s: S| f.requires((s,)),
    ensures
        exists|s: S, t: S| f.ensures((s,), (t, r)),
{
    let mut guard = lock.lock().expect("lock poisoned");
    let (next, r) = f(std::mem::take(&mut *guard));
    *guard = next;
    r
}

/// `Condvar::wait_while`: blocks while `blocked` holds of the shared state. Nothing
/// is claimed.
#[verifier::external_body]
fn wait_while_blocked<F: FnMut(&mut ManualClockState) -> bool>(
    lock: &Mutex<ManualClockState>,
    cvar: &Condvar,
    blocked: F,
) {
    let guard = lock.lock().expect("manual clock lock poisoned");
    let _guard = cvar.wait_while(guard, blocked).expect("manual clock wait poisoned");
}

/// Deterministic clock for tests and simulations: time moves only when told to.
#[derive(Debug, Clone)]
pub struct ManualClock {
    inner: Arc<(Mutex<ManualClockState>, Condvar)>,
}

impl ManualClock {
    pub fn new() -> (r: Self) {
        let state = ManualClockState { now: Duration::zero(), sleep_calls: 0, interrupted: false };
        ManualClock { inner: Arc::new((Mutex::new(state), Condvar::new())) }
    }

    /// Return the current manual time.
    pub fn current_time(&self) -> (r: Duration)
        ensures
            exists|s: ManualClockState| r == s.now,
    {
        let (lock, _) = &*self.inner;
        locked_transition(lock, |s: ManualClockState| -> (r: (ManualClockState, Duration))
            ensures
                r.0 == s,
                r.1 == s.now,
            { s.read_time() })
    }

    /// Advance time by the given delta (saturating); returns the new time.
    pub fn advance(&self, delta: Duration) -> (r: Duration)
        ensures
            exists|s: ManualClockState| r == s.advanced(delta).now,
    {
        let (lock, cvar) = &*self.inner;
        let r = locked_transition(lock, |s: ManualClockState| -> (r: (ManualClockState, Duration))
            ensures
                r.0 == s.advanced(delta),
                r.1 == r.0.now,
            { s.advance(delta) });
        cvar.notify_all();
        r
    }

    /// Set the current time explicitly.
    pub fn set_time(&self, time: Duration) {
        let (lock, cvar) = &*self.inner;
        locked_transition(lock, |s: ManualClockState| -> (r: (ManualClockState, ()))
            ensures
                r.0 == (ManualClockState { now: time, ..s }),
            { s.with_time(time) });
        cvar.notify_all();
    }

    /// Number of sleep calls issued to this clock.
    pub fn sleep_calls(&self) -> (r: u64)
        ensures
            exists|s: ManualClockState| r == s.sleep_calls,
    {
        let (lock, _) = &*self.inner;
        locked_transition(lock, |s: ManualClockState| -> (r: (ManualClockState, u64))
            ensures
                r.0 == s,
                r.1 == s.sleep_calls,
            { s.read_sleep_calls() })
    }

    /// Interrupt sleepers so they can exit.
    pub fn interrupt(&self) {
        let (lock, cvar) = &*self.inner;
        locked_transition(lock, |s: ManualClockState| -> (r: (ManualClockState, ()))
            ensures
                r.0 == (ManualClockState { interrupted: true, ..s }),
            { s.interrupted() });
        cvar.notify_all();
    }
}

impl Clock for ManualClock {
    fn now(&self) -> (r: Duration) {
        self.current_time()
    }

    fn sleep_until(&self, deadline: Duration) {
        let (lock, cvar) = &*self.inner;
        locked_transition(lock, |s: ManualClockState| -> (r: (ManualClockState, ()))
            ensures
                r.0 == s.slept(),
            { s.record_sleep() });
        wait_while_blocked(lock, cvar, |s: &mut ManualClockState| -> (r: bool)
            ensures
                r == old(s).blocks(deadline),
            { s.is_blocked(deadline) });
    }

    fn wake(&self) {
        self.interrupt();
    }
}

} // verus!
