//! The timing of a dodge: how long a dash lasts, the cooldown that follows
//! it, and when a requested dodge starts.
use crate::time_span::{saturating_span_add, TimeSpan, NANOS_PER_SEC};
use bevy::time::{Timer, TimerMode};
use core::time::Duration;
use vstd::prelude::*;

verus! {

/// A dodge may start only when none is under way, the cooldown of the last
/// one has run out, and there is a direction to dodge in.
pub open spec fn dodge_allowed(active: bool, ready: bool, direction_is_zero: bool) -> bool {
    !active && ready && !direction_is_zero
}

/// Whether a requested dodge starts: `active` says a dodge is under way,
/// `ready` that the cooldown has run out, `direction_is_zero` that no
/// direction is held. Any other request is ignored.
pub fn dodge_may_start(active: bool, ready: bool, direction_is_zero: bool) -> (r: bool)
    ensures
        r == dodge_allowed(active, ready, direction_is_zero),
{
    !(active || !ready || direction_is_zero)
}

/// A one-shot timer, seen from outside: its duration and the time elapsed on
/// it (in nanoseconds), and whether the last tick made it reach its duration.
/// It is finished once the elapsed time reaches the duration.
pub struct OnceTimerView {
    pub duration: nat,
    pub elapsed: nat,
    pub just_finished: bool,
}

pub open spec fn timer_finished(t: OnceTimerView) -> bool {
    t.elapsed >= t.duration
}

/// What ticking a one-shot timer of `duration` nanoseconds, with `elapsed`
/// nanoseconds elapsed, by `delta` nanoseconds gives: whether it reached its
/// duration on this tick, and the time elapsed afterwards. A finished timer
/// stays as it is; otherwise the elapsed time grows (saturating) and stops at
/// the duration.
pub open spec fn once_tick(duration: nat, elapsed: nat, delta: nat) -> (bool, nat) {
    if elapsed >= duration {
        (false, elapsed)
    } else {
        let t = saturating_span_add(elapsed, delta);
        if t >= duration {
            (true, duration)
        } else {
            (false, t)
        }
    }
}

/// `t` after a tick of `delta` nanoseconds.
pub open spec fn ticked(t: OnceTimerView, delta: nat) -> OnceTimerView {
    let (just, elapsed) = once_tick(t.duration, t.elapsed, delta);
    OnceTimerView { elapsed, just_finished: just, ..t }
}

/// `t` restarted: nothing elapsed, not finished.
pub open spec fn restarted(t: OnceTimerView) -> OnceTimerView {
    OnceTimerView { elapsed: 0, just_finished: false, ..t }
}

/// Ticks a one-shot Bevy timer held as plain values: builds it with
/// `Timer::new(duration, TimerMode::Once)`, sets its elapsed time with
/// `Timer::set_elapsed`, lets a zero tick (`Timer::tick`) mark it finished
/// when that time has reached the duration, ticks it by `delta`, and reads
/// back `Timer::just_finished` and `Timer::elapsed` (as whole seconds and
/// nanoseconds). `Timer::tick` leaves a finished one-shot timer as it is, and
/// otherwise saturates the elapsed time and stops it at the duration, as
/// [`once_tick`] says.
#[verifier::external_body]
fn once_timer_tick(
    duration_secs: u64,
    duration_nanos: u32,
    elapsed_secs: u64,
    elapsed_nanos: u32,
    delta_secs: u64,
    delta_nanos: u32,
) -> (r: (bool, u64, u32))
    requires
        duration_nanos < NANOS_PER_SEC,
        elapsed_nanos < NANOS_PER_SEC,
        delta_nanos < NANOS_PER_SEC,
        elapsed_secs as nat * 1_000_000_000nat + elapsed_nanos as nat <= duration_secs as nat
            * 1_000_000_000nat + duration_nanos as nat,
    ensures
        r.2 < NANOS_PER_SEC,
        (r.0, r.1 as nat * 1_000_000_000nat + r.2 as nat) == once_tick(
            duration_secs as nat * 1_000_000_000nat + duration_nanos as nat,
            elapsed_secs as nat * 1_000_000_000nat + elapsed_nanos as nat,
            delta_secs as nat * 1_000_000_000nat + delta_nanos as nat,
        ),
{
    let mut timer = Timer::new(Duration::new(duration_secs, duration_nanos), TimerMode::Once);
    timer.set_elapsed(Duration::new(elapsed_secs, elapsed_nanos));
    timer.tick(Duration::ZERO);
    timer.tick(Duration::new(delta_secs, delta_nanos));
    (timer.just_finished(), timer.elapsed().as_secs(), timer.elapsed().subsec_nanos())
}

/// A one-shot timer with a positive duration, whose elapsed time never passes
/// its duration.
pub struct OnceTimer {
    duration: TimeSpan,
    elapsed: TimeSpan,
    just_finished: bool,
}

impl View for OnceTimer {
    type V = OnceTimerView;

    closed spec fn view(&self) -> OnceTimerView {
        OnceTimerView {
            duration: self.duration@,
            elapsed: self.elapsed@,
            just_finished: self.just_finished,
        }
    }
}

impl OnceTimer {
    #[verifier::type_invariant]
    closed spec fn well_formed(self) -> bool {
        0 < self.duration@ && self.elapsed@ <= self.duration@
    }

    /// A timer of `duration` that has already run out, as if ticked through
    /// its whole duration once.
    fn run_out(duration: TimeSpan) -> (r: OnceTimer)
        requires
            duration@ > 0,
        ensures
            r@ == (OnceTimerView { duration: duration@, elapsed: duration@, just_finished: true }),
    {
        OnceTimer { duration, elapsed: duration, just_finished: true }
    }

    fn tick(&mut self, delta: TimeSpan)
        ensures
            final(self)@ == ticked(old(self)@, delta@),
    {
        proof {
            use_type_invariant(&*self);
            crate::time_span::lemma_parts(self.duration@);
            crate::time_span::lemma_parts(self.elapsed@);
            crate::time_span::lemma_parts(delta@);
        }
        let (just, secs, nanos) = once_timer_tick(
            self.duration.secs(),
            self.duration.subsec_nanos(),
            self.elapsed.secs(),
            self.elapsed.subsec_nanos(),
            delta.secs(),
            delta.subsec_nanos(),
        );
        let elapsed = TimeSpan::new(secs, nanos);
        *self = OnceTimer { duration: self.duration, elapsed, just_finished: just };
    }

    fn reset(&mut self)
        ensures
            final(self)@ == restarted(old(self)@),
    {
        proof {
            use_type_invariant(&*self);
        }
        *self = OnceTimer { duration: self.duration, elapsed: TimeSpan::new(0, 0), just_finished: false };
    }

    fn is_finished(&self) -> (r: bool)
        ensures
            r == timer_finished(self@),
    {
        self.elapsed.at_least(&self.duration)
    }
}

/// The timing of a dodge, seen from outside: the dash timer and the cooldown
/// timer.
pub struct DodgeClockView {
    pub dash: OnceTimerView,
    pub cooldown: OnceTimerView,
}

/// The timers of a dodge clock: both have a positive duration, and neither
/// has more time elapsed than its duration.
pub open spec fn dodge_clock_ok(c: DodgeClockView) -> bool {
    &&& 0 < c.dash.duration
    &&& c.dash.elapsed <= c.dash.duration
    &&& 0 < c.cooldown.duration
    &&& c.cooldown.elapsed <= c.cooldown.duration
}

/// One tick of `dt`: the dash timer moves on; if that ended the dash, the
/// cooldown starts over; then the cooldown timer moves on.
pub open spec fn dodge_clock_tick(c: DodgeClockView, dt: nat) -> DodgeClockView {
    let dash = ticked(c.dash, dt);
    let cooldown = if dash.just_finished {
        restarted(c.cooldown)
    } else {
        c.cooldown
    };
    DodgeClockView { dash, cooldown: ticked(cooldown, dt) }
}

/// The dash and cooldown timers of a dodge.
pub struct DodgeClock {
    dash: OnceTimer,
    cooldown: OnceTimer,
}

impl View for DodgeClock {
    type V = DodgeClockView;

    closed spec fn view(&self) -> DodgeClockView {
        DodgeClockView { dash: self.dash@, cooldown: self.cooldown@ }
    }
}

impl DodgeClock {
    /// Timers for dashes of `dash` and cooldowns of `cooldown`, both already
    /// run out: no dash under way, and ready for one.
    pub fn new(dash: TimeSpan, cooldown: TimeSpan) -> (r: DodgeClock)
        requires
            dash@ > 0,
            cooldown@ > 0,
        ensures
            r@.dash == (OnceTimerView { duration: dash@, elapsed: dash@, just_finished: true }),
            r@.cooldown == (OnceTimerView {
                duration: cooldown@,
                elapsed: cooldown@,
                just_finished: true,
            }),
            dodge_clock_ok(r@),
    {
        let r = DodgeClock { dash: OnceTimer::run_out(dash), cooldown: OnceTimer::run_out(cooldown) };
        proof {
            use_type_invariant(&r.dash);
            use_type_invariant(&r.cooldown);
        }
        r
    }

    /// Moves both timers on by `dt`; a dash that ends on this tick starts the
    /// cooldown over.
    pub fn tick(&mut self, dt: TimeSpan)
        ensures
            final(self)@ == dodge_clock_tick(old(self)@, dt@),
            dodge_clock_ok(final(self)@),
    {
        self.dash.tick(dt);
        if self.dash.just_finished {
            self.cooldown.reset();
        }
        self.cooldown.tick(dt);
        proof {
            use_type_invariant(&self.dash);
            use_type_invariant(&self.cooldown);
        }
    }

    /// A dash is under way until its timer finishes.
    pub fn is_active(&self) -> (r: bool)
        ensures
            r == !timer_finished(self@.dash),
    {
        !self.dash.is_finished()
    }

    /// A new dodge may start once the cooldown timer has finished.
    pub fn is_ready(&self) -> (r: bool)
        ensures
            r == timer_finished(self@.cooldown),
    {
        self.cooldown.is_finished()
    }

    /// The dash ended on the last tick.
    pub fn just_ended(&self) -> (r: bool)
        ensures
            r == self@.dash.just_finished,
    {
        self.dash.just_finished
    }

    /// Asks to start a dodge; `direction_is_zero` says that no direction is
    /// held. It starts (and the dash timer starts over) only when
    /// [`dodge_allowed`]; otherwise nothing changes.
    pub fn request(&mut self, direction_is_zero: bool) -> (r: bool)
        ensures
            r == dodge_allowed(
                !timer_finished(old(self)@.dash),
                timer_finished(old(self)@.cooldown),
                direction_is_zero,
            ),
            r ==> final(self)@ == (DodgeClockView { dash: restarted(old(self)@.dash), ..old(self)@ }),
            !r ==> final(self)@ == old(self)@,
            r ==> !timer_finished(final(self)@.dash),
            dodge_clock_ok(final(self)@),
    {
        proof {
            use_type_invariant(&self.dash);
            use_type_invariant(&self.cooldown);
        }
        if dodge_may_start(self.is_active(), self.is_ready(), direction_is_zero) {
            self.dash.reset();
            true
        } else {
            false
        }
    }
}

/// The tick on which a dash ends restarts the cooldown, so the cooldown that
/// follows a dash is counted from that tick: after it, the cooldown has run
/// for the tick's length (at most its whole duration).
pub proof fn dash_end_restarts_cooldown(c: DodgeClockView, dt: nat)
    requires
        0 < c.cooldown.duration,
        dt <= crate::time_span::span_max(),
    ensures
        ({
            let n = dodge_clock_tick(c, dt);
            n.dash.just_finished ==> n.cooldown == ticked(restarted(c.cooldown), dt)
                && n.cooldown.elapsed == if dt >= c.cooldown.duration {
                c.cooldown.duration
            } else {
                dt
            }
        }),
{
}

} // verus!
