//! Pacing and reconnection policy of the overlay backends.
//!
//! One attempt is a live session with the display server; its death does not
//! kill the daemon: the application is told that its output was lost and the
//! session is recreated after a pause from the back-off ladder. Durations are
//! in milliseconds.

use vstd::prelude::*;

verus! {

/// Desired simulation pace (energy budget: a sleeping pet must not wake the
/// CPU thirty times a second).
#[derive(Debug, Clone, Copy, PartialEq, Eq, Structural)]
pub enum Pace {
    /// Movement, falling, dragging: ~30 Hz.
    Active,
    /// Quiet idle: ~5 Hz.
    Calm,
    /// Sleep or pet dismissed: ~1 Hz.
    Drowsy,
}

pub const ACTIVE_TICK_MS: u64 = 33;
pub const CALM_TICK_MS: u64 = 200;
pub const DROWSY_TICK_MS: u64 = 1000;

pub open spec fn pace_spec(pace: Pace) -> u64 {
    match pace {
        Pace::Active => 33,
        Pace::Calm => 200,
        Pace::Drowsy => 1000,
    }
}

/// Tick period for the application's pace.
pub fn pace_delay(pace: Pace) -> (r: u64)
    ensures
        r == pace_spec(pace),
{
    match pace {
        Pace::Active => ACTIVE_TICK_MS,
        Pace::Calm => CALM_TICK_MS,
        Pace::Drowsy => DROWSY_TICK_MS,
    }
}

/// A session that lived longer than this counts as stable: the ladder
/// starts over.
pub const BACKOFF_STABLE_MS: u64 = 60_000;

/// Pauses before reconnecting: 1 s, 2 s, 5 s, 10 s, 30 s.
pub open spec fn ladder(step: int) -> u64 {
    if step <= 0 {
        1000
    } else if step == 1 {
        2000
    } else if step == 2 {
        5000
    } else if step == 3 {
        10_000
    } else {
        30_000
    }
}

/// Back-off ladder: 1 s -> 2 s -> 5 s -> 10 s -> 30 s (ceiling); an attempt
/// that lived longer than a minute returns the ladder to its start.
pub struct Backoff {
    step: usize,
}

impl Backoff {
    pub closed spec fn step(&self) -> int {
        self.step as int
    }

    pub closed spec fn wf(&self) -> bool {
        self.step <= 4
    }

    pub fn new() -> (r: Self)
        ensures
            r.wf(),
            r.step() == 0,
    {
        Backoff { step: 0 }
    }

    /// Pause after an attempt that ran for `ran_ms`.
    pub fn after_attempt(&mut self, ran_ms: u64) -> (delay: u64)
        requires
            old(self).wf(),
        ensures
            final(self).wf(),
            delay == delay_after(old(self).step(), ran_ms),
            final(self).step() == step_after(old(self).step(), ran_ms),
    {
        if ran_ms > BACKOFF_STABLE_MS {
            self.step = 0;
        }
        let delay = if self.step == 0 {
            1000
        } else if self.step == 1 {
            2000
        } else if self.step == 2 {
            5000
        } else if self.step == 3 {
            10_000
        } else {
            30_000
        };
        self.step = if self.step + 1 <= 4 { self.step + 1 } else { 4 };
        delay
    }
}

/// Rung of the ladder an attempt starts from: the bottom after a stable
/// session.
pub open spec fn start_rung(step: int, ran_ms: u64) -> int {
    if ran_ms > BACKOFF_STABLE_MS { 0 } else { step }
}

/// Pause after an attempt that ran `ran_ms`, on rung `step`.
pub open spec fn delay_after(step: int, ran_ms: u64) -> u64 {
    ladder(start_rung(step, ran_ms))
}

/// Rung after such an attempt: one up, at most the top.
pub open spec fn step_after(step: int, ran_ms: u64) -> int {
    let s = start_rung(step, ran_ms);
    if s + 1 <= 4 { s + 1 } else { 4 }
}

/// Rung after `k` attempts in a row that died quickly, from a new ladder.
pub open spec fn rung_after_quick(k: nat) -> int
    decreases k,
{
    if k == 0 { 0 } else { step_after(rung_after_quick((k - 1) as nat), 0) }
}

/// Quick deaths climb the ladder one rung each, 1 s, 2 s, 5 s, 10 s, then
/// stay at 30 s; a session that lived longer than a minute restarts the ladder
/// at one second, whatever rung it was on.
pub proof fn law_backoff_ladder_caps_and_resets(k: nat, step: int, ran_ms: u64)
    requires
        0 <= step <= 4,
    ensures
        rung_after_quick(k) == (if k <= 4 { k as int } else { 4 }),
        k == 0 ==> delay_after(rung_after_quick(k), 0) == 1000,
        k == 1 ==> delay_after(rung_after_quick(k), 0) == 2000,
        k == 2 ==> delay_after(rung_after_quick(k), 0) == 5000,
        k == 3 ==> delay_after(rung_after_quick(k), 0) == 10_000,
        k >= 4 ==> delay_after(rung_after_quick(k), 0) == 30_000,
        ran_ms > BACKOFF_STABLE_MS ==> delay_after(step, ran_ms) == 1000 && step_after(step, ran_ms) == 1,
        ran_ms <= BACKOFF_STABLE_MS ==> delay_after(step, ran_ms) >= delay_after(0, 0),
    decreases k,
{
    if k > 0 {
        law_backoff_ladder_caps_and_resets((k - 1) as nat, step, ran_ms);
    }
}

/// How an attempt ended.
#[derive(Debug, Clone, Copy, PartialEq, Eq, Structural)]
pub enum AttemptEnd {
    /// The application asked to exit.
    Exit,
    /// The live session died (connection error, layer closed).
    Lost,
    /// The event loop was never reached (no connection or globals).
    SetupFailed,
}

/// What the supervisor does next.
#[derive(Debug, Clone, Copy, PartialEq, Eq, Structural)]
pub enum NextStep {
    /// Return normally: the application is done.
    Finish,
    /// Return the attempt's error: retrying is pointless.
    Fail,
    /// Wait the back-off pause and try again.
    Retry,
}

/// How an attempt whose event loop returned ended: the application asked
/// to exit, or else the session counts as lost (with the recorded reason,
/// the loop's error, or no reason at all).
pub fn attempt_outcome(exit_requested: bool) -> (r: AttemptEnd)
    ensures
        r == (if exit_requested { AttemptEnd::Exit } else { AttemptEnd::Lost }),
{
    if exit_requested { AttemptEnd::Exit } else { AttemptEnd::Lost }
}

/// After attempt number `attempt_no` (from 1) ended with `end`. For a lost
/// session the application has been told (`app_continues` is its answer,
/// false when it wants to exit). Only a first attempt that could not even
/// start is an error; later setup failures are retried (the display server
/// may still be starting).
pub fn after_attempt_end(end: AttemptEnd, attempt_no: u64, app_continues: bool) -> (r: NextStep)
    ensures
        end == AttemptEnd::Exit ==> r == NextStep::Finish,
        end == AttemptEnd::Lost ==> r == (if app_continues { NextStep::Retry } else { NextStep::Finish }),
        end == AttemptEnd::SetupFailed ==> r == (if attempt_no == 1 { NextStep::Fail } else { NextStep::Retry }),
{
    match end {
        AttemptEnd::Exit => NextStep::Finish,
        AttemptEnd::Lost => if app_continues { NextStep::Retry } else { NextStep::Finish },
        AttemptEnd::SetupFailed => if attempt_no == 1 { NextStep::Fail } else { NextStep::Retry },
    }
}


/// Slice of the pause between attempts: the application keeps ticking so
/// that its queues (the control socket) stay responsive without a display.
pub const LOST_TICK_MS: u64 = 250;

/// One step of the pause between attempts.
#[derive(Debug, Clone, Copy, PartialEq, Eq, Structural)]
pub enum LostWait {
    /// The application asked to exit: stop supervising.
    Exit,
    /// The pause is over: try again.
    Retry,
    /// Sleep this long, then tick the application and ask again.
    Sleep(u64),
}

/// The pause step with `left_ms` of the pause left.
pub fn lost_wait_step(wants_exit: bool, left_ms: u64) -> (r: LostWait)
    ensures
        r == (if wants_exit {
            LostWait::Exit
        } else if left_ms == 0 {
            LostWait::Retry
        } else {
            LostWait::Sleep(if left_ms < LOST_TICK_MS { left_ms } else { LOST_TICK_MS })
        }),
{
    if wants_exit {
        LostWait::Exit
    } else if left_ms == 0 {
        LostWait::Retry
    } else {
        LostWait::Sleep(if left_ms < LOST_TICK_MS { left_ms } else { LOST_TICK_MS })
    }
}

/// Deadline of the next simulation tick of a backend that runs its own
/// poll loop (X11), in milliseconds of a monotonic clock.
#[derive(Debug, Clone, Copy, PartialEq, Eq, Structural)]
pub struct TickClock {
    pub next_tick_ms: u64,
}

/// The deadline after an event woke the application: when its new pace is
/// shorter than what is left until the deadline, it ticks at once.
pub open spec fn escalated_deadline(next_tick_ms: u64, now_ms: u64, pace_ms: u64) -> u64 {
    if now_ms + pace_ms < next_tick_ms { now_ms } else { next_tick_ms }
}

impl TickClock {
    /// The first tick is due at once.
    pub fn start(now_ms: u64) -> (r: Self)
        ensures
            r.next_tick_ms == now_ms,
    {
        TickClock { next_tick_ms: now_ms }
    }

    /// The tick is due.
    pub fn due(&self, now_ms: u64) -> (r: bool)
        ensures
            r == (now_ms >= self.next_tick_ms),
    {
        now_ms >= self.next_tick_ms
    }

    /// After a tick the next one is one period of the application's pace
    /// away.
    pub fn after_tick(&mut self, now_ms: u64, pace: Pace)
        ensures
            final(self).next_tick_ms == (if now_ms + pace_spec(pace) > u64::MAX {
                u64::MAX
            } else {
                (now_ms + pace_spec(pace)) as u64
            }),
    {
        let p = pace_delay(pace);
        self.next_tick_ms = if now_ms > u64::MAX - p { u64::MAX } else { now_ms + p };
    }

    /// An event may have woken the application (sleep -> drag): tick at
    /// once if its pace is now shorter than the wait.
    pub fn escalate(&mut self, now_ms: u64, pace: Pace)
        ensures
            final(self).next_tick_ms == escalated_deadline(old(self).next_tick_ms, now_ms, pace_spec(pace)),
    {
        let p = pace_delay(pace);
        if now_ms < self.next_tick_ms && self.next_tick_ms - now_ms > p {
            self.next_tick_ms = now_ms;
        }
    }

    /// How long to wait on the connection before the next tick.
    pub fn wait_ms(&self, now_ms: u64) -> (r: u64)
        ensures
            r == (if self.next_tick_ms > now_ms { self.next_tick_ms - now_ms } else { 0 }),
    {
        if self.next_tick_ms > now_ms { self.next_tick_ms - now_ms } else { 0 }
    }
}

/// A backend whose timer is armed for `armed_ms` re-arms it at once when the
/// application's pace became shorter (Wayland).
pub fn rearm_now(pace: Pace, armed_ms: u64) -> (r: bool)
    ensures
        r == (pace_spec(pace) < armed_ms),
{
    pace_delay(pace) < armed_ms
}

/// Escalation never postpones a tick, and after it the wait is at most one
/// period of the new pace.
pub proof fn law_escalation_never_delays(next_tick_ms: u64, now_ms: u64, pace: Pace)
    ensures
        escalated_deadline(next_tick_ms, now_ms, pace_spec(pace)) <= next_tick_ms,
        escalated_deadline(next_tick_ms, now_ms, pace_spec(pace)) <= now_ms + pace_spec(pace),
{
}

/// Display server to draw on.
#[derive(Debug, Clone, Copy, PartialEq, Eq, Structural)]
pub enum BackendKind {
    Wayland,
    X11,
}

/// The backend for the session, from the values of `WAYLAND_DISPLAY` and
/// `DISPLAY` (`None` when unset): Wayland first (on a Wayland session
/// `DISPLAY` is XWayland, which cannot draw over the screen), then X11;
/// neither set (or both empty) means there is no graphical session.
pub fn choose_backend(wayland_display: Option<&str>, display: Option<&str>) -> (r: Option<BackendKind>)
    ensures
        r == (if wayland_display is Some && wayland_display.unwrap()@.len() > 0 {
            Some(BackendKind::Wayland)
        } else if display is Some && display.unwrap()@.len() > 0 {
            Some(BackendKind::X11)
        } else {
            None
        }),
{
    let wl = match wayland_display {
        Some(v) => !v.is_empty(),
        None => false,
    };
    if wl {
        return Some(BackendKind::Wayland);
    }
    let x = match display {
        Some(v) => !v.is_empty(),
        None => false,
    };
    if x { Some(BackendKind::X11) } else { None }
}

} // verus!
