//! Short-lived looks of the pet and the bookkeeping of its sleep.
//!
//! Care shows for a moment: eating after a meal, a happy look after play or
//! a pat, the hatching animation and a greeting bubble. While any of them
//! (or the context menu, or a presence run) lasts, the daemon keeps the
//! active pace; once they expire it falls back to the pet's own pace. A
//! sleep period is logged when it ends, if it lasted long enough. Times are
//! milliseconds of the application's monotonic clock.

use vstd::prelude::*;
use crate::supervise::Pace;

verus! {

/// Eating overlay after a meal.
pub const EATING_MS: u64 = 2_500;
/// Happy look after play.
pub const HAPPY_PLAY_MS: u64 = 2_000;
/// Happy look after a pat.
pub const HAPPY_PET_MS: u64 = 1_200;
/// Hatching animation.
pub const HATCH_MS: u64 = 3_000;
/// Greeting bubble after hatching.
pub const HELLO_HATCH_MS: u64 = 4_000;
/// Greeting bubble when the daemon starts with the pet summoned.
pub const HELLO_START_MS: u64 = 3_000;
/// Shortest sleep that is logged (half a minute): shorter is noise.
pub const SLEPT_MIN_MS: u64 = 30_000;

/// Which overlay action is shown.
#[derive(Debug, Clone, Copy, PartialEq, Eq, Structural)]
pub enum OverlayLook {
    Eating,
    Hatching,
}

/// A time window `[from_ms, until_ms)`.
#[derive(Debug, Clone, Copy, PartialEq, Eq, Structural)]
pub struct Span {
    pub from_ms: u64,
    pub until_ms: u64,
}

/// An overlay action and when it shows.
#[derive(Debug, Clone, Copy, PartialEq, Eq, Structural)]
pub struct Overlay {
    pub look: OverlayLook,
    pub span: Span,
}

/// The pet's short-lived looks.
#[derive(Debug, Clone, Copy, PartialEq, Eq, Structural)]
pub struct Effects {
    /// Overlay action.
    pub overlay: Option<Overlay>,
    /// Greeting bubble.
    pub bubble: Option<Span>,
    /// The pet looks happy until then.
    pub happy_until: Option<u64>,
    /// The context menu is open.
    pub menu_open: bool,
    /// A presence run (off to another device, or back) is playing.
    pub presence_run: bool,
}

/// `a + b`, saturating.
pub open spec fn later(a: u64, b: u64) -> u64 {
    if a + b > u64::MAX { u64::MAX } else { (a + b) as u64 }
}

fn add_ms(a: u64, b: u64) -> (r: u64)
    ensures
        r == later(a, b),
{
    if a > u64::MAX - b { u64::MAX } else { a + b }
}

/// The hatching animation started at `now_ms`.
pub open spec fn hatch_span(now_ms: u64) -> Span {
    Span { from_ms: now_ms, until_ms: later(now_ms, HATCH_MS) }
}

/// The greeting after a hatch started at `now_ms`: right after it.
pub open spec fn hatch_greeting(now_ms: u64) -> Span {
    Span { from_ms: later(now_ms, HATCH_MS), until_ms: later(later(now_ms, HATCH_MS), HELLO_HATCH_MS) }
}

/// Some look, the menu or a presence run keeps the active pace.
pub open spec fn effects_active(e: Effects) -> bool {
    e.menu_open || e.overlay is Some || e.bubble is Some || e.happy_until is Some || e.presence_run
}

/// The effects after `expire` at `now_ms`: each look whose window ended is
/// gone.
pub open spec fn expired(e: Effects, now_ms: u64) -> Effects {
    Effects {
        overlay: match e.overlay {
            Some(o) => if now_ms >= o.span.until_ms { None } else { Some(o) },
            None => None,
        },
        bubble: match e.bubble {
            Some(b) => if now_ms >= b.until_ms { None } else { Some(b) },
            None => None,
        },
        happy_until: match e.happy_until {
            Some(t) => if now_ms >= t { None } else { Some(t) },
            None => None,
        },
        ..e
    }
}

impl Effects {
    /// Nothing showing.
    pub fn new() -> (r: Self)
        ensures
            !effects_active(r),
    {
        Effects { overlay: None, bubble: None, happy_until: None, menu_open: false, presence_run: false }
    }

    /// A meal was logged: a visible, hatched pet eats for a moment.
    pub fn fed(&mut self, now_ms: u64, reactive: bool)
        ensures
            *final(self) == (if reactive {
                Effects {
                    overlay: Some(Overlay { look: OverlayLook::Eating, span: Span { from_ms: now_ms, until_ms: later(now_ms, EATING_MS) } }),
                    ..*old(self)
                }
            } else {
                *old(self)
            }),
    {
        if reactive {
            self.overlay = Some(Overlay { look: OverlayLook::Eating, span: Span { from_ms: now_ms, until_ms: add_ms(now_ms, EATING_MS) } });
        }
    }

    /// Play was logged: a visible, hatched pet looks happy for a moment.
    pub fn played(&mut self, now_ms: u64, reactive: bool)
        ensures
            *final(self) == (if reactive {
                Effects { happy_until: Some(later(now_ms, HAPPY_PLAY_MS)), ..*old(self) }
            } else {
                *old(self)
            }),
    {
        if reactive {
            self.happy_until = Some(add_ms(now_ms, HAPPY_PLAY_MS));
        }
    }

    /// A click patted the pet: a shorter happy look.
    pub fn petted(&mut self, now_ms: u64, reactive: bool)
        ensures
            *final(self) == (if reactive {
                Effects { happy_until: Some(later(now_ms, HAPPY_PET_MS)), ..*old(self) }
            } else {
                *old(self)
            }),
    {
        if reactive {
            self.happy_until = Some(add_ms(now_ms, HAPPY_PET_MS));
        }
    }

    /// The egg hatched on screen: the hatching animation, then the greeting
    /// bubble once it is over.
    pub fn hatched(&mut self, now_ms: u64)
        ensures
            final(self).overlay == Some(Overlay { look: OverlayLook::Hatching, span: hatch_span(now_ms) }),
            final(self).bubble == Some(hatch_greeting(now_ms)),
            final(self).happy_until == old(self).happy_until,
            final(self).menu_open == old(self).menu_open,
            final(self).presence_run == old(self).presence_run,
    {
        let end = add_ms(now_ms, HATCH_MS);
        self.overlay = Some(Overlay { look: OverlayLook::Hatching, span: Span { from_ms: now_ms, until_ms: end } });
        self.bubble = Some(Span { from_ms: end, until_ms: add_ms(end, HELLO_HATCH_MS) });
    }

    /// The daemon started with the pet summoned: a greeting bubble.
    pub fn greet(&mut self, now_ms: u64)
        ensures
            *final(self) == (Effects { bubble: Some(Span { from_ms: now_ms, until_ms: later(now_ms, HELLO_START_MS) }), ..*old(self) }),
    {
        self.bubble = Some(Span { from_ms: now_ms, until_ms: add_ms(now_ms, HELLO_START_MS) });
    }

    /// Dismiss: every look goes and the menu closes (a presence run is the
    /// caller's to stop).
    pub fn clear(&mut self)
        ensures
            *final(self) == (Effects {
                overlay: None,
                bubble: None,
                happy_until: None,
                menu_open: false,
                presence_run: old(self).presence_run,
            }),
    {
        self.overlay = None;
        self.bubble = None;
        self.happy_until = None;
        self.menu_open = false;
    }

    /// Drop the looks whose time is over, so that the pace can fall back.
    pub fn expire(&mut self, now_ms: u64)
        ensures
            *final(self) == expired(*old(self), now_ms),
    {
        match self.overlay {
            Some(o) => if now_ms >= o.span.until_ms { self.overlay = None; },
            None => {},
        }
        match self.bubble {
            Some(b) => if now_ms >= b.until_ms { self.bubble = None; },
            None => {},
        }
        match self.happy_until {
            Some(t) => if now_ms >= t { self.happy_until = None; },
            None => {},
        }
    }

    /// Some look, the menu or a presence run is on.
    pub fn active(&self) -> (r: bool)
        ensures
            r == effects_active(*self),
    {
        self.menu_open || self.overlay.is_some() || self.bubble.is_some() || self.happy_until.is_some()
            || self.presence_run
    }

    /// The bubble is shown at `now_ms` (its window has started).
    pub fn bubble_shown(&self, now_ms: u64) -> (r: bool)
        ensures
            r == (match self.bubble {
                Some(b) => now_ms >= b.from_ms,
                None => false,
            }),
    {
        match self.bubble {
            Some(b) => now_ms >= b.from_ms,
            None => false,
        }
    }
}

/// Once every window is over, nothing but the menu or a presence run keeps
/// the pace up; and expiring never adds a look.
pub proof fn law_expired_looks_release_the_pace(e: Effects, now_ms: u64)
    ensures
        (match e.overlay { Some(o) => now_ms >= o.span.until_ms, None => true })
            && (match e.bubble { Some(b) => now_ms >= b.until_ms, None => true })
            && (match e.happy_until { Some(t) => now_ms >= t, None => true })
            ==> (effects_active(expired(e, now_ms)) == (e.menu_open || e.presence_run)),
        expired(e, now_ms).overlay is Some ==> e.overlay is Some,
        expired(e, now_ms).bubble is Some ==> e.bubble is Some,
        expired(e, now_ms).happy_until is Some ==> e.happy_until is Some,
        expired(expired(e, now_ms), now_ms) == expired(e, now_ms),
{
}

/// After a hatch the greeting shows only when the hatching animation is
/// over, and both are gone once the greeting's time is over.
pub proof fn law_greeting_follows_the_hatch(e: Effects, now_ms: u64, t_ms: u64)
    requires
        now_ms + HATCH_MS + HELLO_HATCH_MS <= u64::MAX,
    ensures
        ({
            let h = Effects {
                overlay: Some(Overlay { look: OverlayLook::Hatching, span: hatch_span(now_ms) }),
                bubble: Some(hatch_greeting(now_ms)),
                ..e
            };
            &&& h.bubble.unwrap().from_ms == h.overlay.unwrap().span.until_ms
            &&& t_ms >= now_ms + HATCH_MS + HELLO_HATCH_MS ==> expired(h, t_ms).overlay is None
                && expired(h, t_ms).bubble is None
        }),
{
}

/// The pace of the daemon: nothing on screen sleeps; looks, the menu or a
/// presence run keep the active pace while they last; otherwise the pet's
/// own pace.
pub fn daemon_pace(pet_on_screen: bool, e: &Effects, pet_pace: Pace) -> (r: Pace)
    ensures
        r == (if !pet_on_screen {
            Pace::Drowsy
        } else if effects_active(*e) {
            Pace::Active
        } else {
            pet_pace
        }),
{
    if !pet_on_screen {
        Pace::Drowsy
    } else if e.active() {
        Pace::Active
    } else {
        pet_pace
    }
}

/// Sleep periods: when one began, if the pet sleeps now.
#[derive(Debug, Clone, Copy, PartialEq, Eq, Structural)]
pub struct SleepLog {
    pub since_ms: Option<u64>,
}

/// The length of a finished sleep that is worth logging.
pub open spec fn logged_sleep(since_ms: u64, now_ms: u64) -> Option<u64> {
    let d: u64 = if now_ms >= since_ms { (now_ms - since_ms) as u64 } else { 0 };
    if d >= SLEPT_MIN_MS { Some(d) } else { None }
}

impl SleepLog {
    pub fn new() -> (r: Self)
        ensures
            r.since_ms is None,
    {
        SleepLog { since_ms: None }
    }

    /// End the current sleep period, if any: its length when it is long
    /// enough to be logged (a `Slept` event).
    pub fn close(&mut self, now_ms: u64) -> (r: Option<u64>)
        ensures
            final(self).since_ms is None,
            r == (match old(self).since_ms {
                Some(s) => logged_sleep(s, now_ms),
                None => None,
            }),
    {
        match self.since_ms {
            None => None,
            Some(s) => {
                self.since_ms = None;
                let d: u64 = if now_ms >= s { now_ms - s } else { 0 };
                if d >= SLEPT_MIN_MS { Some(d) } else { None }
            },
        }
    }

    /// Called every tick after the simulation: a sleep begins when the pet
    /// falls asleep and ends when it wakes (the period is closed).
    pub fn note(&mut self, sleeping: bool, now_ms: u64) -> (r: Option<u64>)
        ensures
            match (old(self).since_ms, sleeping) {
                (None, true) => final(self).since_ms == Some(now_ms) && r is None,
                (Some(s), false) => final(self).since_ms is None && r == logged_sleep(s, now_ms),
                _ => *final(self) == *old(self) && r is None,
            },
    {
        match (self.since_ms, sleeping) {
            (None, true) => {
                self.since_ms = Some(now_ms);
                None
            },
            (Some(_), false) => self.close(now_ms),
            _ => None,
        }
    }
}

/// A sleep is logged once: after it is closed, closing again logs nothing;
/// a period shorter than half a minute is never logged.
pub proof fn law_sleep_logged_once(since_ms: u64, now_ms: u64)
    ensures
        now_ms >= since_ms && now_ms - since_ms < SLEPT_MIN_MS ==> logged_sleep(since_ms, now_ms) is None,
        now_ms >= since_ms + SLEPT_MIN_MS ==> logged_sleep(since_ms, now_ms) == Some((now_ms - since_ms) as u64),
{
}

} // verus!
