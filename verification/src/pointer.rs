//! Pointer handling of the overlay backends.
//!
//! Under Wayland the pet's surface gets the pointer events in its own
//! coordinates; while the left button is held the anchor layer takes the
//! whole output as its input region, so a fast swing cannot lose the grab.
//! A `Leave` while the button is held is usually a hop from the sprite to
//! the anchor (an `Enter` follows); only when the pointer does not come back
//! within a grace period is the grab cancelled. Positions stay with the
//! caller: this module decides which event is delivered and what the grab
//! state becomes. Times are milliseconds of a monotonic clock.

use vstd::prelude::*;

verus! {

/// How long a `Leave` with the button held may last before the grab counts
/// as lost.
pub const LEAVE_GRACE_MS: u64 = 150;

/// A pointer event as the compositor reports it.
#[derive(Debug, Clone, Copy, PartialEq, Eq, Structural)]
pub enum PointerKind {
    Enter,
    Motion,
    PressLeft,
    ReleaseLeft,
    PressRight,
    Leave,
    /// Any other button or axis event.
    Other,
}

/// The event handed to the application (at the event's position).
#[derive(Debug, Clone, Copy, PartialEq, Eq, Structural)]
pub enum PointerOut {
    Motion,
    Press,
    Release,
    /// Right button: the context menu.
    Menu,
}

/// State of the left-button grab.
#[derive(Debug, Clone, Copy, PartialEq, Eq, Structural)]
pub struct Grab {
    /// The left button is held.
    pub pressed: bool,
    /// Since when the pointer is away while the button is held.
    pub leave_since_ms: Option<u64>,
}

/// What one event does besides changing the grab.
#[derive(Debug, Clone, Copy, PartialEq, Eq, Structural)]
pub struct PointerStep {
    /// Event for the application, if any.
    pub deliver: Option<PointerOut>,
    /// New input region of the anchor: `Some(true)` the whole output,
    /// `Some(false)` none, `None` unchanged.
    pub anchor_input: Option<bool>,
}

/// The grab and the step after `kind` at `now_ms`.
pub open spec fn pointer_step(g: Grab, kind: PointerKind, now_ms: u64) -> (Grab, PointerStep) {
    match kind {
        PointerKind::Enter | PointerKind::Motion => (
            Grab { leave_since_ms: None, ..g },
            PointerStep { deliver: Some(PointerOut::Motion), anchor_input: None },
        ),
        PointerKind::PressLeft => (
            Grab { pressed: true, leave_since_ms: None },
            PointerStep { deliver: Some(PointerOut::Press), anchor_input: Some(true) },
        ),
        PointerKind::ReleaseLeft => (
            Grab { pressed: false, leave_since_ms: None },
            PointerStep { deliver: Some(PointerOut::Release), anchor_input: Some(false) },
        ),
        PointerKind::PressRight => (g, PointerStep { deliver: Some(PointerOut::Menu), anchor_input: None }),
        PointerKind::Leave => (
            if g.pressed && g.leave_since_ms is None { Grab { leave_since_ms: Some(now_ms), ..g } } else { g },
            PointerStep { deliver: None, anchor_input: None },
        ),
        PointerKind::Other => (g, PointerStep { deliver: None, anchor_input: None }),
    }
}

/// The grab is lost at `now_ms`: the button is held and the pointer has
/// been away for at least `grace_ms`.
pub open spec fn grab_lost_at(g: Grab, now_ms: u64, grace_ms: u64) -> bool {
    g.pressed && match g.leave_since_ms {
        Some(t) => now_ms >= t && now_ms - t >= grace_ms,
        None => false,
    }
}

impl Grab {
    /// No button held, nothing pending.
    pub fn new() -> (r: Self)
        ensures
            !r.pressed,
            r.leave_since_ms is None,
    {
        Grab { pressed: false, leave_since_ms: None }
    }

    /// Take one pointer event on one of our surfaces.
    pub fn on_event(&mut self, kind: PointerKind, now_ms: u64) -> (step: PointerStep)
        ensures
            (*final(self), step) == pointer_step(*old(self), kind, now_ms),
    {
        match kind {
            PointerKind::Enter | PointerKind::Motion => {
                self.leave_since_ms = None;
                PointerStep { deliver: Some(PointerOut::Motion), anchor_input: None }
            },
            PointerKind::PressLeft => {
                self.pressed = true;
                self.leave_since_ms = None;
                PointerStep { deliver: Some(PointerOut::Press), anchor_input: Some(true) }
            },
            PointerKind::ReleaseLeft => {
                self.pressed = false;
                self.leave_since_ms = None;
                PointerStep { deliver: Some(PointerOut::Release), anchor_input: Some(false) }
            },
            PointerKind::PressRight => PointerStep { deliver: Some(PointerOut::Menu), anchor_input: None },
            PointerKind::Leave => {
                if self.pressed && self.leave_since_ms.is_none() {
                    self.leave_since_ms = Some(now_ms);
                }
                PointerStep { deliver: None, anchor_input: None }
            },
            PointerKind::Other => PointerStep { deliver: None, anchor_input: None },
        }
    }

    /// Checked on every tick: when the grab is lost the button counts as
    /// released (the caller empties the anchor's input region and cancels
    /// the drag without a throw) and `true` is returned.
    pub fn check_lost(&mut self, now_ms: u64, grace_ms: u64) -> (lost: bool)
        ensures
            lost == grab_lost_at(*old(self), now_ms, grace_ms),
            lost ==> !final(self).pressed && final(self).leave_since_ms is None,
            !lost ==> *final(self) == *old(self),
    {
        let lost = match self.leave_since_ms {
            Some(t) => self.pressed && now_ms >= t && now_ms - t >= grace_ms,
            None => false,
        };
        if lost {
            self.pressed = false;
            self.leave_since_ms = None;
        }
        lost
    }
}

/// X11 needs no grab bookkeeping (the server grabs implicitly while a button
/// is held): button 1 presses and releases, button 3 opens the menu, motion
/// and enter move.
pub open spec fn x11_pointer_spec(kind: PointerKind) -> Option<PointerOut> {
    match kind {
        PointerKind::Enter | PointerKind::Motion => Some(PointerOut::Motion),
        PointerKind::PressLeft => Some(PointerOut::Press),
        PointerKind::ReleaseLeft => Some(PointerOut::Release),
        PointerKind::PressRight => Some(PointerOut::Menu),
        PointerKind::Leave | PointerKind::Other => None,
    }
}

/// The event an X11 pointer event delivers.
pub fn x11_pointer(kind: PointerKind) -> (r: Option<PointerOut>)
    ensures
        r == x11_pointer_spec(kind),
{
    match kind {
        PointerKind::Enter | PointerKind::Motion => Some(PointerOut::Motion),
        PointerKind::PressLeft => Some(PointerOut::Press),
        PointerKind::ReleaseLeft => Some(PointerOut::Release),
        PointerKind::PressRight => Some(PointerOut::Menu),
        PointerKind::Leave | PointerKind::Other => None,
    }
}

/// A `Leave` while the button is held delivers nothing and keeps the grab:
/// the time of the first such `Leave` is kept, later ones do not move it.
pub proof fn law_leave_during_press_is_silent(g: Grab, now_ms: u64)
    requires
        g.pressed,
    ensures
        pointer_step(g, PointerKind::Leave, now_ms).1.deliver is None,
        pointer_step(g, PointerKind::Leave, now_ms).0.pressed,
        pointer_step(g, PointerKind::Leave, now_ms).0.leave_since_ms == (match g.leave_since_ms {
            Some(t) => Some(t),
            None => Some(now_ms),
        }),
{
}

/// Coming back (`Enter` or `Motion`) before the grace period ends keeps the
/// grab: it is not lost at any later time until the pointer leaves again.
pub proof fn law_return_keeps_the_grab(g: Grab, now_ms: u64, later_ms: u64, grace_ms: u64)
    ensures
        !grab_lost_at(pointer_step(g, PointerKind::Enter, now_ms).0, later_ms, grace_ms),
        !grab_lost_at(pointer_step(g, PointerKind::Motion, now_ms).0, later_ms, grace_ms),
        pointer_step(g, PointerKind::Enter, now_ms).0.pressed == g.pressed,
{
}

/// A lost grab is reported once: the state it leaves behind is not lost at
/// any time; without a held button nothing is ever lost; a release always
/// ends the grab and empties the anchor's input region.
pub proof fn law_grab_lost_once(g: Grab, now_ms: u64, later_ms: u64, grace_ms: u64)
    ensures
        !grab_lost_at(Grab { pressed: false, leave_since_ms: None }, later_ms, grace_ms),
        !g.pressed ==> !grab_lost_at(g, later_ms, grace_ms),
        !pointer_step(g, PointerKind::ReleaseLeft, now_ms).0.pressed,
        pointer_step(g, PointerKind::ReleaseLeft, now_ms).1.anchor_input == Some(false),
        !grab_lost_at(pointer_step(g, PointerKind::ReleaseLeft, now_ms).0, later_ms, grace_ms),
{
}

/// Without a held button a `Leave` starts no countdown, and a grab becomes
/// lost no earlier than `grace_ms` after the `Leave` that started it.
pub proof fn law_grace_is_respected(g: Grab, leave_ms: u64, now_ms: u64, grace_ms: u64)
    requires
        g.leave_since_ms is None,
    ensures
        !g.pressed ==> pointer_step(g, PointerKind::Leave, leave_ms).0 == g,
        grab_lost_at(pointer_step(g, PointerKind::Leave, leave_ms).0, now_ms, grace_ms) ==> g.pressed
            && now_ms >= leave_ms + grace_ms,
{
}

} // verus!
