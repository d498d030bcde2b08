//! The Wayland overlay's surfaces: a transparent anchor layer and one
//! desynchronised subsurface per cluster of sprites, each with its own
//! buffer.
//!
//! Each frame every part is brought in line with its cluster: its buffer is
//! redrawn only when its content changed (and the compositor is ready for a
//! new frame), it is moved with a cheap `set_position` plus an anchor commit,
//! and its input region is replaced only when it changed. A part shown for
//! the first time gets its position before its content is committed, or it
//! would flash at the anchor's corner. Times are milliseconds.

use vstd::prelude::*;

verus! {

/// When the compositor's frame callbacks stop coming (some compositors send
/// none to a fully covered output), drawing goes on after this long.
pub const FRAME_CB_FALLBACK_MS: u64 = 250;

/// Whether new content may be drawn: the last frame was shown, or nothing
/// was drawn yet, or the callback has been missing for too long.
pub open spec fn may_draw_spec(frame_done: bool, since_last_draw_ms: Option<u64>) -> bool {
    frame_done || match since_last_draw_ms {
        None => true,
        Some(e) => e >= FRAME_CB_FALLBACK_MS,
    }
}

/// Drawing is allowed now.
pub fn may_draw(frame_done: bool, since_last_draw_ms: Option<u64>) -> (r: bool)
    ensures
        r == may_draw_spec(frame_done, since_last_draw_ms),
{
    frame_done || match since_last_draw_ms {
        None => true,
        Some(e) => e >= FRAME_CB_FALLBACK_MS,
    }
}

/// One surface of the scene.
#[derive(Debug, Clone, Copy, PartialEq, Eq)]
pub struct SurfacePart {
    /// It has a buffer attached (else it is unmapped and catches nothing).
    pub mapped: bool,
    /// Its last position relative to the anchor.
    pub pos: Option<(i32, i32)>,
}

/// What placing a part in a frame does.
#[derive(Debug, Clone, Copy, PartialEq, Eq, Structural)]
pub struct Placement {
    /// The part is on screen: its input region and commit follow.
    pub shown: bool,
    /// Set the position before the part's commit (first show).
    pub position_first: bool,
    /// Set the position after the part's commit (it moved).
    pub position_after: bool,
}

/// The part and what happens to it when placed at `at` after the draw.
pub open spec fn placement_spec(part: SurfacePart, drawn: bool, at: (i32, i32)) -> (SurfacePart, Placement) {
    let mapped = part.mapped || drawn;
    if !mapped {
        (part, Placement { shown: false, position_first: false, position_after: false })
    } else {
        (
            SurfacePart { mapped: true, pos: Some(at) },
            Placement {
                shown: true,
                position_first: !part.mapped && part.pos != Some(at),
                position_after: part.mapped && part.pos != Some(at),
            },
        )
    }
}

impl SurfacePart {
    /// A new part: unmapped, never placed.
    pub fn new() -> (r: Self)
        ensures
            !r.mapped,
            r.pos is None,
    {
        SurfacePart { mapped: false, pos: None }
    }

    /// The part's buffer is redrawn: its first show, or its content
    /// changed, and only when drawing is allowed.
    pub fn draw_wanted(&self, same_content: bool, may_draw: bool) -> (r: bool)
        ensures
            r == ((!self.mapped || !same_content) && may_draw),
    {
        (!self.mapped || !same_content) && may_draw
    }

    /// After the draw (`drawn`: a buffer was attached), place the part at
    /// `at`. A part still without a buffer waits: no position, no input.
    pub fn place(&mut self, drawn: bool, at: (i32, i32)) -> (p: Placement)
        ensures
            (*final(self), p) == placement_spec(*old(self), drawn, at),
    {
        let first_show = !self.mapped;
        if drawn {
            self.mapped = true;
        }
        if !self.mapped {
            return Placement { shown: false, position_first: false, position_after: false };
        }
        let moved = match self.pos {
            Some(p) => !(p.0 == at.0 && p.1 == at.1),
            None => true,
        };
        self.pos = Some(at);
        Placement { shown: true, position_first: first_show && moved, position_after: !first_show && moved }
    }

    /// The scene went empty: the part's buffer is detached.
    pub fn unmap(&mut self)
        ensures
            !final(self).mapped,
            final(self).pos == old(self).pos,
    {
        self.mapped = false;
    }
}

/// The part's surface is committed when it got new content or a new input
/// region; the anchor is committed when a part moved or was committed.
pub fn commits(p: Placement, drawn: bool, input_set: bool) -> (r: (bool, bool))
    ensures
        r.0 == (drawn || input_set),
        r.1 == (p.position_first || p.position_after || drawn || input_set),
{
    let part = drawn || input_set;
    (part, p.position_first || p.position_after || part)
}

/// As many parts as clusters: extra parts are destroyed from the end, new
/// ones are added unmapped; the parts kept keep their state.
pub fn fit_parts(parts: &mut Vec<SurfacePart>, clusters: usize)
    ensures
        final(parts)@.len() == clusters,
        forall|i: int| 0 <= i < clusters && i < old(parts)@.len() ==> #[trigger] final(parts)@[i] == old(parts)@[i],
        forall|i: int| old(parts)@.len() <= i < clusters ==> !#[trigger] final(parts)@[i].mapped && final(parts)@[i].pos is None,
{
    while parts.len() > clusters
        invariant
            clusters <= old(parts)@.len() ==> parts@ == old(parts)@.take(parts@.len() as int),
            clusters <= old(parts)@.len() ==> clusters <= parts@.len() <= old(parts)@.len(),
            clusters > old(parts)@.len() ==> parts@ == old(parts)@,
        decreases parts.len(),
    {
        parts.pop();
        assert(parts@ =~= old(parts)@.take(parts@.len() as int));
    }
    while parts.len() < clusters
        invariant
            parts@.len() <= clusters,
            parts@.len() >= old(parts)@.len() || parts@.len() == clusters,
            forall|i: int| 0 <= i < parts@.len() && i < old(parts)@.len() ==> #[trigger] parts@[i] == old(parts)@[i],
            forall|i: int| old(parts)@.len() <= i < parts@.len() ==> !#[trigger] parts@[i].mapped && parts@[i].pos is None,
        decreases clusters - parts.len(),
    {
        parts.push(SurfacePart::new());
    }
}

/// The anchor layer: the whole output while the pet is shown (keeps the
/// compositor composing), 1x1 while the scene is empty (scan-out goes back
/// to the compositor); its input region is the whole output only while the
/// left button is held.
#[derive(Debug, Clone, Copy, PartialEq, Eq, Structural)]
pub struct Anchor {
    /// The layer has its buffer (it was configured).
    pub mapped: bool,
    pub full: bool,
    pub input_full: bool,
    /// Some part has content.
    pub visible: bool,
    pub frame_done: bool,
}

impl Anchor {
    /// Before the first configure: spanning the output, catching nothing,
    /// ready to draw.
    pub fn new() -> (r: Self)
        ensures
            r == (Anchor { mapped: false, full: true, input_full: false, visible: false, frame_done: true }),
    {
        Anchor { mapped: false, full: true, input_full: false, visible: false, frame_done: true }
    }

    /// Switch between the whole output and 1x1; `true` when the layer must
    /// be re-anchored and committed (the call is idempotent).
    pub fn set_full(&mut self, full: bool) -> (changed: bool)
        ensures
            changed == (old(self).full != full),
            *final(self) == (Anchor { full, ..*old(self) }),
    {
        let changed = self.full != full;
        self.full = full;
        changed
    }

    /// The anchor's input region during a grab; `true` when a new region
    /// must be set (only once the layer is mapped).
    pub fn set_input(&mut self, full: bool) -> (changed: bool)
        ensures
            changed == (old(self).input_full != full && old(self).mapped),
            *final(self) == (if changed { Anchor { input_full: full, ..*old(self) } } else { *old(self) }),
    {
        if self.input_full == full || !self.mapped {
            return false;
        }
        self.input_full = full;
        true
    }

    /// Content was drawn this frame: the next waits for the compositor's
    /// frame callback.
    pub fn drew(&mut self)
        ensures
            *final(self) == (Anchor { frame_done: false, visible: true, ..*old(self) }),
    {
        self.frame_done = false;
        self.visible = true;
    }

    /// The compositor showed a frame.
    pub fn frame_shown(&mut self)
        ensures
            *final(self) == (Anchor { frame_done: true, ..*old(self) }),
    {
        self.frame_done = true;
    }

    /// The scene went empty: shrink to 1x1; `true` when the parts must be
    /// unmapped (something was visible). A hidden surface may never get its
    /// frame callback, so the next show must not wait for it.
    pub fn shrink(&mut self) -> (unmap_parts: bool)
        ensures
            unmap_parts == old(self).visible,
            !final(self).full,
            !final(self).visible,
            final(self).mapped == old(self).mapped,
            final(self).input_full == old(self).input_full,
            final(self).frame_done == (old(self).visible || old(self).frame_done),
    {
        self.full = false;
        if !self.visible {
            return false;
        }
        self.visible = false;
        self.frame_done = true;
        true
    }
}

/// A part is positioned at most once per frame: before its first commit
/// when it is shown for the first time, after it otherwise; a part that got
/// no buffer is neither positioned nor shown; and a placed part that does
/// not move is not positioned again.
pub proof fn law_first_show_positions_before_commit(part: SurfacePart, drawn: bool, at: (i32, i32))
    ensures
        ({
            let (after_part, p) = placement_spec(part, drawn, at);
            &&& !(p.position_first && p.position_after)
            &&& !part.mapped && !drawn ==> !p.shown && !p.position_first && !p.position_after
            &&& p.shown ==> after_part.pos == Some(at)
            &&& p.shown ==> !placement_spec(after_part, false, at).1.position_first
                && !placement_spec(after_part, false, at).1.position_after
        }),
{
}

/// Frame callbacks throttle drawing but cannot freeze it: right after a
/// draw the next waits for the callback, yet once the fallback time passed
/// drawing is allowed again whatever the callback.
pub proof fn law_drawing_never_starves(since_ms: u64)
    ensures
        since_ms < FRAME_CB_FALLBACK_MS ==> !may_draw_spec(false, Some(since_ms)),
        since_ms >= FRAME_CB_FALLBACK_MS ==> may_draw_spec(false, Some(since_ms)),
        may_draw_spec(true, Some(since_ms)),
{
}

} // verus!
