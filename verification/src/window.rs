//! The X11 overlay window: one override-redirect ARGB window the size of the
//! scene's bounds, its input shape, the upload of its pixels in chunks, and
//! when it raises itself.

use vstd::prelude::*;
use crate::pixel::clamp_i16;

verus! {

/// One visual of the screen, with the depth it belongs to, in the order the
/// server lists them.
#[derive(Debug, Clone, Copy, PartialEq, Eq, Structural)]
pub struct VisualInfo {
    pub depth: u8,
    pub visual: u32,
    pub true_color: bool,
}

/// The first 32-bit TrueColor visual, if the screen has one.
pub open spec fn first_argb(s: Seq<VisualInfo>) -> Option<u32>
    decreases s.len(),
{
    if s.len() == 0 {
        None
    } else if s[0].depth == 32 && s[0].true_color {
        Some(s[0].visual)
    } else {
        first_argb(s.drop_first())
    }
}

proof fn lemma_first_argb_prefix(s: Seq<VisualInfo>, i: int)
    requires
        0 <= i < s.len(),
        first_argb(s.take(i)) is None,
    ensures
        first_argb(s.take(i + 1)) == (if s[i].depth == 32 && s[i].true_color { Some(s[i].visual) } else { None::<u32> }),
    decreases i,
{
    if i > 0 {
        assert(s.take(i)[0] == s[0]);
        assert(s.take(i + 1)[0] == s[0]);
        assert(s.take(i).drop_first() =~= s.drop_first().take(i - 1));
        assert(s.take(i + 1).drop_first() =~= s.drop_first().take(i));
        assert(!(s[0].depth == 32 && s[0].true_color));
        assert(first_argb(s.drop_first().take(i - 1)) is None);
        lemma_first_argb_prefix(s.drop_first(), i - 1);
        assert(s.drop_first()[i - 1] == s[i]);
        assert(first_argb(s.take(i + 1)) == first_argb(s.drop_first().take(i)));
    } else {
        assert(s.take(1).drop_first().len() == 0);
        assert(s.take(1)[0] == s[0]);
        assert(first_argb(s.take(1).drop_first()) is None);
    }
}

proof fn lemma_first_argb_found(s: Seq<VisualInfo>, i: int)
    requires
        0 <= i <= s.len(),
        first_argb(s.take(i)) is Some,
    ensures
        first_argb(s) == first_argb(s.take(i)),
    decreases i,
{
    if i > 0 && !(s[0].depth == 32 && s[0].true_color) {
        assert(s.take(i).drop_first() =~= s.drop_first().take(i - 1));
        lemma_first_argb_found(s.drop_first(), i - 1);
    }
}

/// Depth and visual of the window: a 32-bit TrueColor visual gives honest
/// transparency (under a compositor); without one the root's depth and
/// visual are used and the pet is drawn on black.
pub fn choose_visual(visuals: &Vec<VisualInfo>, root_depth: u8, root_visual: u32) -> (r: (u8, u32))
    ensures
        r == (match first_argb(visuals@) {
            Some(v) => (32u8, v),
            None => (root_depth, root_visual),
        }),
{
    let mut i: usize = 0;
    while i < visuals.len()
        invariant
            0 <= i <= visuals.len(),
            first_argb(visuals@.take(i as int)) is None,
        decreases visuals.len() - i,
    {
        proof {
            lemma_first_argb_prefix(visuals@, i as int);
        }
        let v = visuals[i];
        if v.depth == 32 && v.true_color {
            proof {
                lemma_first_argb_found(visuals@, i as int + 1);
            }
            return (32, v.visual);
        }
        i += 1;
    }
    assert(visuals@.take(i as int) =~= visuals@);
    (root_depth, root_visual)
}

/// Ceiling of one image upload: a safety net for a server without
/// BIG-REQUESTS (the classic request limit is 256 KiB).
pub const PUT_CHUNK_BYTES: u32 = 131_072;

/// Rows per upload for a window `w` pixels wide (at least one).
pub open spec fn rows_per_chunk(w: u32) -> u32 {
    if w == 0 || PUT_CHUNK_BYTES / (4 * w) as u32 == 0 {
        1
    } else {
        PUT_CHUNK_BYTES / (4 * w) as u32
    }
}

/// The chunks `(first row, rows)` tile the rows `0..h` in order: each but
/// the last has `rows_per_chunk(w)` rows, the last at most that many.
pub open spec fn tiles(c: Seq<(u32, u32)>, w: u32, h: u32) -> bool {
    &&& c.len() > 0 ==> c[0].0 == 0
    &&& forall|i: int| 0 <= i < c.len() ==> 1 <= #[trigger] c[i].1 <= rows_per_chunk(w)
    &&& forall|i: int| 0 <= i < c.len() - 1 ==> #[trigger] c[i].1 == rows_per_chunk(w)
    &&& forall|i: int| 0 <= i < c.len() - 1 ==> #[trigger] c[i + 1].0 == c[i].0 + c[i].1
    &&& c.len() > 0 ==> c[c.len() - 1].0 + c[c.len() - 1].1 == h
}

/// How the canvas is uploaded: row bands of `rows_per_chunk(w)` rows from
/// the top, the last band taking what is left. An empty canvas uploads
/// nothing.
pub fn put_chunks(w: u32, h: u32) -> (c: Vec<(u32, u32)>)
    requires
        w < 0x4000_0000,
    ensures
        (c.len() > 0) == (w > 0 && h > 0),
        tiles(c@, w, h),
{
    let mut c: Vec<(u32, u32)> = Vec::new();
    if w == 0 || h == 0 {
        return c;
    }
    let stride: u32 = 4 * w;
    let per: u32 = if PUT_CHUNK_BYTES / stride == 0 { 1 } else { PUT_CHUNK_BYTES / stride };
    assert(per == rows_per_chunk(w));
    let mut y: u32 = 0;
    while y < h
        invariant
            w > 0,
            per == rows_per_chunk(w),
            per >= 1,
            y <= h,
            c.len() == 0 ==> y == 0,
            c.len() > 0 ==> c@[c.len() - 1].0 + c@[c.len() - 1].1 == y,
            c.len() > 0 ==> c@[0].0 == 0,
            forall|i: int| 0 <= i < c.len() ==> 1 <= #[trigger] c@[i].1 <= per,
            forall|i: int| 0 <= i < c.len() - 1 ==> #[trigger] c@[i].1 == per,
            forall|i: int| 0 <= i < c.len() - 1 ==> #[trigger] c@[i + 1].0 == c@[i].0 + c@[i].1,
            y < h ==> forall|i: int| 0 <= i < c.len() ==> #[trigger] c@[i].1 == per,
        decreases h - y,
    {
        let rows: u32 = if per < h - y { per } else { h - y };
        let ghost old_c = c@;
        c.push((y, rows));
        proof {
            assert forall|i: int| 0 <= i < c.len() - 1 implies #[trigger] c@[i + 1].0 == c@[i].0 + c@[i].1 by {
                if i == c.len() - 2 {
                    assert(c@[i] == old_c[old_c.len() - 1]);
                } else {
                    assert(c@[i] == old_c[i] && c@[i + 1] == old_c[i + 1]);
                }
            }
            assert forall|i: int| 0 <= i < c.len() - 1 implies #[trigger] c@[i].1 == per by {
                assert(c@[i] == old_c[i]);
            }
        }
        y = y + rows;
    }
    c
}

/// No band is larger than the upload ceiling, unless a single row already
/// is (then each band is one row).
pub proof fn law_chunks_fit_the_ceiling(w: u32)
    requires
        0 < w < 0x4000_0000,
    ensures
        rows_per_chunk(w) >= 1,
        4 * w <= PUT_CHUNK_BYTES ==> rows_per_chunk(w) * (4 * w) <= PUT_CHUNK_BYTES,
        4 * w > PUT_CHUNK_BYTES ==> rows_per_chunk(w) == 1,
{
    let s: int = 4 * w;
    let q: int = PUT_CHUNK_BYTES as int / s;
    assert(q * s <= PUT_CHUNK_BYTES) by (nonlinear_arith)
        requires
            s > 0,
            q == PUT_CHUNK_BYTES as int / s,
    ;
    assert(s > PUT_CHUNK_BYTES ==> q == 0) by (nonlinear_arith)
        requires
            s > 0,
            q == PUT_CHUNK_BYTES as int / s,
    ;
    assert(s <= PUT_CHUNK_BYTES ==> q >= 1) by (nonlinear_arith)
        requires
            s > 0,
            q == PUT_CHUNK_BYTES as int / s,
    ;
}

/// The chunks of any canvas start at the top, are contiguous, and end at
/// its last row: every row is uploaded exactly once.
pub proof fn law_chunks_cover_every_row_once(c: Seq<(u32, u32)>, w: u32, h: u32, row: int)
    requires
        tiles(c, w, h),
        c.len() > 0,
        0 <= row < h,
    ensures
        exists|i: int| 0 <= i < c.len() && #[trigger] c[i].0 <= row < c[i].0 + c[i].1,
        forall|i: int, j: int|
            0 <= i < j < c.len() ==> #[trigger] c[i].0 + c[i].1 <= #[trigger] c[j].0,
{
    lemma_chunk_starts_grow(c, w, h);
    let k = choose_band(c, w, h, row, (c.len() - 1) as int);
    assert(c[k].0 <= row < c[k].0 + c[k].1);
}

proof fn lemma_chunk_starts_grow(c: Seq<(u32, u32)>, w: u32, h: u32)
    requires
        tiles(c, w, h),
    ensures
        forall|i: int, j: int|
            0 <= i < j < c.len() ==> #[trigger] c[i].0 + c[i].1 <= #[trigger] c[j].0,
{
    assert forall|i: int, j: int| 0 <= i < j < c.len() implies #[trigger] c[i].0 + c[i].1 <= #[trigger] c[j].0 by {
        lemma_start_after(c, w, h, i, j);
    }
}

proof fn lemma_start_after(c: Seq<(u32, u32)>, w: u32, h: u32, i: int, j: int)
    requires
        tiles(c, w, h),
        0 <= i < j < c.len(),
    ensures
        c[i].0 + c[i].1 <= c[j].0,
    decreases j - i,
{
    assert(c[j - 1 + 1].0 == c[j - 1].0 + c[j - 1].1);
    if i < j - 1 {
        lemma_start_after(c, w, h, i, j - 1);
        assert(c[j - 1].1 >= 1);
    }
}

/// Index of the band holding `row`, searching down from band `k`.
proof fn choose_band(c: Seq<(u32, u32)>, w: u32, h: u32, row: int, k: int) -> (i: int)
    requires
        tiles(c, w, h),
        0 <= k < c.len(),
        0 <= row < c[k].0 + c[k].1,
    ensures
        0 <= i <= k,
        c[i].0 <= row < c[i].0 + c[i].1,
    decreases k,
{
    if c[k].0 <= row {
        k
    } else {
        assert(k > 0) by {
            if k == 0 {
                assert(c[0].0 == 0);
            }
        }
        assert(c[k - 1 + 1].0 == c[k - 1].0 + c[k - 1].1);
        choose_band(c, w, h, row, k - 1)
    }
}

/// An input rectangle `(x, y, w, h)` as the SHAPE request takes it: the
/// corner clamped to 16 bits, the size capped at 65535.
pub open spec fn shape_rect(r: (i32, i32, i32, i32)) -> (i16, i16, u16, u16) {
    (
        (if r.0 < i16::MIN { i16::MIN as int } else if r.0 > i16::MAX { i16::MAX as int } else { r.0 as int }) as i16,
        (if r.1 < i16::MIN { i16::MIN as int } else if r.1 > i16::MAX { i16::MAX as int } else { r.1 as int }) as i16,
        (if r.2 > u16::MAX { u16::MAX as int } else { r.2 as int }) as u16,
        (if r.3 > u16::MAX { u16::MAX as int } else { r.3 as int }) as u16,
    )
}

/// The window's input shape: the non-empty rectangles, in order, converted.
pub open spec fn shape_rects(s: Seq<(i32, i32, i32, i32)>) -> Seq<(i16, i16, u16, u16)>
    decreases s.len(),
{
    if s.len() == 0 {
        Seq::empty()
    } else {
        let rest = shape_rects(s.drop_last());
        let r = s.last();
        if r.2 > 0 && r.3 > 0 { rest.push(shape_rect(r)) } else { rest }
    }
}

/// Input shape of the window: clicks outside these rectangles fall through
/// to the windows below; an empty list makes the window a ghost.
pub fn input_rectangles(rects: &Vec<(i32, i32, i32, i32)>) -> (out: Vec<(i16, i16, u16, u16)>)
    ensures
        out@ == shape_rects(rects@),
{
    let mut out: Vec<(i16, i16, u16, u16)> = Vec::new();
    let mut i: usize = 0;
    while i < rects.len()
        invariant
            0 <= i <= rects.len(),
            out@ == shape_rects(rects@.take(i as int)),
        decreases rects.len() - i,
    {
        let (x, y, w, h) = rects[i];
        assert(rects@.take(i as int + 1).drop_last() =~= rects@.take(i as int));
        if w > 0 && h > 0 {
            let cx = clamp_i16(x) as i16;
            let cy = clamp_i16(y) as i16;
            let cw: u16 = if w > 65535 { 65535 } else { w as u16 };
            let ch: u16 = if h > 65535 { 65535 } else { h as u16 };
            out.push((cx, cy, cw, ch));
        }
        i += 1;
    }
    assert(rects@.take(i as int) =~= rects@);
    out
}

/// The window's geometry in root coordinates: the scene is local to the
/// output, the window stands at `origin + bounds`.
pub fn window_geometry(origin: (i32, i32), bounds: (i32, i32, u32, u32)) -> (g: (i32, i32, u32, u32))
    requires
        i32::MIN <= origin.0 + bounds.0 <= i32::MAX,
        i32::MIN <= origin.1 + bounds.1 <= i32::MAX,
    ensures
        g == ((origin.0 + bounds.0) as i32, (origin.1 + bounds.1) as i32, bounds.2, bounds.3),
{
    (origin.0 + bounds.0, origin.1 + bounds.1, bounds.2, bounds.3)
}

/// What `ConfigureWindow` is given for a geometry: the corner clamped to
/// 16 bits, the size kept within `1..=65535`.
pub fn configure_values(g: (i32, i32, u32, u32)) -> (r: (i32, i32, u32, u32))
    ensures
        r.0 == (if g.0 < i16::MIN { i16::MIN as i32 } else if g.0 > i16::MAX { i16::MAX as i32 } else { g.0 }),
        r.1 == (if g.1 < i16::MIN { i16::MIN as i32 } else if g.1 > i16::MAX { i16::MAX as i32 } else { g.1 }),
        r.2 == (if g.2 < 1 { 1 } else if g.2 > 65535 { 65535 } else { g.2 }),
        r.3 == (if g.3 < 1 { 1 } else if g.3 > 65535 { 65535 } else { g.3 }),
{
    let w: u32 = if g.2 < 1 { 1 } else if g.2 > 65535 { 65535 } else { g.2 };
    let h: u32 = if g.3 < 1 { 1 } else if g.3 > 65535 { 65535 } else { g.3 };
    (clamp_i16(g.0), clamp_i16(g.1), w, h)
}

/// Between two raises on `VisibilityNotify`, at least this long: two
/// self-raising windows would otherwise fight at full CPU.
pub const RAISE_BACKOFF_MS: u64 = 500;

/// Whether an obscured window raises itself now: only a mapped one, and
/// not sooner than `RAISE_BACKOFF_MS` after its last raise.
pub fn raise_due(mapped: bool, since_last_raise_ms: Option<u64>) -> (r: bool)
    ensures
        r == (mapped && match since_last_raise_ms {
            None => true,
            Some(e) => e >= RAISE_BACKOFF_MS,
        }),
{
    if !mapped {
        return false;
    }
    match since_last_raise_ms {
        None => true,
        Some(e) => e >= RAISE_BACKOFF_MS,
    }
}

/// The output geometry goes to the application when it changed, and in any
/// case the first time.
pub fn geometry_to_deliver(changed: bool, already_sent: bool) -> (r: bool)
    ensures
        r == (changed || !already_sent),
{
    changed || !already_sent
}

/// What the X11 window last showed.
#[derive(Debug, Clone, Copy, PartialEq, Eq)]
pub struct X11Window {
    pub mapped: bool,
    /// The window holds content (a canvas was composed).
    pub visible: bool,
    /// Last geometry given to the server (root coordinates).
    pub last_geom: Option<(i32, i32, u32, u32)>,
}

/// The requests of one frame, in this order: configure, repaint, reshape
/// the input, map (and raise).
#[derive(Debug, Clone, Copy, PartialEq, Eq, Structural)]
pub struct X11Frame {
    pub configure: bool,
    pub repaint: bool,
    pub reshape: bool,
    pub map: bool,
}

pub open spec fn x11_frame_spec(w: X11Window, geom: (i32, i32, u32, u32), same_content: bool, input_changed: bool) -> (X11Window, X11Frame) {
    (
        X11Window { mapped: true, visible: true, last_geom: Some(geom) },
        X11Frame {
            configure: w.last_geom != Some(geom),
            repaint: !w.visible || !same_content,
            reshape: input_changed,
            map: !w.mapped,
        },
    )
}

impl X11Window {
    /// A fresh window: unmapped, empty, never configured.
    pub fn new() -> (r: Self)
        ensures
            !r.mapped && !r.visible && r.last_geom is None,
    {
        X11Window { mapped: false, visible: false, last_geom: None }
    }

    /// Bring the window in line with a non-empty scene: move and resize it
    /// when its geometry changed (cheap under X11), repaint only when the
    /// content changed or nothing is shown, replace the input shape only
    /// when it changed, and map it the first time.
    pub fn frame(&mut self, geom: (i32, i32, u32, u32), same_content: bool, input_changed: bool) -> (f: X11Frame)
        ensures
            (*final(self), f) == x11_frame_spec(*old(self), geom, same_content, input_changed),
    {
        let configure = match self.last_geom {
            Some(g) => !(g.0 == geom.0 && g.1 == geom.1 && g.2 == geom.2 && g.3 == geom.3),
            None => true,
        };
        let repaint = !self.visible || !same_content;
        let map = !self.mapped;
        self.last_geom = Some(geom);
        self.visible = true;
        self.mapped = true;
        X11Frame { configure, repaint, reshape: input_changed, map }
    }

    /// An empty scene: unmap (an unmapped window draws nothing and catches
    /// no input); `true` when an unmap request is due.
    pub fn unmap(&mut self) -> (unmap: bool)
        ensures
            unmap == old(self).mapped,
            *final(self) == (X11Window { mapped: false, visible: false, last_geom: old(self).last_geom }),
    {
        let unmap = self.mapped;
        self.mapped = false;
        self.visible = false;
        unmap
    }
}

/// A still scene costs nothing: a second frame with the same geometry,
/// content and input sends no request; and the window is mapped once.
pub proof fn law_still_scene_is_free(w: X11Window, geom: (i32, i32, u32, u32))
    ensures
        ({
            let (w1, _) = x11_frame_spec(w, geom, true, false);
            let (_, f2) = x11_frame_spec(w1, geom, true, false);
            !f2.configure && !f2.repaint && !f2.reshape && !f2.map
        }),
{
}

} // verus!
