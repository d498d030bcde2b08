//! Drawing a sprite frame onto a surface's canvas: nearest-neighbour
//! scaling by an integer factor, clipping at the canvas's edges, skipping
//! fully transparent pixels, replacing with opaque ones and blending
//! translucent ones over what is already drawn (premultiplied ARGB).
//!
//! The frame arrives already oriented (mirror, flips, quarter turns) and
//! faded by the sprite's transparency; the canvas holds one ARGB word per
//! pixel, row by row.

use vstd::prelude::*;
use crate::pixel::{chan, over, over_spec};

verus! {

/// The frame pixel that lands on canvas pixel `(cx, cy)` when the frame's
/// top-left corner is at `(ox, oy)` in logical pixels and each frame pixel
/// covers `scale` x `scale` canvas pixels; `None` outside the sprite.
pub open spec fn sprite_source(
    frame: Seq<u32>,
    fw: int,
    fh: int,
    ox: int,
    oy: int,
    scale: int,
    cx: int,
    cy: int,
) -> Option<u32> {
    let dx = cx - ox * scale;
    let dy = cy - oy * scale;
    if 0 <= dx < fw * scale && 0 <= dy < fh * scale {
        Some(frame[(dy / scale) * fw + dx / scale])
    } else {
        None
    }
}

/// A canvas pixel after a sprite pixel is laid on it: a transparent one
/// leaves it, an opaque one replaces it, a translucent one blends over it.
pub open spec fn laid(dst: u32, src: Option<u32>) -> u32 {
    match src {
        None => dst,
        Some(p) => if chan(p, 24) == 0 {
            dst
        } else if chan(p, 24) == 255 {
            p
        } else {
            over_spec(p, dst) as u32
        },
    }
}

/// Canvas pixel `(cx, cy)` after the whole blit.
pub open spec fn blitted(
    old: Seq<u32>,
    cw: int,
    frame: Seq<u32>,
    fw: int,
    fh: int,
    ox: int,
    oy: int,
    scale: int,
    cx: int,
    cy: int,
) -> u32 {
    laid(old[cy * cw + cx], sprite_source(frame, fw, fh, ox, oy, scale, cx, cy))
}

proof fn lemma_index_unique(cw: int, ch: int, x1: int, y1: int, x2: int, y2: int)
    requires
        0 <= x1 < cw,
        0 <= x2 < cw,
        0 <= y1 < ch,
        0 <= y2 < ch,
        y1 * cw + x1 == y2 * cw + x2,
    ensures
        x1 == x2 && y1 == y2,
{
    if y1 < y2 {
        assert(y1 * cw + x1 < y2 * cw + x2) by (nonlinear_arith)
            requires
                y1 < y2,
                0 <= x1 < cw,
                0 <= x2,
        ;
    } else if y2 < y1 {
        assert(y2 * cw + x2 < y1 * cw + x1) by (nonlinear_arith)
            requires
                y2 < y1,
                0 <= x2 < cw,
                0 <= x1,
        ;
    }
}

proof fn lemma_index_in(cw: int, ch: int, x: int, y: int)
    requires
        0 <= x < cw,
        0 <= y < ch,
    ensures
        0 <= y * cw + x < cw * ch,
{
    assert(0 <= y * cw + x < cw * ch) by (nonlinear_arith)
        requires
            0 <= x < cw,
            0 <= y < ch,
    ;
}

proof fn lemma_source_in(fw: int, fh: int, scale: int, dx: int, dy: int)
    requires
        scale >= 1,
        0 <= dx < fw * scale,
        0 <= dy < fh * scale,
    ensures
        0 <= dx / scale < fw,
        0 <= dy / scale < fh,
        0 <= (dy / scale) * fw + dx / scale < fw * fh,
{
    assert(0 <= dx / scale < fw) by (nonlinear_arith)
        requires
            scale >= 1,
            0 <= dx < fw * scale,
    ;
    assert(0 <= dy / scale < fh) by (nonlinear_arith)
        requires
            scale >= 1,
            0 <= dy < fh * scale,
    ;
    lemma_index_in(fw, fh, dx / scale, dy / scale);
}

proof fn lemma_corner_fits(o: int, scale: int, extent: int)
    requires
        i32::MIN <= o <= i32::MAX,
        1 <= scale <= u32::MAX,
        0 <= extent <= u32::MAX,
    ensures
        i64::MIN <= o * scale <= i64::MAX,
        i64::MIN <= o * scale + extent <= i64::MAX,
{
    assert(i64::MIN <= o * scale <= i64::MAX - u32::MAX) by (nonlinear_arith)
        requires
            i32::MIN <= o <= i32::MAX,
            1 <= scale <= u32::MAX,
    ;
}

/// Lay one frame pixel on a canvas pixel.
fn lay(dst: u32, p: u32) -> (r: u32)
    ensures
        r == laid(dst, Some(p)),
{
    let a = p >> 24;
    assert(a == chan(p, 24)) by (bit_vector)
        requires
            a == p >> 24,
            chan(p, 24) == (p as int / 0x100_0000) % 256,
    ;
    if a == 0 {
        dst
    } else if a == 0xff {
        p
    } else {
        over(p, dst)
    }
}

/// Draw the frame (`fw` x `fh`, row by row) at logical `(ox, oy)` scaled by
/// `scale` onto the canvas (`cw` x `ch`). Only the part inside the canvas is
/// drawn (nothing at all at scale 0); every canvas pixel ends up as
/// [`blitted`] says.
pub fn blit_frame(
    canvas: &mut Vec<u32>,
    cw: u32,
    ch: u32,
    frame: &Vec<u32>,
    fw: u32,
    fh: u32,
    ox: i32,
    oy: i32,
    scale: u32,
)
    requires
        old(canvas)@.len() == cw * ch,
        frame@.len() == fw * fh,
        fw * scale <= u32::MAX,
        fh * scale <= u32::MAX,
    ensures
        final(canvas)@.len() == old(canvas)@.len(),
        forall|cx: int, cy: int|
            0 <= cx < cw && 0 <= cy < ch ==> #[trigger] final(canvas)@[cy * cw + cx] == blitted(
                old(canvas)@,
                cw as int,
                frame@,
                fw as int,
                fh as int,
                ox as int,
                oy as int,
                scale as int,
                cx,
                cy,
            ),
        forall|cx: int, cy: int|
            0 <= cx < cw && 0 <= cy < ch && (sprite_source(
                frame@,
                fw as int,
                fh as int,
                ox as int,
                oy as int,
                scale as int,
                cx,
                cy,
            ) matches Some(p) && p < 0x100_0000) ==> #[trigger] final(canvas)@[cy * cw + cx] == old(canvas)@[cy
                * cw + cx],
{
    if scale == 0 {
        // Every frame pixel covers no canvas pixel: nothing is drawn.
        assert forall|cx: int, cy: int| 0 <= cx < cw && 0 <= cy < ch implies #[trigger] canvas@[cy * cw + cx]
            == blitted(canvas@, cw as int, frame@, fw as int, fh as int, ox as int, oy as int, scale as int, cx, cy) by {
            assert(fw as int * scale as int == 0);
        }
        proof {
            lemma_blit_keeps_transparent(canvas@, canvas@, cw as int, ch as int, frame@, fw as int, fh as int, ox as int, oy as int, scale as int);
        }
        return;
    }
    let frame_len = frame.len();
    let canvas_len = canvas.len();
    let ghost old_c = canvas@;
    let ghost cwi = cw as int;
    let ghost chi = ch as int;
    proof {
        lemma_corner_fits(ox as int, scale as int, fw as int * scale as int);
        lemma_corner_fits(oy as int, scale as int, fh as int * scale as int);
    }
    let bx: i64 = ox as i64 * scale as i64;
    let by: i64 = oy as i64 * scale as i64;
    let ow: i64 = fw as i64 * scale as i64;
    let oh: i64 = fh as i64 * scale as i64;
    // Canvas rows and columns the sprite covers.
    let x0: i64 = if bx > 0 { bx } else { 0 };
    let y0: i64 = if by > 0 { by } else { 0 };
    let x1: i64 = if bx + ow < cw as i64 { bx + ow } else { cw as i64 };
    let y1: i64 = if by + oh < ch as i64 { by + oh } else { ch as i64 };
    assert forall|cx: int, cy: int| 0 <= cx < cw && 0 <= cy < ch && !(x0 <= cx < x1 && y0 <= cy < y1) implies
        #[trigger] blitted(old_c, cwi, frame@, fw as int, fh as int, ox as int, oy as int, scale as int, cx, cy)
            == old_c[cy * cwi + cx] by {
    }
    let mut cy: i64 = y0;
    while cy < y1
        invariant
            canvas@.len() == cwi * chi,
            old_c.len() == cwi * chi,
            frame@.len() == fw * fh,
            frame_len == frame@.len(),
            canvas_len == cwi * chi,
            scale >= 1,
            bx == ox * scale,
            by == oy * scale,
            ow == fw * scale,
            oh == fh * scale,
            x0 == (if bx > 0 { bx } else { 0 }),
            y0 == (if by > 0 { by } else { 0 }),
            x1 == (if bx + ow < cwi { bx + ow } else { cwi }),
            y1 == (if by + oh < chi { by + oh } else { chi }),
            y0 <= cy,
            cy <= y1 || y1 < y0,
            cwi == cw,
            chi == ch,
            forall|px: int, py: int|
                0 <= px < cw && 0 <= py < ch && !(x0 <= px < x1 && y0 <= py < y1) ==> #[trigger] blitted(
                    old_c,
                    cwi,
                    frame@,
                    fw as int,
                    fh as int,
                    ox as int,
                    oy as int,
                    scale as int,
                    px,
                    py,
                ) == old_c[py * cwi + px],
            forall|px: int, py: int|
                0 <= px < cw && 0 <= py < ch ==> #[trigger] canvas@[py * cwi + px] == (if py < cy {
                    blitted(old_c, cwi, frame@, fw as int, fh as int, ox as int, oy as int, scale as int, px, py)
                } else {
                    old_c[py * cwi + px]
                }),
        decreases y1 - cy,
    {
        let mut cx: i64 = x0;
        while cx < x1
            invariant
                canvas@.len() == cwi * chi,
                old_c.len() == cwi * chi,
                frame@.len() == fw * fh,
                frame_len == frame@.len(),
                canvas_len == cwi * chi,
                scale >= 1,
                bx == ox * scale,
                by == oy * scale,
                ow == fw * scale,
                oh == fh * scale,
                x0 == (if bx > 0 { bx } else { 0 }),
                y0 == (if by > 0 { by } else { 0 }),
                x1 == (if bx + ow < cwi { bx + ow } else { cwi }),
                y1 == (if by + oh < chi { by + oh } else { chi }),
                y0 <= cy < y1,
                x0 <= cx,
                cx <= x1 || x1 < x0,
                cwi == cw,
                chi == ch,
                forall|px: int, py: int|
                    0 <= px < cw && 0 <= py < ch && !(x0 <= px < x1 && y0 <= py < y1) ==> #[trigger] blitted(
                        old_c,
                        cwi,
                        frame@,
                        fw as int,
                        fh as int,
                        ox as int,
                        oy as int,
                        scale as int,
                        px,
                        py,
                    ) == old_c[py * cwi + px],
                forall|px: int, py: int|
                    0 <= px < cw && 0 <= py < ch ==> #[trigger] canvas@[py * cwi + px] == (if py < cy || (py
                        == cy && px < cx) {
                        blitted(old_c, cwi, frame@, fw as int, fh as int, ox as int, oy as int, scale as int, px, py)
                    } else {
                        old_c[py * cwi + px]
                    }),
            decreases x1 - cx,
        {
            let dx: i64 = cx - bx;
            let dy: i64 = cy - by;
            proof {
                lemma_source_in(fw as int, fh as int, scale as int, dx as int, dy as int);
                lemma_index_in(cwi, chi, cx as int, cy as int);
            }
            let sx: u64 = (dx as u64) / (scale as u64);
            let sy: u64 = (dy as u64) / (scale as u64);
            assert(sy == (dy as int) / (scale as int) && sx == (dx as int) / (scale as int));
            assert(sy * fw + sx < fw * fh);
            assert(sy * fw <= sy * fw + sx);
            let fi: usize = (sy as usize) * (fw as usize) + sx as usize;
            let idx: usize = (cy as usize) * (cw as usize) + cx as usize;
            let p = frame[fi];
            let v = lay(canvas[idx], p);
            canvas.set(idx, v);
            proof {
                assert(sprite_source(frame@, fw as int, fh as int, ox as int, oy as int, scale as int, cx as int, cy as int)
                    == Some(p));
                assert forall|px: int, py: int| 0 <= px < cw && 0 <= py < ch implies #[trigger] canvas@[py * cwi
                    + px] == (if py < cy || (py == cy && px < cx + 1) {
                    blitted(old_c, cwi, frame@, fw as int, fh as int, ox as int, oy as int, scale as int, px, py)
                } else {
                    old_c[py * cwi + px]
                }) by {
                    lemma_index_in(cwi, chi, px, py);
                    if py * cwi + px == idx {
                        lemma_index_unique(cwi, chi, px, py, cx as int, cy as int);
                    }
                }
            }
            cx = cx + 1;
        }
        proof {
            assert forall|px: int, py: int| 0 <= px < cw && 0 <= py < ch implies #[trigger] canvas@[py * cwi + px]
                == (if py < cy + 1 {
                blitted(old_c, cwi, frame@, fw as int, fh as int, ox as int, oy as int, scale as int, px, py)
            } else {
                old_c[py * cwi + px]
            }) by {
                if py == cy && !(px < cx) {
                    assert(!(x0 <= px < x1));
                }
            }
        }
        cy = cy + 1;
    }
    assert forall|cx: int, cy2: int| 0 <= cx < cw && 0 <= cy2 < ch implies #[trigger] canvas@[cy2 * cwi + cx]
        == blitted(old_c, cwi, frame@, fw as int, fh as int, ox as int, oy as int, scale as int, cx, cy2) by {
        if !(cy2 < cy) {
            assert(!(y0 <= cy2 < y1));
        }
    }
    proof {
        lemma_blit_keeps_transparent(old_c, canvas@, cwi, chi, frame@, fw as int, fh as int, ox as int, oy as int, scale as int);
    }
}

/// A canvas that holds the blit everywhere is unchanged under the frame's
/// fully transparent pixels.
proof fn lemma_blit_keeps_transparent(
    old: Seq<u32>,
    new: Seq<u32>,
    cw: int,
    ch: int,
    frame: Seq<u32>,
    fw: int,
    fh: int,
    ox: int,
    oy: int,
    scale: int,
)
    requires
        forall|cx: int, cy: int|
            0 <= cx < cw && 0 <= cy < ch ==> #[trigger] new[cy * cw + cx] == blitted(old, cw, frame, fw, fh, ox, oy, scale, cx, cy),
    ensures
        forall|cx: int, cy: int|
            0 <= cx < cw && 0 <= cy < ch && (sprite_source(frame, fw, fh, ox, oy, scale, cx, cy) matches Some(p)
                && p < 0x100_0000) ==> #[trigger] new[cy * cw + cx] == old[cy * cw + cx],
{
    assert forall|cx: int, cy: int|
        0 <= cx < cw && 0 <= cy < ch && (sprite_source(frame, fw, fh, ox, oy, scale, cx, cy) matches Some(p)
            && p < 0x100_0000) implies #[trigger] new[cy * cw + cx] == old[cy * cw + cx] by {
        law_blit_keeps_pixels_under_transparent_ones(old, cw, frame, fw, fh, ox, oy, scale, cx, cy);
    }
}

/// A sprite ready to draw: its frame (already oriented and faded), and its
/// top-left corner relative to the buffer, in logical pixels.
#[derive(Debug, Clone, PartialEq, Eq)]
pub struct SpriteFrame {
    pub argb: Vec<u32>,
    pub w: u32,
    pub h: u32,
    pub x: i32,
    pub y: i32,
}

/// The sprite can be drawn at `scale`.
pub open spec fn sprite_ok(s: SpriteFrame, scale: int) -> bool {
    &&& s.argb@.len() == s.w * s.h
    &&& s.w * scale <= u32::MAX
    &&& s.h * scale <= u32::MAX
}

/// Pixel `(cx, cy)` of a transparent buffer after the sprites were drawn in
/// order (later ones on top).
pub open spec fn composed(sprites: Seq<SpriteFrame>, scale: int, cx: int, cy: int) -> u32
    decreases sprites.len(),
{
    if sprites.len() == 0 {
        0
    } else {
        let s = sprites.last();
        laid(
            composed(sprites.drop_last(), scale, cx, cy),
            sprite_source(s.argb@, s.w as int, s.h as int, s.x as int, s.y as int, scale, cx, cy),
        )
    }
}

/// The pet's buffer (`cw` x `ch` physical pixels, already times `scale`):
/// transparent, with the sprites drawn in order relative to its top-left
/// corner.
pub fn compose(cw: u32, ch: u32, sprites: &Vec<SpriteFrame>, scale: u32) -> (canvas: Vec<u32>)
    requires
        cw * ch <= usize::MAX,
        forall|i: int| 0 <= i < sprites@.len() ==> sprite_ok(#[trigger] sprites@[i], scale as int),
    ensures
        canvas@.len() == cw * ch,
        forall|cx: int, cy: int|
            0 <= cx < cw && 0 <= cy < ch ==> #[trigger] canvas@[cy * cw + cx] == composed(sprites@, scale as int, cx, cy),
{
    let n: usize = (cw as usize) * (ch as usize);
    let mut canvas: Vec<u32> = Vec::new();
    let mut k: usize = 0;
    while k < n
        invariant
            0 <= k <= n,
            canvas@.len() == k,
            forall|j: int| 0 <= j < k ==> #[trigger] canvas@[j] == 0,
        decreases n - k,
    {
        canvas.push(0);
        k += 1;
    }
    proof {
        assert forall|cx: int, cy: int| 0 <= cx < cw && 0 <= cy < ch implies #[trigger] canvas@[cy * cw + cx]
            == composed(sprites@.take(0), scale as int, cx, cy) by {
            lemma_index_in(cw as int, ch as int, cx, cy);
        }
    }
    let mut i: usize = 0;
    while i < sprites.len()
        invariant
            0 <= i <= sprites@.len(),
            canvas@.len() == cw * ch,
            forall|j: int| 0 <= j < sprites@.len() ==> sprite_ok(#[trigger] sprites@[j], scale as int),
            forall|cx: int, cy: int|
                0 <= cx < cw && 0 <= cy < ch ==> #[trigger] canvas@[cy * cw + cx] == composed(
                    sprites@.take(i as int),
                    scale as int,
                    cx,
                    cy,
                ),
        decreases sprites@.len() - i,
    {
        let s = &sprites[i];
        assert(sprite_ok(sprites@[i as int], scale as int));
        let ghost before = canvas@;
        blit_frame(&mut canvas, cw, ch, &s.argb, s.w, s.h, s.x, s.y, scale);
        proof {
            assert(sprites@.take(i + 1).drop_last() =~= sprites@.take(i as int));
            assert(sprites@.take(i + 1).last() == sprites@[i as int]);
            assert forall|cx: int, cy: int| 0 <= cx < cw && 0 <= cy < ch implies #[trigger] canvas@[cy * cw + cx]
                == composed(sprites@.take(i + 1), scale as int, cx, cy) by {
                assert(before[cy * cw + cx] == composed(sprites@.take(i as int), scale as int, cx, cy));
            }
        }
        i += 1;
    }
    assert(sprites@.take(i as int) =~= sprites@);
    canvas
}

/// Byte `k` (0 = blue) of an ARGB word in little-endian order.
pub open spec fn le_byte(p: u32, k: int) -> u8 {
    (if k == 0 {
        p % 0x100
    } else if k == 1 {
        (p / 0x100) % 0x100
    } else if k == 2 {
        (p / 0x1_0000) % 0x100
    } else {
        p / 0x100_0000
    }) as u8
}

/// The buffer as `wl_shm`/X11 want it: ARGB8888 little-endian, B, G, R, A
/// for each pixel.
pub fn canvas_bytes(canvas: &Vec<u32>) -> (r: Vec<u8>)
    requires
        canvas.len() * 4 <= usize::MAX,
    ensures
        r@.len() == 4 * canvas@.len(),
        forall|i: int, k: int| 0 <= i < canvas@.len() && 0 <= k < 4 ==> #[trigger] r@[4 * i + k] == le_byte(canvas@[i], k),
{
    let mut out: Vec<u8> = Vec::new();
    let mut i: usize = 0;
    while i < canvas.len()
        invariant
            0 <= i <= canvas.len(),
            out@.len() == 4 * i,
            forall|j: int, k: int| 0 <= j < i && 0 <= k < 4 ==> #[trigger] out@[4 * j + k] == le_byte(canvas@[j], k),
        decreases canvas.len() - i,
    {
        let p = canvas[i];
        let ghost before = out@;
        out.push((p % 0x100) as u8);
        out.push(((p / 0x100) % 0x100) as u8);
        out.push(((p / 0x1_0000) % 0x100) as u8);
        out.push((p / 0x100_0000) as u8);
        assert forall|j: int, k: int| 0 <= j < i + 1 && 0 <= k < 4 implies #[trigger] out@[4 * j + k] == le_byte(canvas@[j], k) by {
            if j < i {
                assert(out@[4 * j + k] == before[4 * j + k]);
            }
        }
        i += 1;
    }
    out
}

/// Drawing is order-sensitive only where sprites overlap: a pixel that no
/// sprite covers stays transparent, and one covered only by an opaque pixel
/// of the topmost sprite shows exactly that pixel.
pub proof fn law_top_opaque_pixel_wins(sprites: Seq<SpriteFrame>, scale: int, cx: int, cy: int)
    requires
        sprites.len() > 0,
    ensures
        (forall|i: int| 0 <= i < sprites.len() ==> #[trigger] sprite_source(
            sprites[i].argb@,
            sprites[i].w as int,
            sprites[i].h as int,
            sprites[i].x as int,
            sprites[i].y as int,
            scale,
            cx,
            cy,
        ) is None) ==> composed(sprites, scale, cx, cy) == 0,
        ({
            let s = sprites.last();
            let top = sprite_source(s.argb@, s.w as int, s.h as int, s.x as int, s.y as int, scale, cx, cy);
            (top is Some && chan(top->0, 24) == 255) ==> composed(sprites, scale, cx, cy) == top->0
        }),
    decreases sprites.len(),
{
    if sprites.len() > 1 {
        let rest = sprites.drop_last();
        if forall|i: int| 0 <= i < sprites.len() ==> #[trigger] sprite_source(
            sprites[i].argb@,
            sprites[i].w as int,
            sprites[i].h as int,
            sprites[i].x as int,
            sprites[i].y as int,
            scale,
            cx,
            cy,
        ) is None {
            assert forall|i: int| 0 <= i < rest.len() implies #[trigger] sprite_source(
                rest[i].argb@,
                rest[i].w as int,
                rest[i].h as int,
                rest[i].x as int,
                rest[i].y as int,
                scale,
                cx,
                cy,
            ) is None by {
                assert(rest[i] == sprites[i]);
            }
            law_top_opaque_pixel_wins(rest, scale, cx, cy);
            let k = sprites.len() - 1;
            assert(sprites[k] == sprites.last());
            assert(sprite_source(
                sprites[k].argb@,
                sprites[k].w as int,
                sprites[k].h as int,
                sprites[k].x as int,
                sprites[k].y as int,
                scale,
                cx,
                cy,
            ) is None);
        }
    } else {
        if forall|i: int| 0 <= i < sprites.len() ==> #[trigger] sprite_source(
            sprites[i].argb@,
            sprites[i].w as int,
            sprites[i].h as int,
            sprites[i].x as int,
            sprites[i].y as int,
            scale,
            cx,
            cy,
        ) is None {
            assert(sprites[0] == sprites.last());
            assert(sprite_source(
                sprites[0].argb@,
                sprites[0].w as int,
                sprites[0].h as int,
                sprites[0].x as int,
                sprites[0].y as int,
                scale,
                cx,
                cy,
            ) is None);
            assert(sprites.drop_last().len() == 0);
            assert(composed(sprites.drop_last(), scale, cx, cy) == 0);
        }
    }
}

/// What a blit does to one canvas pixel: outside the sprite, and under a
/// fully transparent frame pixel (alpha 0), the pixel stays exactly as it
/// was; under a fully opaque frame pixel (alpha 255) it becomes that pixel.
pub proof fn law_blit_keeps_pixels_under_transparent_ones(
    old: Seq<u32>,
    cw: int,
    frame: Seq<u32>,
    fw: int,
    fh: int,
    ox: int,
    oy: int,
    scale: int,
    cx: int,
    cy: int,
)
    ensures
        ({
            let after = blitted(old, cw, frame, fw, fh, ox, oy, scale, cx, cy);
            match sprite_source(frame, fw, fh, ox, oy, scale, cx, cy) {
                None => after == old[cy * cw + cx],
                Some(p) => {
                    &&& p < 0x100_0000 ==> after == old[cy * cw + cx]
                    &&& p >= 0xff00_0000 ==> after == p
                },
            }
        }),
{
    match sprite_source(frame, fw, fh, ox, oy, scale, cx, cy) {
        None => {},
        Some(p) => {
            if p < 0x100_0000 {
                assert(p as int / 0x100_0000 == 0);
            }
            if p >= 0xff00_0000 {
                assert(p as int / 0x100_0000 == 255);
            }
        },
    }
}

/// In a composed buffer, a pixel where the topmost sprite is fully
/// transparent (or absent) shows exactly what the sprites below it drew.
pub proof fn law_transparent_top_pixel_shows_what_is_below(sprites: Seq<SpriteFrame>, scale: int, cx: int, cy: int)
    requires
        sprites.len() > 0,
    ensures
        ({
            let s = sprites.last();
            let top = sprite_source(s.argb@, s.w as int, s.h as int, s.x as int, s.y as int, scale, cx, cy);
            (top is None || top->0 < 0x100_0000) ==> composed(sprites, scale, cx, cy) == composed(
                sprites.drop_last(),
                scale,
                cx,
                cy,
            )
        }),
{
    let s = sprites.last();
    let top = sprite_source(s.argb@, s.w as int, s.h as int, s.x as int, s.y as int, scale, cx, cy);
    if top is Some && top->0 < 0x100_0000 {
        assert(top->0 as int / 0x100_0000 == 0);
    }
}

} // verus!
