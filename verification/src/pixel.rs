//! Pixel and geometry arithmetic of the overlay backends: blending,
//! byte order for the X server, clamping to X11's 16-bit coordinates, and
//! the logical size of a Wayland output.

use vstd::prelude::*;

verus! {

/// One channel of `src over dst` for premultiplied ARGB:
/// `s + round(d * (255 - a) / 255)`, at most 255.
pub open spec fn over_channel(s: int, d: int, inv: int) -> int {
    let v = s + (d * inv + 127) / 255;
    if v <= 255 { v } else { 255 }
}

pub open spec fn chan(px: u32, shift: int) -> int {
    (px as int / pow256(shift)) % 256
}

pub open spec fn pow256(shift: int) -> int {
    if shift == 24 {
        0x100_0000
    } else if shift == 16 {
        0x1_0000
    } else if shift == 8 {
        0x100
    } else {
        1
    }
}

/// Premultiplied `src over dst`, channel by channel.
pub open spec fn over_spec(src: u32, dst: u32) -> int {
    let inv = 255 - chan(src, 24);
    over_channel(chan(src, 24), chan(dst, 24), inv) * 0x100_0000 + over_channel(
        chan(src, 16),
        chan(dst, 16),
        inv,
    ) * 0x1_0000 + over_channel(chan(src, 8), chan(dst, 8), inv) * 0x100 + over_channel(
        chan(src, 0),
        chan(dst, 0),
        inv,
    )
}

fn channel(px: u32, shift: u32) -> (r: u32)
    requires
        shift == 0 || shift == 8 || shift == 16 || shift == 24,
    ensures
        r == chan(px, shift as int),
        r < 256,
{
    let r = (px >> shift) & 0xff;
    assert(r == (px as int / pow256(shift as int)) % 256) by (bit_vector)
        requires
            shift == 0 || shift == 8 || shift == 16 || shift == 24,
            r == (px >> shift) & 0xff,
            pow256(shift as int) == (if shift == 24 {
                0x100_0000int
            } else if shift == 16 {
                0x1_0000int
            } else if shift == 8 {
                0x100int
            } else {
                1int
            }),
    ;
    assert(r < 256) by (bit_vector)
        requires
            r == (px >> shift) & 0xff,
    ;
    r
}

fn blend_channel(s: u32, d: u32, inv: u32) -> (r: u32)
    requires
        s < 256,
        d < 256,
        inv < 256,
    ensures
        r == over_channel(s as int, d as int, inv as int),
        r <= 255,
{
    assert(d * inv <= 255 * 255) by (nonlinear_arith)
        requires
            d < 256,
            inv < 256,
    ;
    let v = s + (d * inv + 127) / 255;
    if v <= 255 { v } else { 255 }
}

/// Blend a premultiplied source pixel over a destination pixel:
/// `dst = src + dst * (1 - alpha)` per channel (ARGB as `u32`).
pub fn over(src: u32, dst: u32) -> (r: u32)
    ensures
        r == over_spec(src, dst),
{
    let a = channel(src, 24);
    let inv = 255 - a;
    let ca = blend_channel(a, channel(dst, 24), inv);
    let cr = blend_channel(channel(src, 16), channel(dst, 16), inv);
    let cg = blend_channel(channel(src, 8), channel(dst, 8), inv);
    let cb = blend_channel(channel(src, 0), channel(dst, 0), inv);
    ca * 0x100_0000 + cr * 0x1_0000 + cg * 0x100 + cb
}

proof fn lemma_keep(d: int)
    requires
        0 <= d < 256,
    ensures
        (d * 255 + 127) / 255 == d,
{
    assert((d * 255 + 127) / 255 == d) by (nonlinear_arith)
        requires
            0 <= d < 256,
    ;
}

/// An opaque source replaces the destination; a fully transparent one
/// leaves it as it is.
pub proof fn law_over_opaque_and_clear(src: u32, dst: u32)
    ensures
        chan(src, 24) == 255 ==> over_spec(src, dst) == src as int,
        src == 0 ==> over_spec(src, dst) == dst as int,
{
    if src == 0 {
        lemma_keep(chan(dst, 24));
        lemma_keep(chan(dst, 16));
        lemma_keep(chan(dst, 8));
        lemma_keep(chan(dst, 0));
        assert(chan(src, 24) == 0 && chan(src, 16) == 0 && chan(src, 8) == 0 && chan(src, 0) == 0);
        assert(0 <= chan(dst, 24) < 256 && 0 <= chan(dst, 16) < 256 && 0 <= chan(dst, 8) < 256 && 0 <= chan(dst, 0) < 256);
        assert(dst as int == chan(dst, 24) * 0x100_0000 + chan(dst, 16) * 0x1_0000 + chan(dst, 8) * 0x100
            + chan(dst, 0)) by (nonlinear_arith);
    }
    if chan(src, 24) == 255 {
        assert(src as int == chan(src, 24) * 0x100_0000 + chan(src, 16) * 0x1_0000 + chan(src, 8) * 0x100
            + chan(src, 0)) by (nonlinear_arith);
    }
}

/// `ConfigureWindow` takes INT16: clamp instead of wrapping around.
pub fn clamp_i16(v: i32) -> (r: i32)
    ensures
        r == (if v < i16::MIN { i16::MIN as i32 } else if v > i16::MAX { i16::MAX as i32 } else { v }),
{
    if v < -32768 {
        -32768
    } else if v > 32767 {
        32767
    } else {
        v
    }
}

/// Byte order of the X server's images.
#[derive(Debug, Clone, Copy, PartialEq, Eq, Structural)]
pub enum ImageOrder {
    LsbFirst,
    MsbFirst,
}

/// Canvas bytes (ARGB little-endian: B, G, R, A) as the X server wants
/// them: unchanged for an LSB-first server, every 4-byte pixel reversed for
/// an MSB-first one.
pub fn to_wire(canvas: &[u8], order: ImageOrder) -> (r: Vec<u8>)
    requires
        canvas@.len() % 4 == 0,
    ensures
        r@.len() == canvas@.len(),
        order == ImageOrder::LsbFirst ==> r@ == canvas@,
        order == ImageOrder::MsbFirst ==> forall|i: int|
            0 <= i < canvas@.len() ==> #[trigger] r@[i] == canvas@[i - i % 4 + 3 - i % 4],
{
    let mut out: Vec<u8> = Vec::new();
    let n = canvas.len();
    let mut i: usize = 0;
    while i < n
        invariant
            n == canvas@.len(),
            n % 4 == 0,
            i % 4 == 0,
            0 <= i <= n,
            out@.len() == i,
            order == ImageOrder::LsbFirst ==> out@ == canvas@.take(i as int),
            order == ImageOrder::MsbFirst ==> forall|k: int|
                0 <= k < i ==> #[trigger] out@[k] == canvas@[k - k % 4 + 3 - k % 4],
        decreases n - i,
    {
        if order == ImageOrder::LsbFirst {
            out.push(canvas[i]);
            out.push(canvas[i + 1]);
            out.push(canvas[i + 2]);
            out.push(canvas[i + 3]);
            assert(out@ =~= canvas@.take(i + 4));
        } else {
            let ghost before = out@;
            out.push(canvas[i + 3]);
            out.push(canvas[i + 2]);
            out.push(canvas[i + 1]);
            out.push(canvas[i]);
            assert forall|k: int| 0 <= k < i + 4 implies #[trigger] out@[k] == canvas@[k - k % 4 + 3 - k
                % 4] by {
                if k < i {
                    assert(out@[k] == before[k]);
                } else {
                    assert(k - k % 4 == i);
                }
            }
        }
        i = i + 4;
    }
    assert(order == ImageOrder::LsbFirst ==> canvas@.take(n as int) =~= canvas@);
    out
}

/// Logical size of a Wayland output before the division: `(w, h, s)` means
/// `(w / s, h / s)`. The xdg-output logical size wins when it is positive;
/// otherwise the current mode divided by the integer scale (at least 1),
/// with sides swapped for a 90/270 degree transform; `None` without either.
pub fn output_logical_size(
    logical: Option<(i32, i32)>,
    current_mode: Option<(i32, i32)>,
    scale_factor: i32,
    swapped: bool,
) -> (r: Option<(i32, i32, i32)>)
    ensures
        ({
            let from_logical = logical matches Some(p) && p.0 > 0 && p.1 > 0;
            if from_logical {
                r == Some((logical.unwrap().0, logical.unwrap().1, 1i32))
            } else {
                match current_mode {
                    None => r is None,
                    Some(m) => if m.0 <= 0 || m.1 <= 0 {
                        r is None
                    } else {
                        let s = if scale_factor > 1 { scale_factor } else { 1 };
                        r == Some(if swapped { (m.1, m.0, s) } else { (m.0, m.1, s) })
                    },
                }
            }
        }),
{
    if let Some((w, h)) = logical {
        if w > 0 && h > 0 {
            return Some((w, h, 1));
        }
    }
    let (mw, mh) = match current_mode {
        Some(m) => m,
        None => return None,
    };
    if mw <= 0 || mh <= 0 {
        return None;
    }
    let s = if scale_factor > 1 { scale_factor } else { 1 };
    if swapped {
        Some((mh, mw, s))
    } else {
        Some((mw, mh, s))
    }
}


/// Byte `k` (0 = alpha) of an ARGB word in network byte order.
pub open spec fn be_byte(p: u32, k: int) -> u8 {
    (if k == 0 {
        p / 0x100_0000
    } else if k == 1 {
        (p / 0x1_0000) % 0x100
    } else if k == 2 {
        (p / 0x100) % 0x100
    } else {
        p % 0x100
    }) as u8
}

/// ARGB words as an icon's pixel data: each word big-endian (A, R, G, B),
/// the byte order the tray protocol uses.
pub fn icon_bytes(argb: &Vec<u32>) -> (r: Vec<u8>)
    requires
        argb.len() * 4 <= usize::MAX,
    ensures
        r@.len() == 4 * argb@.len(),
        forall|i: int, k: int| 0 <= i < argb@.len() && 0 <= k < 4 ==> #[trigger] r@[4 * i + k] == be_byte(argb@[i], k),
{
    let mut out: Vec<u8> = Vec::new();
    let mut i: usize = 0;
    while i < argb.len()
        invariant
            0 <= i <= argb.len(),
            out@.len() == 4 * i,
            forall|j: int, k: int| 0 <= j < i && 0 <= k < 4 ==> #[trigger] out@[4 * j + k] == be_byte(argb@[j], k),
        decreases argb.len() - i,
    {
        let p = argb[i];
        let ghost before = out@;
        out.push((p / 0x100_0000) as u8);
        out.push(((p / 0x1_0000) % 0x100) as u8);
        out.push(((p / 0x100) % 0x100) as u8);
        out.push((p % 0x100) as u8);
        assert forall|j: int, k: int| 0 <= j < i + 1 && 0 <= k < 4 implies #[trigger] out@[4 * j + k] == be_byte(argb@[j], k) by {
            if j < i {
                assert(out@[4 * j + k] == before[4 * j + k]);
            }
        }
        i += 1;
    }
    out
}

} // verus!
