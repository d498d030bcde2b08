use driftling::blit::{blit_frame, canvas_bytes, compose, SpriteFrame};
use driftling::cluster::scene_bounds;

/// Canvas `w` wide: the ARGB word at `(x, y)`.
fn pixel(canvas: &[u32], w: u32, x: u32, y: u32) -> u32 {
    canvas[(y * w + x) as usize]
}

/// A B
/// C .   (bottom right transparent)
fn frame_2x2() -> Vec<u32> {
    vec![0xff_11_00_00, 0xff_00_22_00, 0xff_00_00_33, 0x00_00_00_00]
}

/// Premultiplied pixel times a transparency in 0..=1, rounded per channel.
fn fade(px: u32, alpha: f32) -> u32 {
    if alpha >= 0.996 {
        return px;
    }
    let k = alpha.clamp(0.0, 1.0);
    let ch = |sh: u32| ((((px >> sh) & 0xff) as f32 * k).round() as u32).min(255);
    (ch(24) << 24) | (ch(16) << 16) | (ch(8) << 8) | ch(0)
}

#[test]
fn blit_scale1_pixel_perfect() {
    let f = frame_2x2();
    let mut canvas = vec![0u32; 4 * 4];
    blit_frame(&mut canvas, 4, 4, &f, 2, 2, 1, 1, 1);
    assert_eq!(pixel(&canvas, 4, 1, 1), 0xff_11_00_00);
    assert_eq!(pixel(&canvas, 4, 2, 1), 0xff_00_22_00);
    assert_eq!(pixel(&canvas, 4, 1, 2), 0xff_00_00_33);
    // A transparent sprite pixel keeps the background.
    assert_eq!(pixel(&canvas, 4, 2, 2), 0);
    // Around it: transparent.
    assert_eq!(pixel(&canvas, 4, 0, 0), 0);
    assert_eq!(pixel(&canvas, 4, 3, 3), 0);
}

#[test]
fn blit_blends_translucent_over_opaque() {
    let f = frame_2x2();
    let mut canvas = vec![0u32; 2 * 2];
    // First the opaque layer.
    blit_frame(&mut canvas, 2, 2, &f, 2, 2, 0, 0, 1);
    // On top, the same frame half transparent.
    let half: Vec<u32> = f.iter().map(|&p| fade(p, 0.5)).collect();
    blit_frame(&mut canvas, 2, 2, &half, 2, 2, 0, 0, 1);
    let px = pixel(&canvas, 2, 0, 0);
    assert_eq!(px >> 24, 0xff, "the pixel must stay opaque: {px:08x}");
}

#[test]
fn blit_scale2_nearest_neighbour() {
    let f = frame_2x2();
    let mut canvas = vec![0u32; 4 * 4];
    blit_frame(&mut canvas, 4, 4, &f, 2, 2, 0, 0, 2);
    // Each frame pixel is a 2x2 block.
    for (x, y) in [(0, 0), (1, 0), (0, 1), (1, 1)] {
        assert_eq!(pixel(&canvas, 4, x, y), 0xff_11_00_00);
    }
    for (x, y) in [(2, 0), (3, 1)] {
        assert_eq!(pixel(&canvas, 4, x, y), 0xff_00_22_00);
    }
    for (x, y) in [(2, 2), (3, 3)] {
        assert_eq!(pixel(&canvas, 4, x, y), 0); // transparent block
    }
}

#[test]
fn blit_clips_out_of_bounds() {
    let f = frame_2x2();
    let mut canvas = vec![0u32; 2 * 2];
    // Half past the top-left corner: no panic, the visible part is right.
    blit_frame(&mut canvas, 2, 2, &f, 2, 2, -1, -1, 1);
    assert_eq!(pixel(&canvas, 2, 0, 0), 0); // the sprite's transparent corner
    // Past the bottom-right edge: no panic either.
    blit_frame(&mut canvas, 2, 2, &f, 2, 2, 1, 1, 1);
    assert_eq!(pixel(&canvas, 2, 1, 1), 0xff_11_00_00);
}

#[test]
fn compose_draws_relative_to_bounds() {
    let boxes = vec![Some((100, 200, 2, 2))];
    let (bx, by, bw, bh) = scene_bounds(&boxes).unwrap();
    assert_eq!((bx, by, bw, bh), (100, 200, 2, 2));
    let sprite = SpriteFrame {
        argb: frame_2x2(),
        w: 2,
        h: 2,
        x: 100 - bx,
        y: 200 - by,
    };
    let canvas = compose(bw, bh, &vec![sprite], 1);
    // The sprite lies at (0,0) of the buffer, not at the screen's (100,200).
    assert_eq!(pixel(&canvas, bw, 0, 0), 0xff_11_00_00);
    assert_eq!(pixel(&canvas, bw, 1, 1), 0);
}

#[test]
fn later_sprites_are_drawn_on_top() {
    let under = SpriteFrame { argb: vec![0xff_00_00_ff; 4], w: 2, h: 2, x: 0, y: 0 };
    let over = SpriteFrame { argb: vec![0xff_ff_00_00, 0, 0, 0], w: 2, h: 2, x: 1, y: 1 };
    let canvas = compose(3, 3, &vec![under, over], 1);
    assert_eq!(canvas[0], 0xff_00_00_ff);
    assert_eq!(canvas[4], 0xff_ff_00_00);
    assert_eq!(canvas[5], 0);
    assert_eq!(canvas[8], 0);
    let empty = compose(2, 1, &Vec::new(), 2);
    assert_eq!(empty, vec![0, 0]);
}

#[test]
fn canvas_bytes_are_little_endian() {
    assert_eq!(
        canvas_bytes(&vec![0xff_11_22_33, 0x01_02_03_04]),
        vec![0x33, 0x22, 0x11, 0xff, 0x04, 0x03, 0x02, 0x01]
    );
}

#[test]
fn scale_zero_draws_nothing() {
    let f = frame_2x2();
    let mut canvas = vec![7u32; 2 * 2];
    blit_frame(&mut canvas, 2, 2, &f, 2, 2, 0, 0, 0);
    assert_eq!(canvas, vec![7, 7, 7, 7]);
}
