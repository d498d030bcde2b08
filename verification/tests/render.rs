use driftling::cluster::{cluster_scene, scene_bounds, touches, union};
use driftling::pixel::{clamp_i16, output_logical_size, over, to_wire, ImageOrder};
use driftling::supervise::{after_attempt_end, pace_delay, AttemptEnd, Backoff, NextStep, Pace};

/// Box of a 2x2 sprite at `(x, y)`.
fn at(x: i32, y: i32) -> Option<(i32, i32, u32, u32)> {
    Some((x, y, 2, 2))
}

#[test]
fn clusters_split_far_apart_sprites() {
    let boxes = vec![at(0, 0), at(3, 0), at(900, 500)];
    let clusters = cluster_scene(&boxes, 4, 6);
    assert_eq!(clusters.len(), 2, "two clusters: {clusters:?}");
    assert_eq!(clusters[0].sprites, vec![0, 1], "neighbours together");
    assert_eq!(clusters[0].bounds, (0, 0, 5, 2));
    assert_eq!(clusters[1].sprites, vec![2]);
    assert_eq!(clusters[1].bounds, (900, 500, 2, 2));
}

#[test]
fn clusters_merge_through_a_bridge() {
    let boxes = vec![at(0, 0), at(20, 0), at(10, 0)];
    let clusters = cluster_scene(&boxes, 9, 6);
    assert_eq!(clusters.len(), 1, "the bridge joined them: {clusters:?}");
    assert_eq!(clusters[0].sprites, vec![0, 1, 2]);
}

#[test]
fn clusters_are_capped() {
    let boxes: Vec<_> = (0..8).map(|i| at(i * 100, 0)).collect();
    let clusters = cluster_scene(&boxes, 4, 3);
    assert_eq!(clusters.len(), 3);
    let total: usize = clusters.iter().map(|c| c.sprites.len()).sum();
    assert_eq!(total, 8, "no sprite lost");
}

#[test]
fn clusters_skip_invisible() {
    assert!(cluster_scene(&vec![None], 4, 6).is_empty());
}

#[test]
fn cluster_cap_of_zero_still_allows_one() {
    let boxes = vec![at(0, 0), at(500, 0), None, at(1000, 0)];
    let clusters = cluster_scene(&boxes, 4, 0);
    assert_eq!(clusters.len(), 1);
    assert_eq!(clusters[0].sprites, vec![0, 1, 3]);
    assert_eq!(clusters[0].bounds, (0, 0, 1002, 2));
}

#[test]
fn scene_bounds_rounds_origin() {
    // Origin (10.6, -3.4) rounds to (11, -3).
    assert_eq!(scene_bounds(&vec![at(11, -3)]), Some((11, -3, 2, 2)));
}

#[test]
fn scene_bounds_unions_sprites() {
    assert_eq!(scene_bounds(&vec![at(0, 0), at(10, 4)]), Some((0, 0, 12, 6)));
}

#[test]
fn scene_bounds_skips_empty_frames_and_empty_scene() {
    assert_eq!(scene_bounds(&vec![None]), None);
    assert_eq!(scene_bounds(&vec![]), None);
}

#[test]
fn union_and_touch_geometry() {
    assert_eq!(union((0, 0, 2, 2), (3, 1, 2, 2)), (0, 0, 5, 3));
    assert!(touches((0, 0, 2, 2), (5, 0, 2, 2), 4));
    assert!(!touches((0, 0, 2, 2), (6, 0, 2, 2), 4));
}

#[test]
fn over_blends_and_opaque_replaces() {
    assert_eq!(over(0xff_11_22_33, 0xff_aa_bb_cc), 0xff_11_22_33);
    assert_eq!(over(0, 0x80_10_20_30), 0x80_10_20_30);
    // Half-transparent premultiplied over opaque stays opaque.
    assert_eq!(over(0x80_08_00_00, 0xff_11_00_00) >> 24, 0xff);
}

#[test]
fn to_wire_lsb_is_borrowed_passthrough() {
    let canvas = [0x44, 0x33, 0x22, 0x11, 0x88, 0x77, 0x66, 0x55];
    let wire = to_wire(&canvas, ImageOrder::LsbFirst);
    assert_eq!(&wire[..], &canvas);
}

#[test]
fn to_wire_msb_reverses_each_pixel() {
    // LE bytes B,G,R,A become A,R,G,B on an MSB server.
    let canvas = [0x44, 0x33, 0x22, 0x11, 0x88, 0x77, 0x66, 0x55];
    let wire = to_wire(&canvas, ImageOrder::MsbFirst);
    assert_eq!(&wire[..], &[0x11, 0x22, 0x33, 0x44, 0x55, 0x66, 0x77, 0x88]);
}

#[test]
fn clamp_i16_saturates() {
    assert_eq!(clamp_i16(100), 100);
    assert_eq!(clamp_i16(-40000), i32::from(i16::MIN));
    assert_eq!(clamp_i16(70000), i32::from(i16::MAX));
}

fn logical(size: Option<(i32, i32, i32)>) -> Option<(f32, f32)> {
    size.map(|(w, h, s)| (w as f32 / s as f32, h as f32 / s as f32))
}

#[test]
fn output_size_prefers_logical() {
    assert_eq!(
        logical(output_logical_size(Some((1920, 1080)), Some((3840, 2160)), 2, false)),
        Some((1920.0, 1080.0))
    );
}

#[test]
fn output_size_falls_back_to_mode_with_scale_and_transform() {
    assert_eq!(
        logical(output_logical_size(None, Some((3840, 2160)), 2, false)),
        Some((1920.0, 1080.0))
    );
    assert_eq!(
        logical(output_logical_size(None, Some((1920, 1080)), 1, true)),
        Some((1080.0, 1920.0))
    );
    assert_eq!(logical(output_logical_size(None, None, 1, false)), None);
    assert_eq!(logical(output_logical_size(Some((0, 0)), None, 1, false)), None);
}

#[test]
fn pace_delay_matches_budget() {
    assert_eq!(pace_delay(Pace::Active), 33);
    assert_eq!(pace_delay(Pace::Calm), 200);
    assert_eq!(pace_delay(Pace::Drowsy), 1000);
}

#[test]
fn backoff_ladder_caps_and_resets() {
    let mut b = Backoff::new();
    let quick = 1_000; // the attempt died quickly
    let secs: Vec<u64> = (0..7).map(|_| b.after_attempt(quick) / 1000).collect();
    assert_eq!(secs, vec![1, 2, 5, 10, 30, 30, 30]);
    // A stable session returns the ladder to its start.
    assert_eq!(b.after_attempt(61_000) / 1000, 1);
    assert_eq!(b.after_attempt(quick) / 1000, 2);
}

#[test]
fn exactly_a_minute_is_not_yet_stable() {
    let mut b = Backoff::new();
    assert_eq!(b.after_attempt(1_000), 1_000);
    // Only a session that lived longer than a minute resets the ladder.
    assert_eq!(b.after_attempt(60_000), 2_000);
    assert_eq!(b.after_attempt(60_001), 1_000);
}

#[test]
fn only_a_first_setup_failure_is_fatal() {
    assert_eq!(after_attempt_end(AttemptEnd::SetupFailed, 1, true), NextStep::Fail);
    assert_eq!(after_attempt_end(AttemptEnd::SetupFailed, 2, true), NextStep::Retry);
    assert_eq!(after_attempt_end(AttemptEnd::Lost, 3, true), NextStep::Retry);
    assert_eq!(after_attempt_end(AttemptEnd::Lost, 3, false), NextStep::Finish);
    assert_eq!(after_attempt_end(AttemptEnd::Exit, 1, true), NextStep::Finish);
}

#[test]
fn clusters_work_across_the_whole_i32_range() {
    let boxes = vec![
        Some((-2_000_000_000, -2_000_000_000, 10, 10)),
        Some((2_000_000_000, 2_000_000_000, 10, 10)),
        Some((-2_000_000_000 + 12, -2_000_000_000, 10, 10)),
    ];
    let c = cluster_scene(&boxes, 5, 6);
    assert_eq!(c.len(), 2);
    assert_eq!(c[0].sprites, vec![0, 2]);
    assert_eq!(c[0].bounds, (-2_000_000_000, -2_000_000_000, 22, 10));
    assert_eq!(c[1].sprites, vec![1]);
    // Capped at one: the far corners merge into a buffer 4e9 wide.
    let one = cluster_scene(&boxes, 5, 1);
    assert_eq!(one.len(), 1);
    assert_eq!(one[0].bounds, (-2_000_000_000, -2_000_000_000, 4_000_000_010, 4_000_000_010));
    assert_eq!(
        scene_bounds(&boxes),
        Some((-2_000_000_000, -2_000_000_000, 4_000_000_010, 4_000_000_010))
    );
    assert!(touches((i32::MAX - 10, 0, 10, 10), (i32::MAX - 5, 0, 5, 5), i32::MAX));
}

#[test]
fn touching_sprites_share_a_cluster() {
    // 0 and 2 touch within the gap, 1 sits between them far below.
    let boxes = vec![Some((0, 0, 10, 10)), Some((100, 500, 4, 4)), Some((14, 0, 10, 10))];
    let c = cluster_scene(&boxes, 5, 6);
    assert!(c.iter().any(|k| k.sprites.contains(&0) && k.sprites.contains(&2)));
    let apart = cluster_scene(&boxes, 3, 6);
    assert!(!apart.iter().any(|k| k.sprites.contains(&0) && k.sprites.contains(&2)));
}
