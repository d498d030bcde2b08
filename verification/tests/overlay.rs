use driftling::pixel::icon_bytes;
use driftling::pointer::{x11_pointer, Grab, PointerKind, PointerOut, LEAVE_GRACE_MS};
use driftling::supervise::{
    attempt_outcome, choose_backend, lost_wait_step, rearm_now, AttemptEnd, BackendKind, LostWait,
    Pace, TickClock,
};
use driftling::surfaces::{commits, fit_parts, may_draw, Anchor, Placement, SurfacePart};
use driftling::window::{
    choose_visual, configure_values, geometry_to_deliver, input_rectangles, put_chunks,
    raise_due, window_geometry, VisualInfo, X11Frame, X11Window,
};

#[test]
fn press_drag_release_delivers_in_order() {
    let mut g = Grab::new();
    let s = g.on_event(PointerKind::Enter, 0);
    assert_eq!(s.deliver, Some(PointerOut::Motion));
    let s = g.on_event(PointerKind::PressLeft, 10);
    assert_eq!(s.deliver, Some(PointerOut::Press));
    assert_eq!(s.anchor_input, Some(true));
    assert!(g.pressed);
    let s = g.on_event(PointerKind::Motion, 20);
    assert_eq!(s.deliver, Some(PointerOut::Motion));
    assert_eq!(s.anchor_input, None);
    let s = g.on_event(PointerKind::ReleaseLeft, 30);
    assert_eq!(s.deliver, Some(PointerOut::Release));
    assert_eq!(s.anchor_input, Some(false));
    assert!(!g.pressed);
}

#[test]
fn leave_while_pressed_waits_for_the_grace_period() {
    let mut g = Grab::new();
    g.on_event(PointerKind::PressLeft, 0);
    let s = g.on_event(PointerKind::Leave, 100);
    assert_eq!(s.deliver, None);
    assert_eq!(g.leave_since_ms, Some(100));
    // A second leave keeps the first time.
    g.on_event(PointerKind::Leave, 200);
    assert_eq!(g.leave_since_ms, Some(100));
    assert!(!g.check_lost(100 + LEAVE_GRACE_MS - 1, LEAVE_GRACE_MS));
    assert!(g.pressed);
    assert!(g.check_lost(100 + LEAVE_GRACE_MS, LEAVE_GRACE_MS));
    assert!(!g.pressed);
    assert_eq!(g.leave_since_ms, None);
    // Reported once.
    assert!(!g.check_lost(10_000, LEAVE_GRACE_MS));
}

#[test]
fn coming_back_keeps_the_grab() {
    let mut g = Grab::new();
    g.on_event(PointerKind::PressLeft, 0);
    g.on_event(PointerKind::Leave, 10);
    g.on_event(PointerKind::Enter, 50);
    assert_eq!(g.leave_since_ms, None);
    assert!(!g.check_lost(10_000, LEAVE_GRACE_MS));
    assert!(g.pressed);
}

#[test]
fn leave_without_button_and_right_click() {
    let mut g = Grab::new();
    let s = g.on_event(PointerKind::Leave, 5);
    assert_eq!(s.deliver, None);
    assert_eq!(g, Grab::new());
    let s = g.on_event(PointerKind::PressRight, 6);
    assert_eq!(s.deliver, Some(PointerOut::Menu));
    assert!(!g.pressed);
    assert_eq!(g.on_event(PointerKind::Other, 7).deliver, None);
}

#[test]
fn x11_buttons_map_to_events() {
    assert_eq!(x11_pointer(PointerKind::PressLeft), Some(PointerOut::Press));
    assert_eq!(x11_pointer(PointerKind::PressRight), Some(PointerOut::Menu));
    assert_eq!(x11_pointer(PointerKind::ReleaseLeft), Some(PointerOut::Release));
    assert_eq!(x11_pointer(PointerKind::Enter), Some(PointerOut::Motion));
    assert_eq!(x11_pointer(PointerKind::Leave), None);
}

fn vis(depth: u8, visual: u32, true_color: bool) -> VisualInfo {
    VisualInfo {
        depth,
        visual,
        true_color,
    }
}

#[test]
fn argb_visual_is_preferred() {
    let screen = vec![
        vis(24, 0x21, true),
        vis(32, 0x40, false),
        vis(32, 0x41, true),
        vis(32, 0x42, true),
    ];
    assert_eq!(choose_visual(&screen, 24, 0x21), (32, 0x41));
    let no_argb = vec![vis(24, 0x21, true), vis(32, 0x40, false)];
    assert_eq!(choose_visual(&no_argb, 24, 0x21), (24, 0x21));
    assert_eq!(choose_visual(&Vec::new(), 16, 7), (16, 7));
}

#[test]
fn chunks_tile_the_canvas() {
    // 128 px wide: 512 bytes a row, 256 rows a chunk.
    assert_eq!(put_chunks(128, 600), vec![(0, 256), (256, 256), (512, 88)]);
    assert_eq!(put_chunks(128, 256), vec![(0, 256)]);
    // Wider than the ceiling: one row per chunk.
    assert_eq!(put_chunks(40_000, 3), vec![(0, 1), (1, 1), (2, 1)]);
    assert!(put_chunks(0, 10).is_empty());
    assert!(put_chunks(10, 0).is_empty());
}

#[test]
fn input_shape_drops_empty_and_clamps() {
    let rects = vec![
        (10, 20, 30, 40),
        (0, 0, 0, 5),
        (-40_000, 40_000, 70_000, 1),
        (1, 1, 2, -2),
    ];
    assert_eq!(
        input_rectangles(&rects),
        vec![(10, 20, 30, 40), (-32768, 32767, 65535, 1)]
    );
}

#[test]
fn window_follows_the_scene() {
    let g = window_geometry((1920, 0), (100, 200, 64, 48));
    assert_eq!(g, (2020, 200, 64, 48));
    assert_eq!(configure_values(g), (2020, 200, 64, 48));
    assert_eq!(configure_values((40_000, -40_000, 0, 70_000)), (32767, -32768, 1, 65535));
}

#[test]
fn raising_is_throttled() {
    assert!(!raise_due(false, None));
    assert!(raise_due(true, None));
    assert!(!raise_due(true, Some(499)));
    assert!(raise_due(true, Some(500)));
    assert!(geometry_to_deliver(false, false));
    assert!(!geometry_to_deliver(false, true));
    assert!(geometry_to_deliver(true, true));
}

#[test]
fn tick_clock_escalates_and_waits() {
    let mut c = TickClock::start(1_000);
    assert!(c.due(1_000));
    c.after_tick(1_000, Pace::Drowsy);
    assert_eq!(c.next_tick_ms, 2_000);
    assert_eq!(c.wait_ms(1_500), 500);
    assert!(!c.due(1_500));
    // A drag wakes the pet: the pace is now 33 ms, shorter than the wait.
    c.escalate(1_500, Pace::Active);
    assert_eq!(c.next_tick_ms, 1_500);
    assert_eq!(c.wait_ms(1_600), 0);
    // Calm after a short wait does not postpone anything.
    c.after_tick(1_600, Pace::Calm);
    c.escalate(1_700, Pace::Calm);
    assert_eq!(c.next_tick_ms, 1_800);
    c.after_tick(u64::MAX - 10, Pace::Active);
    assert_eq!(c.next_tick_ms, u64::MAX);
}

#[test]
fn rearm_and_lost_wait() {
    assert!(rearm_now(Pace::Active, 1_000));
    assert!(!rearm_now(Pace::Drowsy, 1_000));
    assert_eq!(lost_wait_step(true, 5_000), LostWait::Exit);
    assert_eq!(lost_wait_step(false, 0), LostWait::Retry);
    assert_eq!(lost_wait_step(false, 5_000), LostWait::Sleep(250));
    assert_eq!(lost_wait_step(false, 100), LostWait::Sleep(100));
}

#[test]
fn icon_pixels_are_big_endian() {
    assert_eq!(
        icon_bytes(&vec![0xff11_2233, 0x0000_00ff]),
        vec![0xff, 0x11, 0x22, 0x33, 0x00, 0x00, 0x00, 0xff]
    );
    assert!(icon_bytes(&Vec::new()).is_empty());
}

#[test]
fn parts_follow_the_clusters() {
    let mut parts = vec![SurfacePart::new(); 3];
    parts[0].mapped = true;
    parts[0].pos = Some((5, 5));
    fit_parts(&mut parts, 1);
    assert_eq!(parts.len(), 1);
    assert_eq!(parts[0].pos, Some((5, 5)));
    fit_parts(&mut parts, 3);
    assert_eq!(parts.len(), 3);
    assert_eq!(parts[2], SurfacePart::new());
}

#[test]
fn first_show_positions_before_the_commit() {
    let mut p = SurfacePart::new();
    assert!(p.draw_wanted(true, true));
    assert!(!p.draw_wanted(true, false));
    // Drawing failed: nothing is placed.
    let pl = p.place(false, (10, 20));
    assert_eq!(pl, Placement { shown: false, position_first: false, position_after: false });
    let pl = p.place(true, (10, 20));
    assert_eq!(pl, Placement { shown: true, position_first: true, position_after: false });
    assert_eq!(commits(pl, true, false), (true, true));
    // Same content, moved: positioned through the anchor, no redraw.
    assert!(!p.draw_wanted(true, true));
    let pl = p.place(false, (11, 20));
    assert_eq!(pl, Placement { shown: true, position_first: false, position_after: true });
    assert_eq!(commits(pl, false, false), (false, true));
    // Nothing changed: nothing to commit.
    let pl = p.place(false, (11, 20));
    assert_eq!(commits(pl, false, false), (false, false));
    p.unmap();
    assert!(!p.mapped);
    assert!(p.draw_wanted(true, true));
}

#[test]
fn anchor_modes_and_frame_throttle() {
    let mut a = Anchor::new();
    assert!(!a.set_input(true));
    a.mapped = true;
    assert!(a.set_input(true));
    assert!(!a.set_input(true));
    assert!(!a.set_full(true));
    a.drew();
    assert!(!may_draw(a.frame_done, Some(100)));
    assert!(may_draw(a.frame_done, Some(250)));
    a.frame_shown();
    assert!(may_draw(a.frame_done, Some(0)));
    a.drew();
    assert!(a.shrink());
    assert!(!a.full && !a.visible && a.frame_done);
    assert!(!a.shrink());
    assert!(a.set_full(true));
    assert!(may_draw(false, None));
}

#[test]
fn attempt_end_from_the_loop() {
    assert_eq!(attempt_outcome(true), AttemptEnd::Exit);
    assert_eq!(attempt_outcome(false), AttemptEnd::Lost);
}

#[test]
fn x11_frames_send_only_what_changed() {
    let mut w = X11Window::new();
    let f = w.frame((10, 20, 64, 64), false, true);
    assert_eq!(f, X11Frame { configure: true, repaint: true, reshape: true, map: true });
    let f = w.frame((10, 20, 64, 64), true, false);
    assert_eq!(f, X11Frame { configure: false, repaint: false, reshape: false, map: false });
    let f = w.frame((11, 20, 64, 64), true, false);
    assert_eq!(f, X11Frame { configure: true, repaint: false, reshape: false, map: false });
    let f = w.frame((11, 20, 64, 64), false, false);
    assert!(f.repaint && !f.configure);
    assert!(w.unmap());
    assert!(!w.unmap());
    // Shown again: repainted and mapped, not reconfigured.
    let f = w.frame((11, 20, 64, 64), true, false);
    assert_eq!(f, X11Frame { configure: false, repaint: true, reshape: false, map: true });
}

#[test]
fn backend_follows_the_session() {
    assert_eq!(choose_backend(Some("wayland-0"), Some(":0")), Some(BackendKind::Wayland));
    assert_eq!(choose_backend(Some(""), Some(":0")), Some(BackendKind::X11));
    assert_eq!(choose_backend(None, Some(":1")), Some(BackendKind::X11));
    assert_eq!(choose_backend(None, Some("")), None);
    assert_eq!(choose_backend(None, None), None);
}
