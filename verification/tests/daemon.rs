use driftling::daemon::{
    claim_due, dismiss_needs_event, first_geometry, folder_poll_due, lease_gained_reaction,
    lease_lost_reaction, menu_may_open, reconfigure, recolor_argb, refold_due, rename_name, route_pointer,
    scene_plan, second_start, sense_poll_due, signal_exit, SecondStart, event_keeps_running,
    fullscreen_step, AppEventKind, stage_key, status_address, status_pets,
    status_source, summon_appearance, summon_needs_event, visual_change, AppPointer, Appearance,
    FirstGeometry, LostReaction, PointerRoute, Reconfig, ScenePlan, Stage, StatusSource,
    SyncKind, VisualChange, Visuals, CLAIM_THROTTLE_MS, FOLDER_POLL_MS, SENSE_POLL_IDLE_MS,
};
use driftling::effects::{daemon_pace, Effects, Overlay, OverlayLook, SleepLog, Span};
use driftling::supervise::Pace;
use driftling::presence::{CmdAction, SyncCmd, Timetable};

#[test]
fn summon_after_lease_hide_runs_in() {
    assert_eq!(summon_appearance(true, false, false), Appearance::RunIn);
    assert_eq!(summon_appearance(true, false, true), Appearance::Appear);
    assert_eq!(summon_appearance(false, false, false), Appearance::Appear);
    assert_eq!(summon_appearance(true, true, false), Appearance::Appear);
}

#[test]
fn losing_the_lease_reacts_to_what_is_on_screen() {
    assert_eq!(lease_lost_reaction(false, false, false, false, true), LostReaction::Ignore);
    assert_eq!(lease_lost_reaction(true, false, false, false, true), LostReaction::MarkHidden);
    assert_eq!(lease_lost_reaction(true, true, true, false, true), LostReaction::HideNow);
    assert_eq!(lease_lost_reaction(true, true, false, true, true), LostReaction::HideNow);
    assert_eq!(lease_lost_reaction(true, true, false, false, false), LostReaction::Drop);
    assert_eq!(lease_lost_reaction(true, true, false, false, true), LostReaction::RunOff);
}

#[test]
fn eggs_never_run_on_presence_changes() {
    for summoned in [false, true] {
        for present in [false, true] {
            for fullscreen in [false, true] {
                for world in [false, true] {
                    assert_ne!(
                        lease_lost_reaction(summoned, present, true, fullscreen, world),
                        LostReaction::RunOff
                    );
                }
            }
            assert_eq!(summon_appearance(true, present, true), Appearance::Appear);
        }
    }
    assert_eq!(lease_gained_reaction(true, false, true, true), Some(Appearance::Appear));
}

#[test]
fn regaining_the_lease_brings_back_a_hidden_pet() {
    assert_eq!(lease_gained_reaction(true, false, true, false), Some(Appearance::RunIn));
    assert_eq!(lease_gained_reaction(true, false, false, false), None);
    assert_eq!(lease_gained_reaction(false, false, true, false), None);
    assert_eq!(lease_gained_reaction(true, true, true, false), None);
}

#[test]
fn user_claims_are_throttled() {
    assert!(claim_due(None, 0, CLAIM_THROTTLE_MS));
    assert!(!claim_due(Some(10_000), 11_999, CLAIM_THROTTLE_MS));
    assert!(claim_due(Some(10_000), 12_000, CLAIM_THROTTLE_MS));
    // A clock that went back never claims.
    assert!(!claim_due(Some(10_000), 9_000, CLAIM_THROTTLE_MS));
}

#[test]
fn recolor_forces_opaque_alpha() {
    assert_eq!(recolor_argb(0x00e8_944a), 0xffe8_944a);
    assert_eq!(recolor_argb(0x12e8_944a), 0xffe8_944a);
    assert_eq!(recolor_argb(0xffff_ffff), 0xffff_ffff);
}

#[test]
fn rename_trims_and_refuses_empty() {
    assert_eq!(rename_name("  Pip  "), Some("Pip".to_string()));
    assert_eq!(rename_name("   "), None);
    assert_eq!(rename_name(""), None);
}

#[test]
fn first_geometry_summons_and_greets() {
    assert_eq!(
        first_geometry(true, true, false),
        FirstGeometry { summon: true, greet: true, claim: true }
    );
    assert_eq!(
        first_geometry(true, true, true),
        FirstGeometry { summon: true, greet: false, claim: true }
    );
    assert_eq!(
        first_geometry(false, true, false),
        FirstGeometry { summon: false, greet: false, claim: false }
    );
    assert_eq!(
        first_geometry(true, false, false),
        FirstGeometry { summon: false, greet: false, claim: false }
    );
}

#[test]
fn status_answers() {
    assert!(summon_needs_event(true, false));
    assert!(!summon_needs_event(true, true));
    assert!(!summon_needs_event(false, false));
    assert_eq!(status_pets(true), 1);
    assert_eq!(status_pets(false), 0);
    assert_eq!(status_address(true, " http://h:7878 "), Some("http://h:7878".to_string()));
    assert_eq!(status_address(false, "http://h:7878"), None);
    assert_eq!(status_address(true, "  "), None);
}

#[test]
fn timetable_wake_claim_and_summon() {
    let mut t = Timetable::start(1_000, true);
    assert!(t.sync_due(1_000));
    assert!(t.heartbeat_due(1_000, true));
    assert!(!t.heartbeat_due(1_000, false));
    t.next_sync_ms = 50_000;
    assert_eq!(t.deadline(true), 1_000);
    assert_eq!(t.handle_cmd(SyncCmd::Claim, 2_000, 30_000), CmdAction::Claim);
    assert_eq!(t.next_hb_ms, 32_000);
    assert_eq!(t.deadline(true), 32_000);
    assert_eq!(t.deadline(false), 50_000);
    assert_eq!(t.handle_cmd(SyncCmd::Wake, 3_000, 30_000), CmdAction::Nothing);
    assert!(t.sync_due(3_000));
    assert_eq!(t.handle_cmd(SyncCmd::SetSummoned(false), 4_000, 30_000), CmdAction::Nothing);
    assert!(!t.heartbeat_due(u64::MAX, true));
    assert_eq!(t.handle_cmd(SyncCmd::SetSummoned(true), 5_000, 30_000), CmdAction::Nothing);
    assert_eq!(t.next_hb_ms, 35_000);
    assert!(!t.heartbeat_due(34_999, true));
    assert!(t.heartbeat_due(35_000, true));
    let before = t;
    assert_eq!(t.handle_cmd(SyncCmd::Release, 6_000, 30_000), CmdAction::Release);
    assert_eq!(t, before);
}

#[test]
fn timetable_heartbeat_saturates() {
    let mut t = Timetable::start(0, false);
    t.handle_cmd(SyncCmd::Claim, u64::MAX - 5, 30_000);
    assert_eq!(t.next_hb_ms, u64::MAX);
}

#[test]
fn care_looks_expire_and_release_the_pace() {
    let mut e = Effects::new();
    assert!(!e.active());
    e.fed(1_000, true);
    assert_eq!(
        e.overlay,
        Some(Overlay { look: OverlayLook::Eating, span: Span { from_ms: 1_000, until_ms: 3_500 } })
    );
    e.played(1_000, true);
    assert_eq!(e.happy_until, Some(3_000));
    assert_eq!(daemon_pace(true, &e, Pace::Calm), Pace::Active);
    e.expire(3_000);
    assert_eq!(e.happy_until, None);
    assert!(e.overlay.is_some());
    e.expire(3_500);
    assert!(!e.active());
    assert_eq!(daemon_pace(true, &e, Pace::Calm), Pace::Calm);
    assert_eq!(daemon_pace(false, &e, Pace::Active), Pace::Drowsy);
    // An egg or a hidden pet shows nothing.
    e.fed(5_000, false);
    e.petted(5_000, false);
    assert!(!e.active());
    e.petted(5_000, true);
    assert_eq!(e.happy_until, Some(6_200));
}

#[test]
fn hatching_then_greeting() {
    let mut e = Effects::new();
    e.hatched(10_000);
    assert_eq!(
        e.overlay,
        Some(Overlay { look: OverlayLook::Hatching, span: Span { from_ms: 10_000, until_ms: 13_000 } })
    );
    assert_eq!(e.bubble, Some(Span { from_ms: 13_000, until_ms: 17_000 }));
    assert!(!e.bubble_shown(12_999));
    assert!(e.bubble_shown(13_000));
    e.expire(17_000);
    assert!(!e.active());
    e.greet(20_000);
    assert_eq!(e.bubble, Some(Span { from_ms: 20_000, until_ms: 23_000 }));
    e.menu_open = true;
    e.presence_run = true;
    e.clear();
    assert!(e.active());
    assert!(!e.menu_open);
    assert_eq!(e.bubble, None);
}

#[test]
fn sleep_is_logged_when_long_enough() {
    let mut s = SleepLog::new();
    assert_eq!(s.note(false, 0), None);
    assert_eq!(s.note(true, 1_000), None);
    assert_eq!(s.since_ms, Some(1_000));
    assert_eq!(s.note(true, 5_000), None);
    assert_eq!(s.note(false, 91_000), Some(90_000));
    assert_eq!(s.since_ms, None);
    assert_eq!(s.close(100_000), None);
    s.note(true, 200_000);
    assert_eq!(s.note(false, 229_999), None);
    s.note(true, 300_000);
    assert_eq!(s.close(330_000), Some(30_000));
}

#[test]
fn stages_and_visuals() {
    assert_eq!(stage_key(Stage::Egg), "stage-egg");
    assert_eq!(stage_key(Stage::Adult), "stage-adult");
    let egg = Visuals { stage: Stage::Egg, base: 96, color: 0xffe8_944a };
    assert_eq!(visual_change(egg, egg), VisualChange::Keep);
    let baby = Visuals { stage: Stage::Baby, ..egg };
    assert_eq!(visual_change(egg, baby), VisualChange::Rebuild { hatched: true });
    let recolored = Visuals { color: 0xff00_00ff, ..baby };
    assert_eq!(visual_change(baby, recolored), VisualChange::Rebuild { hatched: false });
}

#[test]
fn polls_and_refolds_are_paced() {
    assert!(refold_due(60_000, false));
    assert!(!refold_due(59_999, false));
    assert!(refold_due(0, true));
    assert!(folder_poll_due(true, None, FOLDER_POLL_MS));
    assert!(!folder_poll_due(true, Some(9_999), FOLDER_POLL_MS));
    assert!(folder_poll_due(true, Some(10_000), FOLDER_POLL_MS));
    assert!(!folder_poll_due(false, None, FOLDER_POLL_MS));
    assert!(sense_poll_due(false, false, None, SENSE_POLL_IDLE_MS));
    assert!(!sense_poll_due(false, false, Some(1_999), SENSE_POLL_IDLE_MS));
    assert!(sense_poll_due(true, false, Some(0), SENSE_POLL_IDLE_MS));
    assert!(sense_poll_due(false, true, Some(0), SENSE_POLL_IDLE_MS));
}

#[test]
fn pointer_goes_to_the_menu_while_it_is_open() {
    assert_eq!(route_pointer(AppPointer::Press, true), (PointerRoute::MenuPress, true));
    assert_eq!(route_pointer(AppPointer::Press, false), (PointerRoute::Pet, true));
    assert_eq!(route_pointer(AppPointer::Motion, true), (PointerRoute::MenuHover, false));
    assert_eq!(route_pointer(AppPointer::Release, true), (PointerRoute::Swallow, false));
    assert_eq!(route_pointer(AppPointer::Release, false), (PointerRoute::Pet, false));
    assert_eq!(route_pointer(AppPointer::Cancel, true), (PointerRoute::CancelDrag, false));
    assert_eq!(route_pointer(AppPointer::Menu, false), (PointerRoute::ToggleMenu, true));
}

#[test]
fn scene_under_fullscreen_is_empty() {
    let none = ScenePlan { pet: false, pet_input: false, bubble: false, menu: false };
    assert_eq!(scene_plan(true, true, true, false, true, true), none);
    assert_eq!(scene_plan(false, true, false, false, true, true), none);
    assert_eq!(scene_plan(true, false, false, false, false, false), none);
    assert_eq!(
        scene_plan(true, true, false, true, true, false),
        ScenePlan { pet: true, pet_input: false, bubble: true, menu: false }
    );
    assert_eq!(
        scene_plan(true, true, false, false, false, true),
        ScenePlan { pet: true, pet_input: true, bubble: false, menu: true }
    );
}

#[test]
fn new_sync_section_reconfigures() {
    let nothing = Reconfig {
        changed: false,
        reopen: false,
        keep_dir: false,
        server_worker: false,
        watch_folder: false,
    };
    assert_eq!(reconfigure(true, true, true, SyncKind::Server), nothing);
    assert_eq!(
        reconfigure(false, true, true, SyncKind::Folder),
        Reconfig { changed: true, reopen: true, keep_dir: false, server_worker: false, watch_folder: true }
    );
    assert_eq!(
        reconfigure(false, true, false, SyncKind::Server),
        Reconfig { changed: true, reopen: false, keep_dir: true, server_worker: true, watch_folder: false }
    );
    assert_eq!(status_source(true, SyncKind::Folder), StatusSource::Worker);
    assert_eq!(status_source(false, SyncKind::Folder), StatusSource::Folder);
    assert_eq!(status_source(false, SyncKind::Off), StatusSource::Nothing);
    assert!(dismiss_needs_event(true));
    assert!(!dismiss_needs_event(false));
    assert!(signal_exit(true, false));
    assert!(!signal_exit(true, true));
}

#[test]
fn slept_minutes_threshold() {
    let mut s = SleepLog { since_ms: Some(0) };
    assert_eq!(s.close(29_000), None, "a short sleep is noise");
    let mut s = SleepLog { since_ms: Some(0) };
    let m = s.close(60_000).unwrap() as f32 / 60_000.0;
    assert!((m - 1.0).abs() < 1e-6);
    let mut s = SleepLog { since_ms: Some(10_000) };
    assert_eq!(s.close(5_000), None, "time running back is no sleep");
}

#[test]
fn menu_does_not_open_during_a_drag() {
    assert!(menu_may_open(true, true, false));
    assert!(!menu_may_open(true, true, true));
    assert!(!menu_may_open(false, true, false));
    assert!(!menu_may_open(true, false, false));
}

#[test]
fn second_start_summons_the_running_pet() {
    assert_eq!(second_start(true), SecondStart::Summoned);
    assert_eq!(second_start(false), SecondStart::BindError);
}

#[test]
fn only_shutdown_stops_the_loop_and_fullscreen_closes_the_menu() {
    assert!(event_keeps_running(AppEventKind::OutputGeometry));
    assert!(event_keeps_running(AppEventKind::Pointer));
    assert!(event_keeps_running(AppEventKind::OutputLost));
    assert!(!event_keeps_running(AppEventKind::Shutdown));
    assert_eq!(fullscreen_step(false, true), (true, true));
    assert_eq!(fullscreen_step(true, true), (true, false));
    assert_eq!(fullscreen_step(true, false), (false, false));
    assert_eq!(fullscreen_step(false, false), (false, false));
}
