use driftling::ctl::{
    color_text, ctl_step, parse_hex_color, sync_status_lines, Ago, CtlAction, CtlRequest, CtlStep,
    ModeName, StatusLine,
};
use driftling::menu::{
    action_at, menu_rows, pet_info_summary, toggle_request, toggle_result, tray_label, tray_menu,
    InfoReply, MenuAction, TrayItem, TrayRequest, MENU_ACTIONS,
};
use driftling::paths::{
    choose_adoption, is_foreign_journal, is_journal_file, join_path, lock_path_in,
    own_journal_name, resolve_journal_dir, runtime_dir, socket_path, socket_path_in, state_path,
    NoRuntimeDir, SyncMode,
};
use driftling::presence::{
    backoff_delay, heartbeat_delay, lease_transition, next_streak, next_sync_delay, ClaimStep,
    LeaseShift, Presence, PresenceNote, Tuning,
};
use driftling::protocol::{
    reply_verdict, request_verdict, stops_server, ReplyError, RequestVerdict, PROTOCOL_VERSION,
};
use driftling::push::{cycle_next, cycle_start, events_to_push, hlc_before, CycleError, CycleStep, Hlc};

fn ev(device: &str, wall_ms: u64, counter: u16) -> Hlc {
    Hlc {
        wall_ms,
        counter,
        device: device.into(),
    }
}

#[test]
fn hex_color_parses_with_and_without_hash() {
    assert_eq!(parse_hex_color("e8944a"), Some(0xff_e8_94_4a));
    assert_eq!(parse_hex_color("#e8944a"), Some(0xff_e8_94_4a));
    assert_eq!(parse_hex_color("#E8944A"), Some(0xff_e8_94_4a));
    assert_eq!(parse_hex_color("  b0a294 "), Some(0xff_b0_a2_94));
    assert_eq!(parse_hex_color("000000"), Some(0xff_00_00_00));
}

#[test]
fn hex_color_rejects_garbage() {
    for bad in [
        "", "#", "e8944", "e8944a0", "e8944a00", "zzzzzz", "##e8944a", "#e894 4a",
    ] {
        assert_eq!(parse_hex_color(bad), None, "{bad:?} must not parse");
    }
}

#[test]
fn events_to_push_takes_own_after_cursor_only() {
    let log = vec![ev("mine", 1, 0), ev("other", 2, 0), ev("mine", 3, 0), ev("mine", 3, 1)];
    // No cursor: all own events, order kept, never another device's.
    let all = events_to_push(&log, "mine", &None);
    let ids: Vec<u64> = all.iter().map(|&i| log[i].wall_ms).collect();
    assert_eq!(ids, vec![1, 3, 3]);

    // Strictly newer than the cursor: the stamp on the cursor is confirmed.
    let cursor = Some(log[0].clone());
    let rest = events_to_push(&log, "mine", &cursor);
    assert_eq!(rest.len(), 2);
    assert!(rest.iter().all(|&i| log[i] > log[0]));

    // Cursor at the tail: nothing; unknown device: nothing.
    let tail = Some(log[3].clone());
    assert!(events_to_push(&log, "mine", &tail).is_empty());
    assert!(events_to_push(&log, "nobody", &None).is_empty());
}

#[test]
fn push_cursor_advances_exactly() {
    let mut log = vec![ev("mine", 1, 0), ev("mine", 2, 0)];
    let mut pushed: Option<Hlc> = None;

    let batch = events_to_push(&log, "mine", &pushed);
    pushed = Some(log[*batch.last().unwrap()].clone());
    assert!(events_to_push(&log, "mine", &pushed).is_empty(), "no repeats");

    log.push(ev("mine", 5, 0));
    let next = events_to_push(&log, "mine", &pushed);
    assert_eq!(next.len(), 1, "the new event is not skipped");
    assert_eq!(log[next[0]].wall_ms, 5);
}

#[test]
fn hlc_order_breaks_ties_by_counter_then_device() {
    assert!(hlc_before(&ev("b", 1, 0), &ev("a", 2, 0)));
    assert!(hlc_before(&ev("b", 2, 0), &ev("a", 2, 1)));
    assert!(hlc_before(&ev("a", 2, 1), &ev("b", 2, 1)));
    assert!(hlc_before(&ev("ab", 2, 1), &ev("b", 2, 1)));
    assert!(hlc_before(&ev("a", 2, 1), &ev("ab", 2, 1)));
    assert!(!hlc_before(&ev("a", 2, 1), &ev("a", 2, 1)));
}

#[test]
fn lease_transition_matrix() {
    assert_eq!(lease_transition(false, true), (true, LeaseShift::Gained));
    assert_eq!(lease_transition(true, true), (true, LeaseShift::Unchanged));
    assert_eq!(lease_transition(true, false), (false, LeaseShift::Lost));
    assert_eq!(lease_transition(false, false), (false, LeaseShift::Unchanged));
}

#[test]
fn backoff_grows_and_caps() {
    let base = 30_000;
    let max = 300_000;
    assert_eq!(backoff_delay(base, max, 0), 30_000);
    assert_eq!(backoff_delay(base, max, 1), 60_000);
    assert_eq!(backoff_delay(base, max, 3), 240_000);
    assert_eq!(backoff_delay(base, max, 4), max, "ceiling");
    assert_eq!(backoff_delay(base, max, 99), max, "no overflow");
}

#[test]
fn sync_schedule_follows_failures() {
    let t = Tuning::default();
    assert_eq!(t.sync_every_ms, 30_000);
    assert_eq!(next_sync_delay(&t, true, 0), 30_000);
    // First failure: the interval; then doubling.
    let s1 = next_streak(0, false);
    assert_eq!(next_sync_delay(&t, false, s1), 30_000);
    let s2 = next_streak(s1, false);
    assert_eq!(next_sync_delay(&t, false, s2), 60_000);
    assert_eq!(next_streak(s2, true), 0);
    assert_eq!(next_streak(u32::MAX, false), u32::MAX);
    assert_eq!(heartbeat_delay(&t, 0), 5_000);
    assert_eq!(heartbeat_delay(&t, 2), 15_000);
}

#[test]
fn heartbeat_loss_is_told_with_the_new_holder() {
    let mut p = Presence::new();
    assert_eq!(p.apply_lease(true, "dev-a".into()), Some(PresenceNote::Gained));
    assert_eq!(p.heartbeat(Some((true, "dev-a".into()))), None);
    assert_eq!(
        p.heartbeat(Some((false, "dev-b".into()))),
        Some(PresenceNote::Lost { holder: "dev-b".into() })
    );
    assert!(!p.holding);
    // A failed heartbeat keeps the state and counts the failure.
    assert_eq!(p.heartbeat(None), None);
    assert_eq!(p.lease_streak, 1);
    assert_eq!(p.holder.as_deref(), Some("dev-b"));
}

#[test]
fn ousted_claim_retries_then_takes_the_lease() {
    let mut p = Presence::new();
    assert_eq!(p.claim_attempt(0, Some((false, "dev-b".into()))), ClaimStep::Retry);
    assert!(!p.holding);
    assert_eq!(
        p.claim_attempt(1, Some((true, "dev-a".into()))),
        ClaimStep::Done(Some(PresenceNote::Gained))
    );
    assert!(p.holding);
    p.release();
    assert!(!p.holding && p.holder.is_none());
}

#[test]
fn claim_refused_twice_gives_up_and_offline_claim_keeps_the_pet() {
    let mut p = Presence::new();
    assert_eq!(p.claim_attempt(0, Some((false, "dev-b".into()))), ClaimStep::Retry);
    assert_eq!(
        p.claim_attempt(1, Some((false, "dev-b".into()))),
        ClaimStep::Done(Some(PresenceNote::Lost { holder: "dev-b".into() }))
    );
    let mut q = Presence::new();
    assert_eq!(q.claim_attempt(0, None), ClaimStep::Done(None));
    assert!(q.holding);
    assert_eq!(q.lease_streak, 1);
}

#[test]
fn menu_rows_match_actions_order() {
    assert_eq!(menu_rows().len(), MENU_ACTIONS.len());
    assert_eq!(
        MENU_ACTIONS,
        [
            MenuAction::Feed,
            MenuAction::Treat,
            MenuAction::Play,
            MenuAction::Sleep,
            MenuAction::Settings,
            MenuAction::Dismiss,
        ]
    );
}

#[test]
fn menu_row_keys_and_actions() {
    let rows = menu_rows();
    assert_eq!(rows[0], "menu-feed");
    assert_eq!(rows[5], "menu-dismiss");
    assert_eq!(action_at(1), Some(MenuAction::Treat));
    assert_eq!(action_at(6), None);
}

#[test]
fn toggle_sends_summon_then_dismiss() {
    let (req, target) = toggle_request(false);
    assert_eq!(req, TrayRequest::Summon);
    let summoned = toggle_result(false, target, true);
    assert!(summoned, "a successful Summon toggles the state");
    let (req, target) = toggle_request(summoned);
    assert_eq!(req, TrayRequest::Dismiss);
    assert!(!toggle_result(summoned, target, true), "a successful Dismiss toggles back");
}

#[test]
fn toggle_keeps_state_on_error() {
    let (_, target) = toggle_request(false);
    assert!(!toggle_result(false, target, false), "a daemon error does not toggle");
}

#[test]
fn socket_and_lock_paths() {
    assert_eq!(socket_path_in("/run/user/1000"), "/run/user/1000/driftling.sock");
    assert_eq!(lock_path_in("/run/user/1000/"), "/run/user/1000/driftling.lock");
    assert_eq!(socket_path(Some("/run/user/7".into())).unwrap(), "/run/user/7/driftling.sock");
    assert_eq!(socket_path(None), Err(NoRuntimeDir));
    assert_eq!(runtime_dir(Some("".into())).unwrap(), "");
    assert_eq!(state_path("/home/u/.local/share/driftling"), "/home/u/.local/share/driftling/sync-state.json");
    assert_eq!(join_path("a", "/abs"), "/abs");
    assert_eq!(join_path("", "b"), "b");
}

#[test]
fn journal_dir_and_file_names() {
    assert_eq!(resolve_journal_dir("/data", SyncMode::Folder, "  /sync "), "/sync");
    assert_eq!(resolve_journal_dir("/data", SyncMode::Folder, "   "), "/data");
    assert_eq!(resolve_journal_dir("/data", SyncMode::Server, "/sync"), "/data");
    assert_eq!(own_journal_name("dev-a"), "journal.dev-a.jsonl");
    assert!(is_journal_file("journal.dev-b.jsonl"));
    assert!(!is_journal_file("notes.txt"));
    assert!(is_foreign_journal("journal.dev-b.jsonl", "dev-a"));
    assert!(is_foreign_journal("journal.jsonl", "dev-a"));
    assert!(!is_foreign_journal("journal.dev-a.jsonl", "dev-a"));
    assert!(!is_foreign_journal("journal..jsonl", "dev-a"));
}

#[test]
fn adoption_picks_the_longest_copy() {
    assert_eq!(choose_adoption(&vec![Some(10), None, Some(30)], 5), Some(2));
    assert_eq!(choose_adoption(&vec![Some(30), Some(30)], 5), Some(1));
    assert_eq!(choose_adoption(&vec![Some(10)], 10), None);
    assert_eq!(choose_adoption(&vec![None], 0), None);
}

#[test]
fn protocol_versions_equal_or_error() {
    assert_eq!(request_verdict(Some(PROTOCOL_VERSION)), RequestVerdict::Accept);
    assert_eq!(
        request_verdict(Some(99)),
        RequestVerdict::Incompatible { client: 99, daemon: PROTOCOL_VERSION }
    );
    assert_eq!(request_verdict(None), RequestVerdict::NoEnvelope);
    assert_eq!(
        reply_verdict(Some(99)),
        Err(ReplyError::Incompatible { client: PROTOCOL_VERSION, daemon: 99 })
    );
    assert_eq!(reply_verdict(Some(PROTOCOL_VERSION)), Ok(()));
    assert!(stops_server(RequestVerdict::Accept, true));
    assert!(!stops_server(request_verdict(Some(99)), true));
}

#[test]
fn sync_status_lines_follow_mode() {
    let off = sync_status_lines("off", None, None, None, None, 1, 1, false, None, None);
    assert_eq!(off, vec![StatusLine::Mode { mode: ModeName::Off }]);
    let server = sync_status_lines(
        "server",
        Some("https://sync.example"),
        None,
        Some(3),
        None,
        2,
        10,
        false,
        Some("dev-b"),
        Some("boom"),
    );
    assert_eq!(
        server,
        vec![
            StatusLine::ModeTarget {
                mode: ModeName::Server,
                target: "https://sync.example".into()
            },
            StatusLine::Transfers { push: Ago::Secs(3), pull: Ago::Never },
            StatusLine::Journal { events: 10, devices: 2 },
            StatusLine::LeaseHolder { holder: "dev-b".into() },
            StatusLine::Error { error: "boom".into() },
        ]
    );
    let folder = sync_status_lines("folder", None, Some(""), None, None, 1, 1, true, None, None);
    assert_eq!(folder.len(), 3);
    assert_eq!(folder[0], StatusLine::Mode { mode: ModeName::Folder });
}

#[test]
fn color_text_reads_back() {
    assert_eq!(color_text(0xffe8_944a), "#e8944a");
    assert_eq!(color_text(0x0000_000f), "#00000f");
    for c in [0u32, 0xff00_0000, 0x12ab_cdef, 0xffff_ffff, 0x0080_0001] {
        assert_eq!(
            parse_hex_color(&color_text(c)),
            Some(0xff00_0000 | (c & 0x00ff_ffff))
        );
    }
}

#[test]
fn ctl_subcommands_map_to_requests() {
    assert_eq!(ctl_step(CtlAction::Info), CtlStep::Send(CtlRequest::PetInfo));
    assert_eq!(ctl_step(CtlAction::Sleep), CtlStep::Send(CtlRequest::PutToSleep));
    assert_eq!(
        ctl_step(CtlAction::Feed { treat: true }),
        CtlStep::Send(CtlRequest::Feed { treat: true })
    );
    assert_eq!(
        ctl_step(CtlAction::Recolor { color: "#e8944a".into() }),
        CtlStep::Send(CtlRequest::Recolor(0xffe8_944a))
    );
    assert_eq!(
        ctl_step(CtlAction::Recolor { color: "orange".into() }),
        CtlStep::BadColor
    );
    assert_eq!(
        ctl_step(CtlAction::Rename { name: " Pip ".into() }),
        CtlStep::Send(CtlRequest::Rename(" Pip ".into()))
    );
    assert_eq!(ctl_step(CtlAction::SyncStatus), CtlStep::Send(CtlRequest::SyncStatus));
    assert_eq!(ctl_step(CtlAction::Doctor), CtlStep::Doctor);
}

#[test]
fn menu_shape_follows_summoned() {
    let menu = tray_menu(false);
    assert_eq!(menu.len(), 4);
    assert!(matches!(menu[2], TrayItem::Separator));
    let label_dismissed = tray_label(menu[0]);
    assert!(label_dismissed.is_some());

    let menu = tray_menu(true);
    let label_summoned = tray_label(menu[0]);
    assert_ne!(
        label_dismissed, label_summoned,
        "the toggle's label follows summoned"
    );
    assert_eq!(tray_label(TrayItem::Separator), None);
    assert_eq!(tray_label(TrayItem::Quit), Some("tray-quit"));
}

/// Body colour of a new pet, for the pass-through check below.
const DEFAULT_PET_COLOR: u32 = 0xff_7f_b0_e0;

fn petinfo(state: Option<&str>, color: u32) -> InfoReply {
    InfoReply::PetInfo {
        state: state.map(String::from),
        color,
    }
}

#[test]
fn query_info_maps_petinfo() {
    assert_eq!(
        pet_info_summary(Some(petinfo(Some("Idle"), 0xff_e8_94_4a))),
        Some((true, 0xff_e8_94_4a))
    );
    assert_eq!(
        pet_info_summary(Some(petinfo(None, DEFAULT_PET_COLOR))),
        Some((false, DEFAULT_PET_COLOR))
    );
    // An unexpected answer: nothing learnt (not fatal).
    assert_eq!(pet_info_summary(Some(InfoReply::Other)), None);
    assert_eq!(pet_info_summary(None), None);
}

#[test]
fn sync_cycle_goes_push_pull_done() {
    assert_eq!(cycle_start(3), CycleStep::Push);
    assert_eq!(cycle_start(0), CycleStep::Pull);
    assert_eq!(cycle_next(CycleStep::Push, Some(200)), Ok(CycleStep::Pull));
    assert_eq!(cycle_next(CycleStep::Pull, Some(200)), Ok(CycleStep::Done));
    assert_eq!(cycle_next(CycleStep::Push, Some(401)), Err(CycleError::PushStatus(401)));
    assert_eq!(cycle_next(CycleStep::Pull, Some(500)), Err(CycleError::PullStatus(500)));
    assert_eq!(cycle_next(CycleStep::Pull, None), Err(CycleError::Network));
}
