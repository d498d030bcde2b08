use driftling::events::{
    bearer_token, check_lease_request, cursor_for, cursor_text, event_key, pull_events, sort_rows, BodyNotUtf8, lease_ttl,
    select_after,
    validate_batch, Cursor, EventIdFields, EventKeyError, StoredEvent, MAX_LEASE_TTL_S,
};
use driftling::lease::{lease_claim, lease_release, u64_as_i64, LeaseAnswer, LeaseRow};
use driftling::server_config::{default_db, default_listen, resolve_db_path};
use driftling::token::{generate_token, hex, token_hash};

fn claim(row: &mut Option<LeaseRow>, device: &str, ttl: u64, now: u64) -> LeaseAnswer {
    let (next, answer) = lease_claim(row.take(), device, ttl, now);
    *row = Some(next);
    answer
}

#[test]
fn expired_lease_is_free_for_anyone() {
    let mut row: Option<LeaseRow> = None;
    let first = claim(&mut row, "laptop", 30, 1_000);
    assert!(first.granted);
    // The TTL ran out: another device takes the lease as free, no ousted mark...
    let second = claim(&mut row, "desktop", 30, 1_031);
    assert!(second.granted);
    // ...so the old holder simply claims again (and by newest-wins takes it back).
    let third = claim(&mut row, "laptop", 30, 1_032);
    assert!(third.granted);
    assert_eq!(third.holder, "laptop");
}

#[test]
fn lease_takeover_newest_claim_wins() {
    let mut row: Option<LeaseRow> = None;
    let a = claim(&mut row, "laptop", 60, 100);
    assert_eq!((a.granted, a.holder.as_str()), (true, "laptop"));
    let hb = claim(&mut row, "laptop", 60, 110);
    assert!(hb.granted, "heartbeat of the holder");
    let d = claim(&mut row, "desktop", 60, 120);
    assert_eq!((d.granted, d.holder.as_str()), (true, "desktop"));
    assert_eq!(row.as_ref().unwrap().ousted.as_deref(), Some("laptop"));
    // The laptop's next heartbeat learns of the loss ("the pet ran off").
    let lost = claim(&mut row, "laptop", 60, 130);
    assert_eq!((lost.granted, lost.holder.as_str()), (false, "desktop"));
    assert_eq!(row.as_ref().unwrap().ousted, None);
    // Its next request is a fresh claim and takes the lease back.
    let back = claim(&mut row, "laptop", 60, 140);
    assert_eq!((back.granted, back.holder.as_str()), (true, "laptop"));
}

#[test]
fn heartbeat_extends_expiry_and_keeps_mark() {
    let row = Some(LeaseRow {
        device: "desktop".to_string(),
        expires_at: 200,
        ousted: Some("laptop".to_string()),
    });
    let (next, answer) = lease_claim(row, "desktop", 15, 190);
    assert!(answer.granted);
    assert_eq!(next.expires_at, 205);
    assert_eq!(next.ousted.as_deref(), Some("laptop"));
}

#[test]
fn lease_release_frees_the_slot() {
    let mut row: Option<LeaseRow> = None;
    assert!(claim(&mut row, "laptop", 60, 10).granted);
    // Only the holder can release.
    let (kept, released) = lease_release(row.take(), "desktop");
    assert!(!released);
    assert!(kept.is_some());
    let (gone, released) = lease_release(kept, "laptop");
    assert!(released);
    assert!(gone.is_none());
    // The slot is free: another device takes it without an ousted mark.
    let (next, answer) = lease_claim(gone, "desktop", 60, 20);
    assert!(answer.granted);
    assert_eq!(next.ousted, None);
}

#[test]
fn claim_expiry_saturates_and_wraps_like_i64() {
    let (next, _) = lease_claim(None, "x", u64::MAX, 5);
    assert_eq!(next.expires_at, -1);
    assert_eq!(u64_as_i64(u64::MAX), -1);
    assert_eq!(u64_as_i64(42), 42);
    assert_eq!(u64_as_i64(1 << 63), i64::MIN);
}

fn fields(wall: Option<u64>, counter: Option<u64>, device: Option<&str>) -> EventIdFields {
    EventIdFields {
        has_id: true,
        wall_ms: wall,
        counter,
        device: device.map(str::to_string),
    }
}

#[test]
fn event_key_reads_id_and_reports_first_problem() {
    let k = event_key(&fields(Some(200), Some(3), Some("laptop"))).unwrap();
    assert_eq!((k.device.as_str(), k.wall_ms, k.counter), ("laptop", 200, 3));
    let no_id = EventIdFields {
        has_id: false,
        wall_ms: None,
        counter: None,
        device: None,
    };
    assert_eq!(event_key(&no_id), Err(EventKeyError::NoId));
    assert_eq!(event_key(&fields(None, Some(1), Some("a"))), Err(EventKeyError::BadWallMs));
    assert_eq!(
        event_key(&fields(Some(1 << 63), Some(1), Some("a"))),
        Err(EventKeyError::WallMsTooLarge)
    );
    assert_eq!(
        event_key(&fields(Some(1), Some(70_000), Some("a"))),
        Err(EventKeyError::BadCounter)
    );
    assert_eq!(event_key(&fields(Some(1), Some(1), Some(""))), Err(EventKeyError::EmptyDevice));
    assert_eq!(event_key(&fields(Some(1), Some(1), None)), Err(EventKeyError::EmptyDevice));
}

#[test]
fn malformed_event_rejects_the_whole_batch() {
    let batch = vec![
        fields(Some(1), Some(0), Some("laptop")),
        EventIdFields {
            has_id: false,
            wall_ms: None,
            counter: None,
            device: None,
        },
    ];
    let err = validate_batch(&batch).unwrap_err();
    assert_eq!(err.index, 1);
    assert_eq!(err.why, EventKeyError::NoId);
    let good = vec![fields(Some(200), Some(0), Some("laptop")), fields(Some(100), Some(0), Some("laptop"))];
    let keys = validate_batch(&good).unwrap();
    assert_eq!(keys.len(), 2);
    assert_eq!(keys[1].wall_ms, 100);
}

fn stored(device: &str, wall_ms: u64, counter: u16) -> StoredEvent {
    StoredEvent {
        device: device.to_string(),
        wall_ms,
        counter,
        payload: format!("{{\"w\":{wall_ms}}}"),
    }
}

#[test]
fn pull_filters_by_cursors() {
    // Ordered as the store hands them out: wall_ms, counter, device.
    let rows = vec![
        stored("laptop", 100, 0),
        stored("laptop", 100, 1),
        stored("desktop", 200, 0),
        stored("laptop", 300, 0),
    ];
    let cursors = vec![("laptop".to_string(), Cursor { wall_ms: 100, counter: 1 })];
    assert_eq!(cursor_for(&cursors, "laptop"), Some(Cursor { wall_ms: 100, counter: 1 }));
    assert_eq!(cursor_for(&cursors, "desktop"), None);
    let got: Vec<(u64, String)> = select_after(rows, &cursors)
        .into_iter()
        .map(|e| (e.wall_ms, e.device))
        .collect();
    assert_eq!(got, vec![(200, "desktop".to_string()), (300, "laptop".to_string())]);
}

#[test]
fn pull_without_cursors_returns_everything_untouched() {
    let rows = vec![stored("laptop", 5, 1), stored("laptop", 9, 0)];
    let out = select_after(rows, &Vec::new());
    assert_eq!(out.len(), 2);
    assert_eq!(out[0].payload, "{\"w\":5}");
}

#[test]
fn rows_are_sorted_by_wall_time_counter_and_device() {
    let rows = vec![
        stored("laptop", 300, 0),
        stored("laptop", 100, 1),
        stored("desktop", 100, 1),
        stored("laptop", 100, 0),
        stored("desktop", 200, 0),
    ];
    let got: Vec<(u64, u16, String)> = sort_rows(rows)
        .into_iter()
        .map(|e| (e.wall_ms, e.counter, e.device))
        .collect();
    assert_eq!(
        got,
        vec![
            (100, 0, "laptop".to_string()),
            (100, 1, "desktop".to_string()),
            (100, 1, "laptop".to_string()),
            (200, 0, "desktop".to_string()),
            (300, 0, "laptop".to_string()),
        ]
    );
    assert!(sort_rows(Vec::new()).is_empty());
}

#[test]
fn pull_sorts_and_filters_rows_read_in_any_order() {
    let rows = vec![
        stored("laptop", 300, 0),
        stored("desktop", 200, 0),
        stored("laptop", 100, 1),
        stored("laptop", 100, 0),
    ];
    let cursors = vec![("laptop".to_string(), Cursor { wall_ms: 100, counter: 0 })];
    let got: Vec<(u64, u16, String, String)> = pull_events(rows, &cursors)
        .into_iter()
        .map(|e| (e.wall_ms, e.counter, e.device, e.payload))
        .collect();
    assert_eq!(
        got,
        vec![
            (100, 1, "laptop".to_string(), "{\"w\":100}".to_string()),
            (200, 0, "desktop".to_string(), "{\"w\":200}".to_string()),
            (300, 0, "laptop".to_string(), "{\"w\":300}".to_string()),
        ]
    );
}

#[test]
fn lease_request_checks() {
    assert_eq!(lease_ttl(0), 1);
    assert_eq!(lease_ttl(30), 30);
    assert_eq!(lease_ttl(99_999), MAX_LEASE_TTL_S);
    assert_eq!(check_lease_request("", 30), None);
    assert_eq!(check_lease_request("laptop", 60), Some(60));
}

#[test]
fn bearer_header_parsing() {
    assert_eq!(bearer_token("Bearer abc"), Some("abc".to_string()));
    assert_eq!(bearer_token("Bearer   abc \t"), Some("abc".to_string()));
    assert_eq!(bearer_token("Basic abc"), None);
    assert_eq!(bearer_token("Bearer"), None);
    assert_eq!(bearer_token("bearer abc"), None);
}

#[test]
fn token_is_64_hex_chars_and_hash_is_sha256() {
    let token = generate_token().unwrap();
    assert_eq!(token.len(), 64);
    assert!(token.chars().all(|c| c.is_ascii_hexdigit() && !c.is_ascii_uppercase()));
    assert_eq!(
        token_hash("abc"),
        "ba7816bf8f01cfea414140de5dae2223b00361a396177a9cb410ff61f20015ad"
    );
    assert_ne!(token_hash(&token), token);
    assert_eq!(hex(&[0x00, 0x0f, 0xa5, 0xff]), "000fa5ff");
}

#[test]
fn empty_config_gets_defaults() {
    assert_eq!(default_listen(), "127.0.0.1:8787");
    assert_eq!(default_db(), "driftling-server.sqlite3");
}

#[test]
fn relative_db_path_is_taken_from_config_dir() {
    assert_eq!(resolve_db_path(Some("/etc/driftling"), "x.sqlite3"), "/etc/driftling/x.sqlite3");
    assert_eq!(resolve_db_path(Some(""), "x.sqlite3"), "x.sqlite3");
    assert_eq!(resolve_db_path(Some("/etc"), "/var/db.sqlite3"), "/var/db.sqlite3");
    assert_eq!(resolve_db_path(None, "x.sqlite3"), "x.sqlite3");
}

#[test]
fn cursor_text_prefers_the_query_and_empty_means_everything() {
    assert_eq!(cursor_text(Some("{\"a\":1}"), 5, Some("body!")), Ok(Some("{\"a\":1}".to_string())));
    assert_eq!(cursor_text(Some("  "), 5, Some("body!")), Ok(None));
    assert_eq!(cursor_text(None, 0, Some("")), Ok(None));
    assert_eq!(cursor_text(None, 3, None), Err(BodyNotUtf8));
    assert_eq!(cursor_text(None, 4, Some(" \n\t ")), Ok(None));
    assert_eq!(cursor_text(None, 2, Some("{}")), Ok(Some("{}".to_string())));
}

#[test]
fn sorted_store_rows_come_out_sorted() {
    let row = |d: &str, w: u64, c: u16| StoredEvent {
        device: d.into(),
        wall_ms: w,
        counter: c,
        payload: "{}".into(),
    };
    let rows = vec![row("a", 1, 0), row("b", 1, 0), row("a", 2, 0), row("b", 2, 1)];
    let cursors = vec![("a".to_string(), Cursor { wall_ms: 1, counter: 0 })];
    let out = select_after(rows, &cursors);
    let keys: Vec<(u64, u16, String)> = out.iter().map(|e| (e.wall_ms, e.counter, e.device.clone())).collect();
    assert_eq!(keys, vec![(1, 0, "b".into()), (2, 0, "a".into()), (2, 1, "b".into())]);
}
