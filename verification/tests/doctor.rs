use driftling::remote::{
    authorization, check_token_next, count_journal_files, desktop_entry, doctor_verdict,
    endpoint, health_check, server_base, token_check, token_probe_body, DoctorVerdict,
    ServerCheck,
};

#[test]
fn server_base_trims_and_drops_trailing_slashes() {
    assert_eq!(server_base("  http://pet.example:7878//  "), "http://pet.example:7878");
    assert_eq!(server_base("http://h:1"), "http://h:1");
    assert_eq!(server_base(" / "), "");
    assert_eq!(endpoint("http://h:1", "/v1/health"), "http://h:1/v1/health");
}

#[test]
fn bearer_header_uses_the_trimmed_token() {
    assert_eq!(authorization("  s3cret \n"), "Bearer s3cret");
}

#[test]
fn health_and_token_checks_read_the_status() {
    assert_eq!(health_check(Some(200)), ServerCheck::Passed);
    assert_eq!(health_check(Some(503)), ServerCheck::Odd(503));
    assert_eq!(health_check(None), ServerCheck::Unreachable);
    assert_eq!(token_check(Some(200)), ServerCheck::Passed);
    assert_eq!(token_check(Some(401)), ServerCheck::BadToken);
    assert_eq!(token_check(Some(500)), ServerCheck::Odd(500));
    assert_eq!(token_check(None), ServerCheck::Unreachable);
    assert!(check_token_next("http://h", ServerCheck::Passed, " t "));
    assert!(!check_token_next("http://h", ServerCheck::Passed, "  "));
    assert!(!check_token_next("http://h", ServerCheck::Odd(500), "t"));
    assert!(!check_token_next("", ServerCheck::Passed, "t"));
    assert_eq!(token_probe_body(), r#"{"device":"doctor","events":[]}"#);
}

#[test]
fn desktop_entry_location() {
    assert_eq!(
        desktop_entry(Some("/home/a/.cfg"), Some("/home/a")),
        Some("/home/a/.cfg/autostart/driftling.desktop".to_string())
    );
    assert_eq!(
        desktop_entry(None, Some("/home/a")),
        Some("/home/a/.config/autostart/driftling.desktop".to_string())
    );
    assert_eq!(desktop_entry(None, None), None);
}

#[test]
fn journal_files_are_counted() {
    let names: Vec<String> = vec![
        "journal.abc.jsonl".into(),
        "pet.json".into(),
        "journal.def.jsonl".into(),
        "journal.tmp".into(),
    ];
    assert_eq!(count_journal_files(&names), 2);
    assert_eq!(count_journal_files(&Vec::new()), 0);
}

#[test]
fn doctor_verdicts() {
    assert_eq!(doctor_verdict(true, false, false), DoctorVerdict::Healthy);
    assert_eq!(doctor_verdict(false, true, false), DoctorVerdict::ShouldRun);
    assert_eq!(doctor_verdict(false, false, true), DoctorVerdict::ShouldRun);
    assert_eq!(doctor_verdict(false, false, false), DoctorVerdict::NotRunning);
}
