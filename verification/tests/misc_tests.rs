use base64::Engine;
use xdcc_extractor::auth::{auth_decision, AuthDecision};
use xdcc_extractor::backups::{
    ago, backup_directories, config_backup_path, history_backup_path, is_matching_backup,
    password_backup_path, relative_age, summarize, BackupEntry, BackupKind, BackupListing,
    Timestamp,
};
use xdcc_extractor::cli::{
    clear_failed_target_from_args, config_path_from_args, failed_before_message,
    is_clear_failed_command, is_process_command, is_version_command, manual_start,
    process_target_from_args, validate_clear_failed_args, validate_process_args, ArgsError,
    ManualStart,
};
use xdcc_extractor::dryrun::{
    assess_safety, classify_candidate, report_outcome, scan_candidates, should_skip_entry,
    CandidateFact, CandidateState, CleanupFileFact, Readiness, SafetyFacts, WatchDirFact,
    WatchEntry,
};
use xdcc_extractor::html::{
    action_button_html, checked, escape_html, failures_html, scan_summary_html,
    watch_directory_list_html, ScanCandidate,
};
use xdcc_extractor::history::FailureEntry;
use xdcc_extractor::logs::{
    format_log_line, redact_key, redact_secrets, strip_debug_quotes, LogBuffer, LogFields,
};
use xdcc_extractor::passwords::{
    append_password_to_content, check_new_password, count_passwords, ensure_password_path_is_safe,
    parse_passwords, password_file_path, replace_password_content, PasswordError,
};

fn args(items: &[&str]) -> Vec<String> {
    items.iter().map(|s| s.to_string()).collect()
}

#[test]
fn log_buffer_keeps_the_newest_thousand_lines() {
    let mut buffer = LogBuffer::new();
    for i in 0..1005 {
        buffer.push(format!("line {}", i));
    }
    assert_eq!(buffer.len(), 1000);
    assert_eq!(buffer.recent(2), vec!["line 1003", "line 1004"]);
    assert_eq!(buffer.recent(5000).len(), 1000);
    assert_eq!(buffer.recent(5000)[0], "line 5");
}

#[test]
fn redacts_secret_values() {
    assert_eq!(
        redact_secrets("login token=abc123 user=bob"),
        "login token=<redacted> user=bob"
    );
    assert_eq!(redact_secrets("Authorization: Bearer xyz"), "Authorization:<redacted>");
    assert!(!redact_secrets("Authorization: Bearer tk_abc").contains("tk_abc"));
    assert_eq!(
        redact_secrets("authorization=Basic YWRtaW46eA==\nnext line"),
        "authorization=<redacted>\nnext line"
    );
    assert_eq!(redact_secrets("PASSWORD=geheim;next"), "PASSWORD=<redacted>;next");
    assert_eq!(redact_key("tokenizer started", "token"), "tokenizer started");
    assert_eq!(redact_key("a token  = x", "token"), "a token  =<redacted> x");
}

#[test]
fn log_fields_and_lines() {
    assert_eq!(strip_debug_quotes("\"hi\"".to_string()), "hi");
    assert_eq!(strip_debug_quotes("\"".to_string()), "\"");
    let mut fields = LogFields::new();
    fields.record("path", "\"/x\"".to_string());
    fields.record("message", "\"Job gestartet\"".to_string());
    assert_eq!(fields.finish(), "Job gestartet path=/x");
    assert_eq!(format_log_line(17, "INFO", "xdcc", ""), "17  INFO xdcc");
    assert_eq!(format_log_line(17, "WARN", "xdcc", "a=b"), "17  WARN xdcc - a=b");
}

#[test]
fn command_line_is_read() {
    let a = args(&["xdcc", "--config", "/etc/x.toml", "--process", "/dl/A.rar"]);
    assert_eq!(config_path_from_args(&a, None), "/etc/x.toml");
    assert_eq!(config_path_from_args(&args(&["xdcc"]), Some("/env.toml")), "/env.toml");
    assert_eq!(config_path_from_args(&args(&["xdcc"]), None), "config.toml");
    assert_eq!(config_path_from_args(&args(&["xdcc", "-c"]), None), "config.toml");
    assert!(is_process_command(&a));
    assert!(!is_clear_failed_command(&a));
    assert!(is_version_command(&args(&["xdcc", "-V"])));
    assert_eq!(process_target_from_args(&a).as_deref(), Some("/dl/A.rar"));
    assert_eq!(clear_failed_target_from_args(&a), None);
    assert!(validate_process_args(&a).is_ok());
    assert_eq!(
        validate_process_args(&args(&["xdcc", "--process"])),
        Err(ArgsError::ProcessMissingTarget)
    );
    assert_eq!(
        validate_clear_failed_args(&args(&["xdcc", "--clear-failed", "--x"])),
        Err(ArgsError::ClearFailedInvalidTarget)
    );
    assert_eq!(
        ArgsError::ProcessMissingTarget.message(),
        "Option --process benötigt einen Release-Pfad"
    );
}

#[test]
fn manual_runs_check_before_working() {
    assert!(matches!(manual_start(false, true, false, 0), ManualStart::Missing));
    assert!(matches!(manual_start(true, false, false, 0), ManualStart::NoStartArchive));
    assert!(matches!(manual_start(true, true, true, 2), ManualStart::AlreadyDone));
    assert!(matches!(manual_start(true, true, false, 2), ManualStart::FailedBefore(2)));
    assert!(matches!(manual_start(true, true, false, 0), ManualStart::Process));
    assert_eq!(
        failed_before_message(2, "/dl/A"),
        "Release hat bereits einen Failed-Marker mit 2 Fehlversuch(en).\nErst zurücksetzen mit:\nxdcc-extractor --clear-failed /dl/A"
    );
}

#[test]
fn loads_passwords_and_ignores_comments() {
    let passwords = parse_passwords("\n# Kommentar\nsecret1\n\nsecret2\n   secret3   \n");

    assert_eq!(passwords, vec!["secret1", "secret2", "secret3"]);
    assert_eq!(count_passwords("a\n#b\n c \n"), 2);
}

#[test]
fn password_list_changes() {
    assert_eq!(check_new_password("  neu  ").as_deref(), Ok("neu"));
    assert_eq!(check_new_password("   "), Err(PasswordError::Empty));
    assert_eq!(check_new_password("a\rb"), Err(PasswordError::LineBreak));
    assert_eq!(
        append_password_to_content("eins\nzwei", "drei").as_deref(),
        Ok("eins\nzwei\ndrei\n")
    );
    assert_eq!(append_password_to_content("", "drei").as_deref(), Ok("drei\n"));
    assert_eq!(
        append_password_to_content(" zwei \n", "zwei"),
        Err(PasswordError::Duplicate)
    );
    assert_eq!(
        replace_password_content("# c\n a \n\nb\n"),
        Ok(("a\nb\n".to_string(), 2))
    );
    assert_eq!(replace_password_content("# nur\n"), Err(PasswordError::EmptyList));
    assert_eq!(password_file_path("  "), Err(PasswordError::NoPasswordFile));
    assert!(ensure_password_path_is_safe("/config/passwords.txt").is_ok());
    assert_eq!(
        ensure_password_path_is_safe("config/passwords.txt"),
        Err(PasswordError::NotAbsolute)
    );
    assert_eq!(
        ensure_password_path_is_safe("/configs/passwords.txt"),
        Err(PasswordError::OutsideConfig)
    );
}

#[test]
fn html_is_escaped() {
    assert_eq!(escape_html("<a href=\"x\">'&'</a>"), "&lt;a href=&quot;x&quot;&gt;&#39;&amp;&#39;&lt;/a&gt;");
    assert_eq!(checked(true), "checked");
    assert_eq!(checked(false), "");
    assert_eq!(action_button_html(CandidateState::Done, "/x"), "");
    assert!(action_button_html(CandidateState::New, "/a\"b").contains("data-path=\"/a&quot;b\""));
    let list = watch_directory_list_html(&vec!["/a".to_string(), "/<b>".to_string()]);
    assert!(list.contains("\n            1\n"));
    assert!(list.contains("<code>/&lt;b&gt;</code>"));
}

#[test]
fn dashboard_lists_are_built() {
    let summary = scan_summary_html(&vec![
        ScanCandidate { path: "/d/A".to_string(), state: CandidateState::New },
        ScanCandidate { path: "/d/B".to_string(), state: CandidateState::Failed },
    ]);
    assert!(summary.contains("neu: 1</span>"));
    assert!(summary.contains("fehlgeschlagen: 1</span>"));
    assert!(summary.contains("gesamt: 2</span>"));
    assert!(summary.contains("data-action=\"process\" data-path=\"/d/A\""));
    assert!(scan_summary_html(&vec![]).ends_with("Keine Kandidaten gefunden.</div>"));

    let failures = failures_html(&vec![FailureEntry {
        marker: "/s/h/x.failed".to_string(),
        path: "/d/X".to_string(),
        attempts: 2,
        error_class: "failed".to_string(),
        reason: "CRC".to_string(),
    }]);
    assert!(failures.starts_with("<div class=\"scan-summary\"><span class=\"badge bad\">fehlgeschlagen: 1"));
    assert!(failures.contains("Fehlversuche: 2"));
}

#[test]
fn basic_auth_is_checked() {
    // "admin:pw" in Base64.
    let header = "Basic YWRtaW46cHc=";
    assert_eq!(auth_decision(Some("pw"), None, Some(header)), AuthDecision::Authorized);
    assert_eq!(auth_decision(Some("pw"), Some("bob"), Some(header)), AuthDecision::Unauthorized);
    assert_eq!(auth_decision(Some("other"), None, Some(header)), AuthDecision::Unauthorized);
    assert_eq!(auth_decision(Some(""), None, Some(header)), AuthDecision::NotConfigured);
    assert_eq!(auth_decision(None, None, Some(header)), AuthDecision::NotConfigured);
    assert_eq!(auth_decision(Some("pw"), None, None), AuthDecision::Unauthorized);
    assert_eq!(auth_decision(Some("pw"), None, Some("Basic %%%")), AuthDecision::Unauthorized);
    // "admin:p:w" splits at the first colon.
    assert_eq!(
        auth_decision(Some("p:w"), None, Some("Basic YWRtaW46cDp3")),
        AuthDecision::Authorized
    );
}

#[test]
fn report_classifies_done_and_failed_candidates() {
    assert_eq!(classify_candidate(false, Some(0)), CandidateState::New);
    assert_eq!(classify_candidate(true, Some(0)), CandidateState::Done);
    assert_eq!(classify_candidate(false, Some(1)), CandidateState::Failed);
    assert_eq!(classify_candidate(false, None), CandidateState::New);
    assert_eq!(CandidateState::Failed.label(), "failed");
    assert_eq!(report_outcome(true, true), "Archive würden bei dry_run=false gelöscht.");
    assert_eq!(report_outcome(false, true), "Cleanup ist deaktiviert.");
}

fn watch_entry(path: &str, name: &str, is_dir: bool, has_start: bool, ready: bool) -> WatchEntry {
    WatchEntry {
        path: path.to_string(),
        name: name.to_string(),
        is_dir,
        is_file: !is_dir,
        has_start,
        root_target_ready: ready,
    }
}

#[test]
fn scan_finds_folder_and_root_archive_candidates() {
    let entries = vec![
        watch_entry("/w/Folder.Release", "Folder.Release", true, true, false),
        watch_entry("/w/Root.Release.part02.rar", "Root.Release.part02.rar", false, false, true),
        watch_entry("/w/Root.Release.part01.rar", "Root.Release.part01.rar", false, false, true),
        watch_entry("/w/_extracted", "_extracted", true, true, false),
    ];
    let candidates = scan_candidates(&entries, true);
    assert_eq!(candidates, vec!["/w/Folder.Release", "/w/Root.Release.part01.rar"]);
    assert!(should_skip_entry("_processing"));
}

#[test]
fn scan_ignores_root_archives_when_disabled() {
    let entries = vec![watch_entry("/w/Root.Disabled.zip", "Root.Disabled.zip", false, false, true)];
    assert!(scan_candidates(&entries, false).is_empty());
}

#[test]
fn safety_check_reports_blockers_and_warnings() {
    let facts = SafetyFacts {
        watch_dirs: vec![
            WatchDirFact { path: "/w".to_string(), is_dir: true },
            WatchDirFact { path: "/missing".to_string(), is_dir: false },
        ],
        output_dir: "/w/".to_string(),
        output_exists: true,
        history_dir: "/h".to_string(),
        history_exists: false,
        delete_archives: true,
        dry_run: true,
        candidates: vec![CandidateFact {
            path: "/w/A".to_string(),
            state: CandidateState::New,
            plan: Ok(vec![
                CleanupFileFact { path: "/w/A/a.rar".to_string(), safe: true },
                CleanupFileFact { path: "/etc/x.rar".to_string(), safe: false },
            ]),
        }],
    };
    let report = assess_safety(&facts);
    assert_eq!(
        report.blockers,
        vec![
            "Watch-Ordner existiert nicht: /missing",
            "Output-Ordner darf nicht identisch mit einem Watch-Ordner sein",
            "Unsicherer Cleanup-Kandidat: /etc/x.rar",
        ]
    );
    assert_eq!(
        report.warnings,
        vec![
            "History-Ordner existiert noch nicht: /h",
            "1 neue Kandidat(en) vorhanden. Bei normalem Worker-Lauf und dry_run=false würden Archive nach erfolgreicher Verarbeitung gelöscht.",
        ]
    );
    assert_eq!(report.cleanup_file_count, 2);
    assert_eq!(report.unsafe_cleanup_count, 1);
    assert_eq!(report.readiness, Readiness::No);
}

#[test]
fn backups_are_placed_next_to_the_history() {
    assert_eq!(
        config_backup_path("/config/config.toml", "/state/history", 42),
        "/state/config-backups/config.toml.bak.42"
    );
    assert_eq!(
        config_backup_path("/", "/", 1),
        "/state/config-backups/config.toml.bak.1"
    );
    assert_eq!(
        password_backup_path("/config/pw.txt", "/state/history", 7),
        "/state/password-backups/pw.txt.bak.7"
    );
    assert_eq!(
        history_backup_path("/state/history", 9),
        "/state/history-backups/history.bak.9"
    );
    let dirs = backup_directories("/data/history");
    assert_eq!(dirs.config, "/data/config-backups");
    assert_eq!(dirs.passwords, "/data/password-backups");
}

#[test]
fn backup_overview_counts_and_ages() {
    assert!(is_matching_backup("/s/config-backups/config.toml.bak.1", true, false, BackupKind::Config));
    assert!(!is_matching_backup("/s/config-backups/config.toml", true, false, BackupKind::Config));
    assert!(is_matching_backup("/s/h/history.bak.3", false, true, BackupKind::History));
    assert!(!is_matching_backup("/s/h/history.bak.3", true, false, BackupKind::History));
    assert_eq!(ago(1, "Tag", "Tagen"), "vor 1 Tag");
    assert_eq!(relative_age(Some(59)), "gerade eben");
    assert_eq!(relative_age(Some(120)), "vor 2 Minuten");
    assert_eq!(relative_age(Some(3600)), "vor 1 Stunde");
    assert_eq!(relative_age(Some(3 * 86400)), "vor 3 Tagen");
    assert_eq!(relative_age(None), "gerade eben");

    let listing = BackupListing::Entries(vec![
        BackupEntry {
            path: "/s/b/a.bak.1".to_string(),
            name: "a.bak.1".to_string(),
            is_file: true,
            is_dir: false,
            modified: Some(Timestamp { secs: 100, nanos: 0 }),
        },
        BackupEntry {
            path: "/s/b/b.bak.2".to_string(),
            name: "b.bak.2".to_string(),
            is_file: true,
            is_dir: false,
            modified: Some(Timestamp { secs: 200, nanos: 0 }),
        },
        BackupEntry {
            path: "/s/b/notes".to_string(),
            name: "notes".to_string(),
            is_file: true,
            is_dir: false,
            modified: Some(Timestamp { secs: 900, nanos: 0 }),
        },
    ]);
    let summary = summarize("/s/b".to_string(), &listing, BackupKind::Config, Timestamp { secs: 7400, nanos: 0 });
    assert!(summary.directory_exists && summary.readable);
    assert_eq!(summary.count, 2);
    assert_eq!(summary.latest_name.as_deref(), Some("b.bak.2"));
    assert_eq!(summary.latest_age.as_deref(), Some("vor 2 Stunden"));
    let missing = summarize("/s/x".to_string(), &BackupListing::Missing, BackupKind::Config, Timestamp { secs: 0, nanos: 0 });
    assert!(!missing.directory_exists);
}

#[test]
fn an_added_password_is_read_back_last() {
    let content = "# Kommentar\nalt1\nalt2";
    let password = check_new_password("  neu  ").unwrap();
    let updated = append_password_to_content(content, &password).unwrap();
    assert_eq!(updated, "# Kommentar\nalt1\nalt2\nneu\n");
    assert_eq!(parse_passwords(&updated), vec!["alt1", "alt2", "neu"]);

    let commented = append_password_to_content(content, "#geheim").unwrap();
    assert_eq!(parse_passwords(&commented), vec!["alt1", "alt2"]);
}

#[test]
fn scan_finds_root_archive_candidate_for_check() {
    let entries = vec![watch_entry("/w/Check.Release.zip", "Check.Release.zip", false, false, true)];
    assert_eq!(scan_candidates(&entries, true), vec!["/w/Check.Release.zip"]);
}

#[test]
fn report_scan_finds_root_archive_candidate() {
    let entries = vec![
        watch_entry("/w/Report.Test.zip", "Report.Test.zip", false, false, true),
        watch_entry("/w/history", "history", true, false, false),
        watch_entry("/w/config.toml", "config.toml", false, false, false),
    ];
    assert_eq!(scan_candidates(&entries, true), vec!["/w/Report.Test.zip"]);
}

#[test]
fn scan_marks_candidates_as_new_done_or_failed() {
    let history = xdcc_extractor::history::History::new("/w/history".to_string());
    let entries = vec![
        watch_entry("/w/New.Release.zip", "New.Release.zip", false, false, true),
        watch_entry("/w/Done.Release.zip", "Done.Release.zip", false, false, true),
        watch_entry("/w/Failed.Release.zip", "Failed.Release.zip", false, false, true),
    ];
    let candidates = scan_candidates(&entries, true);
    let existing = vec![history.marker_path("/w/Done.Release.zip")];
    let failed_marker = xdcc_extractor::history::next_failed_marker_content(
        "/w/Failed.Release.zip",
        None,
        "test error",
    );
    let state_of = |path: &str| {
        let marker = if path == "/w/Failed.Release.zip" { Some(failed_marker.as_str()) } else { None };
        classify_candidate(
            history.is_done(path, &existing),
            Some(xdcc_extractor::history::failed_attempts(marker)),
        )
    };
    assert_eq!(candidates.len(), 3);
    assert_eq!(state_of("/w/New.Release.zip"), CandidateState::New);
    assert_eq!(state_of("/w/Done.Release.zip"), CandidateState::Done);
    assert_eq!(state_of("/w/Failed.Release.zip"), CandidateState::Failed);
}

#[test]
fn scan_orders_candidates_as_paths_and_keeps_each_path_once() {
    let entries = vec![
        watch_entry("/w/a-b", "a-b", true, true, false),
        watch_entry("/w/a/b", "b", true, true, false),
        watch_entry("/w/Release", "Release", true, true, false),
        watch_entry("/w/Release/", "Release", true, true, false),
    ];
    let candidates = scan_candidates(&entries, true);
    assert_eq!(candidates, vec!["/w/Release", "/w/a/b", "/w/a-b"]);
}

#[test]
fn authorization_header_loses_its_whole_value_in_any_case() {
    assert_eq!(
        redact_secrets("AUTHORIZATION: Basic dXNlcjpwYXNz token=abc secret: x"),
        "AUTHORIZATION:<redacted>"
    );
    assert_eq!(redact_secrets("authorization:"), "authorization:<redacted>");
}

#[test]
fn basic_header_of_the_configured_credentials_is_accepted() {
    let encoded = base64::engine::general_purpose::STANDARD.encode("admin:pässwort:mit:doppelpunkt".as_bytes());
    let header = format!("Basic {}", encoded);
    assert_eq!(
        auth_decision(Some("pässwort:mit:doppelpunkt"), None, Some(header.as_str())),
        AuthDecision::Authorized
    );
    let encoded = base64::engine::general_purpose::STANDARD.encode("bob:x".as_bytes());
    let header = format!("Basic {}", encoded);
    assert_eq!(auth_decision(Some("x"), Some("bob"), Some(header.as_str())), AuthDecision::Authorized);
}

#[test]
fn separator_must_come_within_two_bytes_of_the_key() {
    assert_eq!(redact_secrets("token é:x"), "token é:x");
    assert_eq!(redact_secrets("token :x y"), "token :<redacted> y");
    assert_eq!(redact_secrets("tokenä:x y"), "tokenä:<redacted> y");
    assert_eq!(redact_key("Token=x", "TOKEN"), "Token=x");
}
