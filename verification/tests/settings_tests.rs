use xdcc_extractor::settings::{
    apply_settings_to_config_text, parse_watch_directories, toml_bool, toml_string,
    toml_string_array, validate_settings_form, SettingsError, SettingsForm,
};
use xdcc_extractor::toml_edit::set_toml_value;

fn form() -> SettingsForm {
    SettingsForm {
        watch_directories: "/downloads\n/downloads2\n".to_string(),
        stable_after: 45,
        allow_root_archives: Some("on".to_string()),
        delete_archives: None,
        keep_failed: Some("on".to_string()),
        retry_base_delay: 60,
        retry_max_delay: 600,
        startup_scan_existing: None,
        notifications_enabled: Some("on".to_string()),
        ntfy_server: " https://ntfy.example.com ".to_string(),
        ntfy_topic: "xdcc".to_string(),
        ntfy_token: "".to_string(),
        ntfy_priority_success: 3,
        ntfy_priority_error: 5,
        ntfy_notify_on_worker_start: None,
        ntfy_notify_on_processing_start: None,
        ntfy_notify_on_success: Some("on".to_string()),
        ntfy_notify_on_error: Some("on".to_string()),
        ntfy_notify_on_every_error: None,
        ntfy_notify_after_attempts: 3,
    }
}

#[test]
fn toml_values_are_encoded() {
    assert_eq!(toml_string("a\"b\\c\nd"), "\"a\\\"b\\\\c\\nd\"");
    assert_eq!(
        toml_string_array(&["/a".to_string(), "/b".to_string()]),
        "[\"/a\", \"/b\"]"
    );
    assert_eq!(toml_string_array(&[]), "[]");
    assert_eq!(toml_bool(true), "true");
    assert_eq!(toml_bool(false), "false");
}

#[test]
fn set_toml_value_replaces_in_place_keeping_comments() {
    let content = "[watch]\n  directory = \"/old\" # main\nstable_after=30\n";
    let updated = set_toml_value(content, "watch", "directory", "\"/new\"");
    assert_eq!(
        updated,
        "[watch]\n  directory=\"/new\" # main\nstable_after=30\n"
    );
}

#[test]
fn set_toml_value_adds_missing_keys_and_sections() {
    let content = "[watch]\ndirectory=\"/d\"\n\n[retry]\nbase_delay=1";
    let added = set_toml_value(content, "watch", "stable_after", "10");
    assert_eq!(
        added,
        "[watch]\ndirectory=\"/d\"\n\nstable_after=10\n[retry]\nbase_delay=1"
    );
    let section = set_toml_value("[watch]\ndirectory=\"/d\"\n", "startup", "scan_existing", "true");
    assert_eq!(
        section,
        "[watch]\ndirectory=\"/d\"\n\n[startup]\nscan_existing=true\n"
    );
    assert_eq!(set_toml_value("", "web", "enabled", "true"), "[web]\nenabled=true");
}

#[test]
fn watch_directory_field_is_trimmed_and_deduplicated() {
    let dirs = parse_watch_directories(" /a \n\n/b\n/a\n").expect("dirs");
    assert_eq!(dirs, vec!["/a", "/b"]);
    match parse_watch_directories("/a\nrelative/dir\n") {
        Err(SettingsError::RelativeWatchDirectory(d)) => assert_eq!(d, "relative/dir"),
        _ => panic!("relative directory must be refused"),
    }
    assert!(matches!(
        parse_watch_directories("  \n"),
        Err(SettingsError::NoWatchDirectory)
    ));
}

#[test]
fn settings_form_checks_come_in_order() {
    let mut f = form();
    assert_eq!(validate_settings_form(&f).expect("valid"), vec!["/downloads", "/downloads2"]);
    f.retry_max_delay = 10;
    let err = validate_settings_form(&f).expect_err("max below base");
    assert!(matches!(err, SettingsError::RetryMaxBelowBase));
    assert_eq!(
        err.message(),
        "Die maximale Wiederholungs-Wartezeit muss mindestens so groß sein wie die erste Wartezeit"
    );
    f.stable_after = 0;
    assert!(matches!(
        validate_settings_form(&f),
        Err(SettingsError::StableAfterZero)
    ));
}

#[test]
fn settings_are_written_into_the_config_text() {
    let content = "[watch]\ndirectory=\"/old\"\nstable_after=30\n\n[notifications.ntfy]\ntoken=\"keep\"\n";
    let text = apply_settings_to_config_text(content, &form()).expect("applied");
    assert!(text.contains("[watch]\ndirectory=\"/downloads\"\nstable_after=45\n"));
    assert!(text.contains("directories=[\"/downloads2\"]"));
    assert!(text.contains("allow_root_archives=true"));
    assert!(text.contains("[extract]\ndelete_archives=false\nkeep_failed=true"));
    assert!(text.contains("server=\"https://ntfy.example.com\""));
    assert!(text.contains("token=\"keep\""));
    assert!(text.contains("provider=\"ntfy\""));
    assert!(text.contains("notify_after_attempts=3"));
    assert!(text.ends_with('\n'));
}
