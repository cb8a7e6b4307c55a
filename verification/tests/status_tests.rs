use xdcc_extractor::status::{
    read_status_fields, status_head_lines, status_lines, status_report, FailureNote,
    HistoryFacts, StatusFacts, StatusFields,
};

fn fields() -> StatusFields {
    StatusFields {
        watch_directory: Some("/downloads".to_string()),
        output_directory: Some("  ".to_string()),
        history_directory: Some("/state/history".to_string()),
        password_file: Some("/config/passwords.txt".to_string()),
        gotify_enabled: Some(true),
        gotify_url: Some(String::new()),
        gotify_token: Some("SECRET-REDACTED".to_string()),
    }
}

#[test]
fn status_head_names_the_config_file() {
    let head = status_head_lines("/app/config.toml");
    assert_eq!(head[0], "== XDCC Extractor Status ==");
    assert_eq!(head.last().map(String::as_str), Some("  Pfad: /app/config.toml"));
    assert_eq!(head.len(), 10);
}

#[test]
fn status_reports_paths_passwords_history_and_gotify() {
    let facts = StatusFacts {
        watch_exists: true,
        output_exists: false,
        history_exists: true,
        password_content: Some("# Kommentar\neins\n\nzwei\n".to_string()),
        history: Some(HistoryFacts {
            names: vec!["a.done".to_string(), "b.done".to_string(), "c.failed".to_string()],
            latest: vec![FailureNote {
                file_name: "c.failed".to_string(),
                content: Some("release=/d/c\nGrund: CRC-Fehler\n".to_string()),
            }],
        }),
    };
    let lines = status_lines(&fields(), &facts);
    let expected = vec![
        "  Status: OK",
        "",
        "Watch directory:",
        "  Pfad: /downloads",
        "  Status: OK",
        "",
        "Output directory:",
        "  Status: nicht konfiguriert",
        "",
        "History directory:",
        "  Pfad: /state/history",
        "  Status: OK",
        "",
        "",
        "Password file:",
        "  Pfad: /config/passwords.txt",
        "  Status: OK",
        "  Einträge: 2",
        "",
        "History:",
        "  Status: OK",
        "  done: 2",
        "  failed: 1",
        "  letzte Fehler:",
        "    - c.failed",
        "      Grund: CRC-Fehler",
        "",
        "Gotify:",
        "  enabled: true",
        "  url: <leer>",
        "  token gesetzt: true",
        "",
        "Status-Prüfung abgeschlossen.",
    ];
    assert_eq!(lines, expected);
    assert!(!lines.iter().any(|line| line.contains("SECRET")));
}

#[test]
fn status_reports_missing_history_and_unset_values() {
    let mut f = fields();
    f.password_file = None;
    f.gotify_enabled = None;
    f.gotify_url = None;
    f.gotify_token = None;
    let facts = StatusFacts {
        watch_exists: false,
        output_exists: false,
        history_exists: false,
        password_content: None,
        history: None,
    };
    let lines = status_lines(&f, &facts);
    assert!(lines.contains(&"  Status: FEHLT".to_string()));
    assert!(lines.contains(&"  enabled: false".to_string()));
    assert!(lines.contains(&"  token gesetzt: false".to_string()));
    assert!(!lines.iter().any(|line| line.starts_with("Password file")));
    assert!(!lines.iter().any(|line| line.starts_with("  url:")));
}

fn nothing_on_disk() -> StatusFacts {
    StatusFacts {
        watch_exists: false,
        output_exists: false,
        history_exists: false,
        password_content: None,
        history: None,
    }
}

#[test]
fn status_fields_are_read_from_the_config_text() {
    let text = "[watch]\ndirectory = \"/downloads\"\n\n[history]\ndirectory = 5\n\n[notifications.gotify]\nenabled = true\nurl = \"https://gotify.example.org\"\n";
    let fields = read_status_fields(text).ok().unwrap();
    assert_eq!(fields.watch_directory.as_deref(), Some("/downloads"));
    assert_eq!(fields.output_directory, None);
    assert_eq!(fields.history_directory, None);
    assert_eq!(fields.password_file, None);
    assert_eq!(fields.gotify_enabled, Some(true));
    assert_eq!(fields.gotify_url.as_deref(), Some("https://gotify.example.org"));
    assert_eq!(fields.gotify_token, None);
}

#[test]
fn status_report_reads_the_text_and_refuses_what_is_not_toml() {
    let text = "[watch]\ndirectory = \"/downloads\"\n[notifications.gotify]\ntoken = \"abc\"\n";
    let lines = status_report(text, &nothing_on_disk()).ok().unwrap();
    let expected = vec![
        "  Status: OK",
        "",
        "Watch directory:",
        "  Pfad: /downloads",
        "  Status: FEHLT",
        "",
        "Output directory:",
        "  Status: nicht konfiguriert",
        "",
        "History directory:",
        "  Status: nicht konfiguriert",
        "",
        "",
        "Gotify:",
        "  enabled: false",
        "  token gesetzt: true",
        "",
        "Status-Prüfung abgeschlossen.",
    ];
    assert_eq!(lines, expected);
    assert!(status_report("[watch\ndirectory = ", &nothing_on_disk()).is_err());
    assert!(read_status_fields("directory = = 1").is_err());
}
