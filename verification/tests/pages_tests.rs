use xdcc_extractor::backups::BackupSummary;
use xdcc_extractor::config::{
    Config, ExtractConfig, HistoryConfig, NotificationConfig, OutputConfig, RetryConfig,
    StartupConfig, WatchConfig, WebConfig,
};
use xdcc_extractor::disk::DiskUsageLevel;
use xdcc_extractor::dryrun::CandidateState;
use xdcc_extractor::history::FailureEntry;
use xdcc_extractor::html::{notice_class, ScanCandidate};
use xdcc_extractor::pages::{
    dashboard_page_html, diagnostics_page_html, logs_page_html, settings_edit_page_html,
    settings_page_html, DiagnosticsFacts, DiskFigures, DiskReading, VERSION,
};

fn sample_config() -> Config {
    Config {
        watch: WatchConfig {
            directory: "/downloads".to_string(),
            directories: vec!["/downloads2".to_string(), " /downloads ".to_string()],
            stable_after: 45,
            allow_root_archives: true,
        },
        extract: ExtractConfig {
            delete_archives: false,
            keep_failed: true,
            password_file: "/config/pass<word>s.txt".to_string(),
            dry_run: true,
        },
        output: OutputConfig::default(),
        history: HistoryConfig::default(),
        retry: RetryConfig::default(),
        startup: StartupConfig::default(),
        notifications: NotificationConfig::default(),
        web: WebConfig::default(),
    }
}

fn empty_backup(directory: &str) -> BackupSummary {
    BackupSummary {
        directory: directory.to_string(),
        directory_exists: false,
        readable: false,
        count: 0,
        latest_name: None,
        latest_age: None,
    }
}

#[test]
fn logs_page_shows_version_and_polls_the_log_api() {
    let html = logs_page_html();
    assert!(html.starts_with("<!doctype html>"));
    assert!(html.contains(&format!("XDCC Extractor Version {}", VERSION)));
    assert!(html.contains("fetch('/api/logs', { cache: 'no-store' })"));
    assert!(html.ends_with("</html>"));
}

#[test]
fn settings_page_lists_watch_directories_and_escapes_values() {
    let html = settings_page_html(&sample_config());
    assert!(html.contains("<code>/downloads</code>"));
    assert!(html.contains("<code>/downloads2</code>"));
    assert_eq!(html.matches("watch-directory-item").count(), 2);
    assert!(html.contains("<code>/config/pass&lt;word&gt;s.txt</code>"));
    assert!(html.contains(
        r#"<div class="key">Wartezeit bis Verarbeitung</div><div class="value">45s</div>"#
    ));
    assert!(html.contains(
        r#"<div class="key">Testmodus</div><div class="value"><span class="badge ok">aktiv</span>"#
    ));
    assert!(html.contains(
        r#"<div class="key">Archive nach Erfolg löschen</div><div class="value"><span class="badge muted">aus</span>"#
    ));
    assert!(html.contains(
        r#"<div class="key">Gotify-URL konfiguriert</div><div class="value"><span class="badge bad">nein</span>"#
    ));
}

#[test]
fn edit_page_fills_the_form_and_shows_the_notice() {
    let config = sample_config();
    let html = settings_edit_page_html(&config, "/app/config.toml", Some("Gespeichert. Neustart erforderlich."));
    assert!(html.contains("Konfigurationsdatei: <code>/app/config.toml</code>"));
    assert!(html.contains(
        r#"<section class="notice restart-required" role="status">Gespeichert. Neustart erforderlich.</section>"#
    ));
    assert!(html.contains(">/downloads\n/downloads2</textarea>"));
    assert!(html.contains(r#"name="stable_after" type="number" min="1" value="45""#));
    assert!(html.contains(r#"<input type="checkbox" name="allow_root_archives" checked>"#));
    assert!(html.contains(r#"<input type="checkbox" name="delete_archives" >"#));

    let quiet = settings_edit_page_html(&config, "/app/config.toml", None);
    assert!(!quiet.contains("role=\"status\">"));
}

#[test]
fn notice_class_follows_the_message() {
    assert_eq!(notice_class("Gespeichert. Neustart erforderlich."), "notice restart-required");
    assert_eq!(notice_class("Speichern fehlgeschlagen: x"), "notice notice-error");
    assert_eq!(notice_class("Passwortliste wurde nicht ersetzt."), "notice notice-error");
    assert_eq!(notice_class("Alles gut."), "notice notice-success");
}

#[test]
fn dashboard_shows_counts_candidates_and_errors() {
    let config = sample_config();
    let scan = Ok(vec![ScanCandidate { path: "/downloads/A".to_string(), state: CandidateState::New }]);
    let failures = Ok(vec![FailureEntry {
        marker: "/state/history/x.failed".to_string(),
        path: "/downloads/B".to_string(),
        attempts: 2,
        error_class: "Archivprüfung".to_string(),
        reason: "CRC".to_string(),
    }]);
    let html = dashboard_page_html(&config, 3, 1, &scan, &failures);
    assert!(html.contains("<div class=\"value\">3 erledigt / 1 fehlgeschlagen</div>"));
    assert!(html.contains("neu: 1"));
    assert!(html.contains("data-action=\"process\" data-path=\"/downloads/A\""));
    assert!(html.contains("fehlgeschlagen: 1"));
    assert!(html.contains("Archive nach Erfolg löschen: false"));

    let broken = dashboard_page_html(&config, 0, 0, &Err("kaputt <x>".to_string()), &Err("weg".to_string()));
    assert!(broken.contains(
        r#"<div class="error">Releases konnten nicht geprüft werden: kaputt &lt;x&gt;</div>"#
    ));
    assert!(broken.contains(r#"<div class="error">Fehlerliste konnte nicht geladen werden: weg</div>"#));
}

#[test]
fn diagnostics_page_numbers_watch_cards_and_formats_sizes() {
    let config = sample_config();
    let figures = |percent: &str| DiskFigures {
        total_bytes: 2048,
        used_bytes: 1024,
        available_bytes: 1024,
        level: DiskUsageLevel::Normal,
        used_percent: percent.to_string(),
        meter_percent: percent.to_string(),
    };
    let facts = DiagnosticsFacts {
        history_dir_exists: false,
        password_file_exists: true,
        done: 4,
        failed: 0,
        watch_disks: vec![
            DiskReading::Available(figures("50.0")),
            DiskReading::Unavailable("nicht lesbar".to_string()),
        ],
        output_disk: DiskReading::Available(figures("50.0")),
        history_disk: DiskReading::Unavailable("fehlt".to_string()),
        config_backups: empty_backup("/state/config-backups"),
        history_backups: BackupSummary {
            directory: "/state/history-backups".to_string(),
            directory_exists: true,
            readable: true,
            count: 2,
            latest_name: Some("history.bak.9".to_string()),
            latest_age: Some("vor 5 Minuten".to_string()),
        },
        password_backups: empty_backup("/state/password-backups"),
    };
    let html = diagnostics_page_html(&config, &facts);
    assert!(html.contains("<h2>Überwachter Ordner 1</h2>"));
    assert!(html.contains("<h2>Überwachter Ordner 2</h2>"));
    assert!(html.contains("<h2>Ausgabeordner</h2>"));
    assert!(html.contains("<h2>Verlaufs-/State-Ordner</h2>"));
    assert!(html.contains("2,0 KiB"));
    assert!(html.contains("50.0 %"));
    assert!(html.contains("nicht lesbar"));
    assert!(html.contains(r#"<span class="badge bad">nicht erreichbar</span>"#));
    assert!(html.contains(r#"<span class="badge ok">vorhanden</span>"#));
    assert!(html.contains("vor 5 Minuten<br><code>history.bak.9</code>"));
    assert!(html.contains("noch keine Sicherung"));
    assert!(html.contains(r#"<span class="badge ok">4</span>"#));
}

#[test]
fn pages_do_not_show_gotify_or_ntfy_secrets() {
    let mut a = sample_config();
    a.notifications.gotify.url = "https://gotify.example.org".to_string();
    a.notifications.gotify.token = "SECRET-REDACTED".to_string();
    a.notifications.ntfy.token = "tk_first".to_string();
    let mut b = sample_config();
    b.notifications.gotify.url = "https://other.example.org".to_string();
    b.notifications.gotify.token = "another-token".to_string();
    b.notifications.ntfy.token = "tk_second".to_string();
    b.notifications.ntfy.server = "https://ntfy.example.org".to_string();

    let page = settings_page_html(&a);
    assert_eq!(page, settings_page_html(&b));
    assert!(!page.contains("gotify.example.org"));
    assert_eq!(
        settings_edit_page_html(&a, "/app/config.toml", None),
        settings_edit_page_html(&b, "/app/config.toml", None)
    );
    assert!(!settings_edit_page_html(&a, "/app/config.toml", None).contains("tk_first"));
}

#[test]
fn api_config_shows_settings_and_only_whether_secrets_are_set() {
    let mut config = sample_config();
    config.notifications.gotify.url = "https://gotify.example.org".to_string();
    config.notifications.gotify.token = "SECRET-REDACTED".to_string();
    let shown = xdcc_extractor::api::api_config(&config);
    assert_eq!(shown.watch_directory, "/downloads");
    assert_eq!(shown.watch_directories, vec!["/downloads", "/downloads2"]);
    assert_eq!(shown.stable_after, 45);
    assert!(shown.allow_root_archives);
    assert!(!shown.delete_archives);
    assert!(shown.dry_run);
    assert!(shown.password_file_configured);
    assert!(shown.gotify_url_configured);
    assert!(shown.gotify_token_configured);
    config.notifications.gotify.token = "   ".to_string();
    let shown = xdcc_extractor::api::api_config(&config);
    assert!(!shown.gotify_token_configured);
}
