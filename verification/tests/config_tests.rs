use xdcc_extractor::config::{
    validate_config, Config, ConfigError, ExtractConfig, GotifyConfig, HistoryConfig,
    NotificationConfig, NtfyConfig, OutputConfig, RetryConfig, StartupConfig, WatchConfig,
    WebConfig,
};

fn config_with_watch(directory: &str) -> Config {
    Config {
        watch: WatchConfig {
            directory: directory.to_string(),
            directories: Vec::new(),
            stable_after: xdcc_extractor::config::default_stable_after(),
            allow_root_archives: false,
        },
        extract: ExtractConfig::default(),
        output: OutputConfig::default(),
        history: HistoryConfig::default(),
        retry: RetryConfig::default(),
        startup: StartupConfig::default(),
        notifications: NotificationConfig::default(),
        web: WebConfig::default(),
    }
}

#[test]
fn loads_minimal_config_with_defaults() {
    let config = config_with_watch("/downloads");

    assert_eq!(config.watch.directory, "/downloads");
    assert!(config.watch.directories.is_empty());
    assert_eq!(config.watch.resolved_directories(), vec!["/downloads"]);
    assert_eq!(config.watch.stable_after, 30);
    assert!(config.extract.delete_archives);
    assert!(config.extract.keep_failed);
    assert_eq!(config.output.directory, "/downloads/_extracted");
    assert_eq!(config.history.directory, "/state/history");
    assert_eq!(config.retry.base_delay, 60);
    assert_eq!(config.retry.max_delay, 1800);
    assert!(!config.notifications.enabled);
    assert_eq!(config.notifications.provider, "ntfy");
    assert!(!config.notifications.gotify.enabled);
    assert!(validate_config(&config).is_ok());
}

#[test]
fn combines_legacy_and_additional_watch_directories() {
    let mut config = config_with_watch("/downloads");
    config.watch.directories = vec![
        "/downloads2".to_string(),
        " /downloads3 ".to_string(),
        "/downloads".to_string(),
    ];

    assert_eq!(
        config.watch.resolved_directories(),
        vec!["/downloads", "/downloads2", "/downloads3",]
    );
}

#[test]
fn accepts_watch_directories_without_legacy_directory() {
    let mut config = config_with_watch("");
    config.watch.directories = vec!["/downloads-a".to_string(), "/downloads-b".to_string()];

    assert!(config.watch.directory.is_empty());
    assert_eq!(
        config.watch.resolved_directories(),
        vec!["/downloads-a", "/downloads-b",]
    );
    assert!(validate_config(&config).is_ok());
}

#[test]
fn rejects_empty_watch_directory() {
    let config = config_with_watch("");

    let err = validate_config(&config).expect_err("should fail");
    assert_eq!(err, ConfigError::NoWatchDirectory);
    assert!(err.message().contains("watch.directory"));
}

#[test]
fn rejects_enabled_gotify_without_token() {
    let mut config = config_with_watch("/downloads");
    config.notifications.gotify.enabled = true;
    config.notifications.gotify.url = "https://gotify.example.com".to_string();
    config.notifications.gotify.token = String::new();

    let err = validate_config(&config).expect_err("should fail");
    assert!(err.message().contains("token"));
}

#[test]
fn accepts_enabled_ntfy_without_token() {
    let mut config = config_with_watch("/downloads");
    config.notifications.enabled = true;
    config.notifications.provider = "ntfy".to_string();
    config.notifications.ntfy.server = "https://ntfy.example.com".to_string();
    config.notifications.ntfy.topic = "xdcc-extractor".to_string();
    config.notifications.ntfy.token = String::new();

    assert!(validate_config(&config).is_ok());
    assert!(config.notifications.enabled);
    assert!(config.notifications.ntfy.token.is_empty());
}

#[test]
fn rejects_invalid_ntfy_topic() {
    let mut config = config_with_watch("/downloads");
    config.notifications.enabled = true;
    config.notifications.provider = "ntfy".to_string();
    config.notifications.ntfy.server = "https://ntfy.example.com".to_string();
    config.notifications.ntfy.topic = "invalid topic".to_string();

    let err = validate_config(&config).expect_err("should fail");
    assert!(err.message().contains("topic"));
}

#[test]
fn rejects_invalid_retry_config() {
    let mut config = config_with_watch("/downloads");
    config.retry.base_delay = 120;
    config.retry.max_delay = 60;

    let err = validate_config(&config).expect_err("should fail");
    assert!(err.message().contains("retry.max_delay"));
}

#[test]
fn ntfy_debug_output_redacts_token() {
    let ntfy = NtfyConfig {
        server: "https://ntfy.example.com".to_string(),
        topic: "xdcc-extractor".to_string(),
        token: "tk_super-secret-token".to_string(),
        priority_success: 3,
        priority_error: 5,
        notify_on_worker_start: false,
        notify_on_processing_start: false,
        notify_on_success: true,
        notify_on_error: true,
        notify_on_every_error: false,
        notify_after_attempts: 3,
    };

    let debug = ntfy.debug_string();

    assert!(debug.contains("<redacted>"));
    assert!(!debug.contains("tk_super-secret-token"));
}

#[test]
fn gotify_debug_output_redacts_token() {
    let gotify = GotifyConfig {
        enabled: true,
        url: "https://gotify.example.com".to_string(),
        token: "super-secret-token".to_string(),
        priority_success: 3,
        priority_error: 8,
        notify_on_success: true,
        notify_on_error: true,
        notify_on_every_error: false,
        notify_after_attempts: 3,
    };

    let debug = gotify.debug_string();

    assert!(debug.contains("<redacted>"));
    assert!(!debug.contains("super-secret-token"));
}

#[test]
fn ntfy_debug_output_without_token_says_empty() {
    let ntfy = NtfyConfig::default();
    let debug = ntfy.debug_string();
    assert!(debug.starts_with("NtfyConfig { server: \"\""));
    assert!(!debug.contains("<redacted>"));
}

#[test]
fn rejects_ntfy_server_without_scheme() {
    let mut config = config_with_watch("/downloads");
    config.notifications.enabled = true;
    config.notifications.ntfy.server = "ntfy.example.com".to_string();
    config.notifications.ntfy.topic = "xdcc".to_string();

    assert_eq!(validate_config(&config), Err(ConfigError::NtfyServerScheme));
}

#[test]
fn rejects_zero_stable_after() {
    let mut config = config_with_watch("/downloads");
    config.watch.stable_after = 0;

    assert_eq!(validate_config(&config), Err(ConfigError::StableAfterZero));
}
