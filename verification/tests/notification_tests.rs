use xdcc_extractor::config::{NotificationConfig, NtfyConfig};
use xdcc_extractor::notifications::{
    build_payload, shorten, validate_runtime_config, NotificationEvent, Notifications, NotifyError,
};

fn ntfy_config() -> NtfyConfig {
    NtfyConfig {
        server: "https://ntfy.example.org/".to_string(),
        topic: "xdcc-extractor".to_string(),
        token: "secret-token".to_string(),
        priority_success: 3,
        priority_error: 5,
        notify_on_worker_start: false,
        notify_on_processing_start: false,
        notify_on_success: true,
        notify_on_error: true,
        notify_on_every_error: false,
        notify_after_attempts: 3,
    }
}

fn notifications(ntfy: NtfyConfig) -> Notifications {
    let mut config = NotificationConfig::default();
    config.enabled = true;
    config.provider = "ntfy".to_string();
    config.ntfy = ntfy;
    Notifications::new(config)
}

#[test]
fn worker_started_payload_uses_worker_metadata() {
    let payload = build_payload(&ntfy_config(), NotificationEvent::WorkerStarted, "gestartet", 3);

    assert_eq!(payload.title, "XDCC Extractor: Worker gestartet");
    assert_eq!(payload.tags[0], "rocket");
}

#[test]
fn processing_started_payload_uses_processing_metadata() {
    let payload = build_payload(
        &ntfy_config(),
        NotificationEvent::ProcessingStarted,
        "gestartet",
        3,
    );

    assert_eq!(payload.title, "XDCC Extractor: Verarbeitung gestartet");
    assert_eq!(payload.tags[0], "package");
}

#[test]
fn success_payload_contains_topic_title_priority_and_tags() {
    let payload = build_payload(
        &ntfy_config(),
        NotificationEvent::ProcessingSucceeded,
        "fertig",
        3,
    );

    assert_eq!(payload.topic, "xdcc-extractor");
    assert_eq!(payload.title, "XDCC Extractor: Verarbeitung erfolgreich");
    assert_eq!(payload.message, "fertig");
    assert_eq!(payload.priority, 3);
    assert_eq!(payload.tags[0], "white_check_mark");
}

#[test]
fn failure_payload_uses_error_metadata() {
    let payload = build_payload(
        &ntfy_config(),
        NotificationEvent::ProcessingFailed,
        "fehlgeschlagen",
        5,
    );

    assert_eq!(payload.title, "XDCC Extractor: Verarbeitung fehlgeschlagen");
    assert_eq!(payload.priority, 5);
    assert_eq!(payload.tags[0], "warning");
}

#[test]
fn shorten_preserves_short_messages() {
    assert_eq!(shorten("kurz", 10), "kurz");
}

#[test]
fn shorten_limits_unicode_by_characters() {
    assert_eq!(shorten("äöüß", 3), "äöü\n... gekürzt ...");
}

#[test]
fn runtime_validation_accepts_public_topic_without_token() {
    let mut config = ntfy_config();
    config.token.clear();
    assert!(validate_runtime_config(&config).is_ok());
}

#[test]
fn runtime_validation_rejects_missing_topic() {
    let mut config = ntfy_config();
    config.topic.clear();
    assert!(validate_runtime_config(&config).is_err());
}

#[test]
fn payload_topic_is_trimmed() {
    let mut config = ntfy_config();
    config.topic = "  xdcc  ".to_string();
    let payload = build_payload(&config, NotificationEvent::Test, "x", 1);
    assert_eq!(payload.topic, "xdcc");
    assert_eq!(payload.tags, vec!["white_check_mark", "test_tube"]);
}

#[test]
fn success_request_posts_to_server_and_topic_with_bearer_token() {
    let n = notifications(ntfy_config());
    let request = n.send_success("/downloads/Movie").expect("due").expect("request");
    assert_eq!(request.endpoint, "https://ntfy.example.org/xdcc-extractor");
    assert_eq!(request.authorization.as_deref(), Some("Bearer secret-token"));
    assert_eq!(
        request.payload.message,
        "Release erfolgreich verarbeitet:\n/downloads/Movie"
    );
    assert_eq!(request.payload.priority, 3);
}

#[test]
fn failure_is_announced_only_at_the_configured_attempt() {
    let n = notifications(ntfy_config());
    assert!(n.send_failure("/downloads/Movie", 2, "boom").is_none());
    assert!(n.send_failure("/downloads/Movie", 4, "boom").is_none());
    let request = n.send_failure("/downloads/Movie", 3, "boom").expect("due").expect("request");
    assert_eq!(
        request.payload.message,
        "Release fehlgeschlagen:\n/downloads/Movie\n\nFehlversuche: 3\n\nFehler:\nboom"
    );
    assert_eq!(request.payload.priority, 5);

    let mut every = ntfy_config();
    every.notify_on_every_error = true;
    let n = notifications(every);
    assert!(n.send_failure("/downloads/Movie", 7, "boom").is_some());
}

#[test]
fn disabled_notifications_send_nothing() {
    let mut config = NotificationConfig::default();
    config.ntfy = ntfy_config();
    let n = Notifications::new(config);
    assert!(!n.enabled());
    assert!(n.send_success("/downloads/Movie").is_none());
    assert!(n.send_worker_started().is_none());
    assert!(matches!(n.send_test(), Err(NotifyError::Disabled)));
}

#[test]
fn other_providers_are_refused() {
    let mut config = NotificationConfig::default();
    config.enabled = true;
    config.provider = " gotify ".to_string();
    config.ntfy = ntfy_config();
    let n = Notifications::new(config);
    assert_eq!(n.provider(), "gotify");
    match n.send_test() {
        Err(e) => assert_eq!(
            e.message(),
            "Nicht unterstützter Benachrichtigungsanbieter: gotify"
        ),
        Ok(_) => panic!("unsupported provider expected"),
    }
}

#[test]
fn test_message_without_token_has_no_authorization() {
    let mut ntfy = ntfy_config();
    ntfy.token = "   ".to_string();
    let n = notifications(ntfy);
    let request = n.send_test().expect("request");
    assert!(request.authorization.is_none());
    assert_eq!(request.endpoint, "https://ntfy.example.org/xdcc-extractor");
    assert_eq!(
        request.payload.message,
        "Die ntfy-Konfiguration des XDCC Extractors funktioniert."
    );
    assert_eq!(request.payload.title, NotificationEvent::Test.title());
}
