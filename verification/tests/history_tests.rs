use xdcc_extractor::history::{
    done_marker_content, failed_attempts, failed_marker_content, first_error_line,
    first_non_empty_error_line, history_counts, marker_hash, marker_name, parse_attempts,
    parse_failed_marker, History,
};

#[test]
fn history_marks_release_as_done() {
    let history = History::new("/state/history".to_string());
    let release = "/downloads/Test.Release";
    let mut existing: Vec<String> = Vec::new();

    assert!(!history.is_done(release, &existing));

    existing.push(history.marker_path(release));

    assert!(history.is_done(release, &existing));
    assert!(existing.contains(&history.marker_path(release)));
    assert_eq!(
        done_marker_content(release),
        "release=/downloads/Test.Release\nstatus=done\n"
    );
}

#[test]
fn history_tracks_failed_attempts() {
    let release = "/downloads/Broken.Release";

    let first = failed_marker_content(release, failed_attempts(None) + 1, "first error");
    assert_eq!(failed_attempts(Some(&first)), 1);

    let second = failed_marker_content(release, failed_attempts(Some(&first)) + 1, "second error");
    assert_eq!(failed_attempts(Some(&second)), 2);
    assert_eq!(
        second,
        "release=/downloads/Broken.Release\nstatus=failed\nattempts=2\nerror=second error\n"
    );
}

#[test]
fn mark_done_clears_failed_marker() {
    let history = History::new("/state/history".to_string());
    let release = "/downloads/Recovered.Release";

    let done = history.marker_path(release);
    let failed = history.failed_marker_path(release);
    assert_ne!(done, failed);
    assert!(done.ends_with(".done"));
    assert!(failed.ends_with(".failed"));
    assert_eq!(
        done.trim_end_matches(".done"),
        failed.trim_end_matches(".failed")
    );

    let existing = vec![done.clone()];
    assert!(history.is_done(release, &existing));
}

#[test]
fn clear_failed_removes_failed_marker() {
    let release = "/downloads/Broken.Release.zip";
    let content = failed_marker_content(release, 1, "test error");
    assert_eq!(failed_attempts(Some(&content)), 1);
    assert_eq!(failed_attempts(None), 0);
}

#[test]
fn clear_failed_returns_false_when_marker_does_not_exist() {
    let history = History::new("/state/history".to_string());
    let release = "/downloads/Not.Failed.Release.zip";
    let existing: Vec<String> = vec![history.marker_path("/downloads/Other.zip")];
    assert!(!existing.contains(&history.failed_marker_path(release)));
    assert!(!history.is_done(release, &existing));
}

#[test]
fn marker_names_are_sanitized_and_hashed() {
    assert_eq!(marker_name("/downloads/Movie Name (2024)"), "Movie_Name__2024_");
    assert_eq!(marker_name("/"), "unknown");
    let hash = marker_hash("/downloads/Test.Release");
    assert_eq!(hash.len(), 12);
    assert!(hash.chars().all(|c| c.is_ascii_hexdigit() && !c.is_ascii_uppercase()));
    assert_ne!(hash, marker_hash("/downloads/Other.Release"));
    let history = History::new("/state/history".to_string());
    assert_eq!(
        history.marker_path("/downloads/Test.Release"),
        format!("/state/history/Test.Release-{}.done", hash)
    );
}

#[test]
fn marker_hash_is_the_sha256_prefix() {
    // SHA-256 of the empty input starts with e3b0c44298fc.
    assert_eq!(marker_hash(""), "e3b0c44298fc");
}

#[test]
fn parses_attempt_lines_in_all_formats() {
    assert_eq!(parse_attempts("release=x\nattempts=4\n"), Some(4));
    assert_eq!(parse_attempts("  attempts: 7 "), Some(7));
    assert_eq!(parse_attempts("Fehlversuche: 2"), Some(2));
    assert_eq!(parse_attempts("attempts=abc\nattempts=3"), None);
    assert_eq!(parse_attempts("nothing"), None);
    assert_eq!(failed_attempts(Some("attempts=oops")), 0);
}

#[test]
fn parses_failed_markers_for_the_web_interface() {
    let content = "release=/downloads/X\nstatus=failed\nattempts=3\nerror=boom\nFehlerklasse: Passwort\nGrund: falsches Passwort\n";
    let (release, attempts, class, reason) = parse_failed_marker(content, "X-abc.failed");
    assert_eq!(release, "/downloads/X");
    assert_eq!(attempts, 3);
    assert_eq!(class, "Passwort");
    assert_eq!(reason, "falsches Passwort");

    let (release, attempts, class, reason) =
        parse_failed_marker("status=failed\nunrar: CRC error\n", "Y-abc.failed");
    assert_eq!(release, "Y-abc.failed");
    assert_eq!(attempts, 0);
    assert_eq!(class, "failed");
    assert_eq!(reason, "unrar: CRC error");

    let (_, _, _, reason) = parse_failed_marker("", "Z");
    assert_eq!(reason, "Kein Grund gefunden");
}

#[test]
fn clips_long_reason_lines() {
    let long = "x".repeat(200);
    let line = first_non_empty_error_line(&long).expect("line");
    assert_eq!(line, format!("{}...", "x".repeat(180)));
    assert_eq!(first_non_empty_error_line("release=a\n\nerror=b\n"), None);
}

#[test]
fn status_shows_error_class_or_first_line() {
    assert_eq!(
        first_error_line("release=a\nGrund: kaputt\n").as_deref(),
        Some("Grund: kaputt")
    );
    assert_eq!(first_error_line("\n  release=a  \n").as_deref(), Some("release=a"));
    let long = "y".repeat(130);
    assert_eq!(first_error_line(&long), Some(format!("{}...", "y".repeat(120))));
    assert_eq!(first_error_line(""), None);
}

#[test]
fn counts_history_markers() {
    let names = vec![
        "a-1.done".to_string(),
        "b-2.failed".to_string(),
        "c-3.done".to_string(),
        "notes.txt".to_string(),
    ];
    assert_eq!(history_counts(&names), (2, 1));
}

#[test]
fn a_new_failure_counts_one_more_attempt() {
    let first = xdcc_extractor::history::next_failed_marker_content("/d/R", None, "kaputt");
    assert_eq!(first, "release=/d/R\nstatus=failed\nattempts=1\nerror=kaputt\n");
    assert_eq!(failed_attempts(Some(&first)), 1);
    let second = xdcc_extractor::history::next_failed_marker_content("/d/R", Some(&first), "wieder");
    assert_eq!(failed_attempts(Some(&second)), 2);
    assert!(second.ends_with("error=wieder\n"));
}

#[test]
fn history_markers_are_recognised_by_extension() {
    assert!(xdcc_extractor::history::is_history_marker("/state/history/Release-abc.done"));
    assert!(xdcc_extractor::history::is_history_marker("/state/history/Release-abc.failed"));
    assert!(!xdcc_extractor::history::is_history_marker("/state/history/.done"));
    assert!(!xdcc_extractor::history::is_history_marker("/state/history/notes.txt"));
    assert!(!xdcc_extractor::history::is_history_marker("/state/history/Release.done.bak"));
    assert!(!xdcc_extractor::history::is_history_marker("/"));
}
