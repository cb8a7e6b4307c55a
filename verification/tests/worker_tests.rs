use xdcc_extractor::history::History;
use xdcc_extractor::queue::JobQueue;
use xdcc_extractor::worker::{
    check_ready_releases, detect_release_dir, detect_release_target, handle_event,
    is_ignored_path, reset_release_timer, retry_delay_seconds, scan_existing_releases,
    update_release, ChangedFile, ReleaseCandidate, ReleaseFacts,
};
use xdcc_extractor::worker::{forget_known, job_end, needs_start_check, JobNotice, JobOutcome};

#[test]
fn retry_delay_doubles_up_to_the_maximum() {
    assert_eq!(retry_delay_seconds(0, 60, 1800), 0);
    assert_eq!(retry_delay_seconds(1, 60, 1800), 60);
    assert_eq!(retry_delay_seconds(2, 60, 1800), 120);
    assert_eq!(retry_delay_seconds(5, 60, 1800), 960);
    assert_eq!(retry_delay_seconds(6, 60, 1800), 1800);
    assert_eq!(retry_delay_seconds(50, 60, u64::MAX), 60 * 1024);
    assert_eq!(retry_delay_seconds(3, u64::MAX, u64::MAX), u64::MAX);
}

#[test]
fn ignores_the_workers_own_directories() {
    assert!(is_ignored_path("/downloads/_extracted/Movie/file.rar"));
    assert!(is_ignored_path("/downloads/.xdcc-worker/x"));
    assert!(!is_ignored_path("/downloads/Movie/file.rar"));
}

#[test]
fn release_target_is_the_directory_or_the_root_archive_set() {
    assert_eq!(
        detect_release_target("/downloads/Movie/a.rar", "/downloads", false).as_deref(),
        Some("/downloads/Movie")
    );
    assert_eq!(
        detect_release_target("/downloads/Movie.part03.rar", "/downloads", false),
        None
    );
    assert_eq!(
        detect_release_target("/downloads/Movie.part03.rar", "/downloads/", true).as_deref(),
        Some("/downloads/Movie.part01.rar")
    );
    assert_eq!(detect_release_dir("/downloads/Movie/a.rar").as_deref(), Some("/downloads/Movie"));
}

#[test]
fn releases_are_tracked_once_and_timers_reset() {
    let mut releases: Vec<ReleaseCandidate> = Vec::new();
    update_release(&mut releases, "/downloads/A".to_string(), 10);
    update_release(&mut releases, "/downloads/B".to_string(), 11);
    update_release(&mut releases, "/downloads/A".to_string(), 20);
    assert_eq!(releases.len(), 2);
    assert_eq!(releases[0].last_seen, 20);
    reset_release_timer(&mut releases, "/downloads/B", 30);
    reset_release_timer(&mut releases, "/downloads/C", 40);
    assert_eq!(releases[1].last_seen, 30);
    assert_eq!(releases.len(), 2);
}

#[test]
fn events_mark_releases_of_archive_files() {
    let mut releases: Vec<ReleaseCandidate> = Vec::new();
    let files = vec![
        ChangedFile { path: "/downloads/Movie/a.nfo".to_string(), is_file: true },
        ChangedFile { path: "/downloads/Movie/a.rar".to_string(), is_file: true },
        ChangedFile { path: "/downloads/Movie/b.nfo".to_string(), is_file: true },
        ChangedFile { path: "/downloads/_extracted/x.rar".to_string(), is_file: true },
        ChangedFile { path: "/downloads/Show".to_string(), is_file: false },
    ];
    handle_event(&files, &mut releases, "/downloads", false, 5);
    assert_eq!(releases.len(), 1);
    assert_eq!(releases[0].path, "/downloads/Movie");
}

#[test]
fn startup_scan_skips_processed_releases() {
    let history = History::new("/state/history".to_string());
    let markers = vec![history.marker_path("/downloads/Done")];
    let files = vec![
        ChangedFile { path: "/downloads/Done/a.rar".to_string(), is_file: true },
        ChangedFile { path: "/downloads/New/a.zip".to_string(), is_file: true },
        ChangedFile { path: "/downloads/New/info.txt".to_string(), is_file: true },
    ];
    let mut releases: Vec<ReleaseCandidate> = Vec::new();
    scan_existing_releases(&files, &mut releases, &history, &markers, "/downloads", false, 1);
    assert_eq!(releases.len(), 1);
    assert_eq!(releases[0].path, "/downloads/New");
}

#[test]
fn ready_releases_are_queued_once() {
    let releases = vec![
        ReleaseCandidate { path: "/d/Old".to_string(), last_seen: 0 },
        ReleaseCandidate { path: "/d/Fresh".to_string(), last_seen: 95 },
        ReleaseCandidate { path: "/d/Done".to_string(), last_seen: 0 },
        ReleaseCandidate { path: "/d/NoStart".to_string(), last_seen: 0 },
        ReleaseCandidate { path: "/d/Failed".to_string(), last_seen: 50 },
    ];
    let facts = vec![
        ReleaseFacts { done: false, attempts: 0, has_start: Some(true) },
        ReleaseFacts { done: false, attempts: 0, has_start: Some(true) },
        ReleaseFacts { done: true, attempts: 0, has_start: Some(true) },
        ReleaseFacts { done: false, attempts: 0, has_start: Some(false) },
        ReleaseFacts { done: false, attempts: 2, has_start: Some(true) },
    ];
    let mut known: Vec<String> = Vec::new();
    let mut queue = JobQueue::new();
    check_ready_releases(&releases, &facts, &mut known, &mut queue, 100, 30, 60, 1800);
    assert_eq!(known, vec!["/d/Old", "/d/Done"]);
    assert_eq!(queue.len(), 1);
    assert_eq!(queue.pop().as_deref(), Some("/d/Old"));

    check_ready_releases(&releases, &facts, &mut known, &mut queue, 1000, 30, 60, 1800);
    assert_eq!(known, vec!["/d/Old", "/d/Done", "/d/Fresh", "/d/Failed"]);
    assert_eq!(queue.len(), 2);
}

#[test]
fn releases_are_matched_as_paths() {
    let mut releases: Vec<ReleaseCandidate> = Vec::new();
    update_release(&mut releases, "/a/b".to_string(), 10);
    update_release(&mut releases, "/a/b/".to_string(), 20);
    assert_eq!(releases.len(), 1);
    assert_eq!(releases[0].path, "/a/b");
    assert_eq!(releases[0].last_seen, 20);
    reset_release_timer(&mut releases, "/a/./b", 30);
    assert_eq!(releases[0].last_seen, 30);
}

#[test]
fn job_end_follows_processing_and_marker() {
    assert_eq!(job_end(true, true, None), (JobOutcome::Success, JobNotice::Success));
    assert_eq!(job_end(true, false, None), (JobOutcome::Failed, JobNotice::Nothing));
    assert_eq!(job_end(false, true, Some(3)), (JobOutcome::Failed, JobNotice::Failure(3)));
    assert_eq!(job_end(false, true, None), (JobOutcome::Failed, JobNotice::Failure(0)));
    assert_eq!(job_end(false, false, Some(3)), (JobOutcome::Failed, JobNotice::Nothing));
}

#[test]
fn start_archive_is_looked_for_only_when_the_check_is_due() {
    let release = ReleaseCandidate { path: "/w/Rel".to_string(), last_seen: 100 };
    let known: Vec<String> = Vec::new();
    assert!(!needs_start_check(&known, &release, false, 0, 120, 30, 60, 1800));
    assert!(needs_start_check(&known, &release, false, 0, 130, 30, 60, 1800));
    assert!(!needs_start_check(&known, &release, true, 0, 130, 30, 60, 1800));
    assert!(!needs_start_check(&known, &release, false, 2, 200, 30, 60, 1800));
    assert!(needs_start_check(&known, &release, false, 2, 220, 30, 60, 1800));
    let known = vec!["/w/Rel/".to_string()];
    assert!(!needs_start_check(&known, &release, false, 0, 130, 30, 60, 1800));
}

#[test]
fn a_failed_release_is_forgotten_as_a_path() {
    let mut known = vec!["/w/A".to_string(), "/w/B/".to_string(), "/w/C".to_string()];
    forget_known(&mut known, "/w/B");
    assert_eq!(known, vec!["/w/A", "/w/C"]);
}
