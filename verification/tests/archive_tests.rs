use xdcc_extractor::archive::{
    belongs_to_cleanup_group, cleanup_group_prefix, is_archive_file_name, is_archive_start_file,
    is_tar_archive_name, root_archive_target, sanitize_name, strip_archive_extension,
};
use xdcc_extractor::extract::{
    check_command_success, cleanup_decision, create_extract_plan, extract_command,
    find_archive_start_in_dir, find_cleanup_files_in_dir, has_archive_start, is_rar_archive_path,
    is_safe_cleanup_file, is_tar_archive_path, sort_paths, tar_extract_flag, tar_test_flag,
    next_step, validate_extraction, verify_command, ArchiveTool, ProcessStep, CleanupDecision, DirEntry, ExtractPlan,
    PlanError,
};

#[test]
fn detects_supported_archive_file_names() {
    let supported = [
        "movie.rar",
        "movie.part01.rar",
        "movie.part02.rar",
        "movie.zip",
        "movie.7z",
        "movie.001",
        "movie.r00",
        "movie.tar",
        "movie.tar.gz",
        "movie.tgz",
        "movie.tar.xz",
        "movie.txz",
        "movie.tar.bz2",
        "movie.tbz2",
    ];

    for file in supported {
        assert!(
            is_archive_file_name(file),
            "sollte als Archiv erkannt werden: {}",
            file
        );
    }
}

#[test]
fn ignores_non_archive_file_names() {
    let ignored = [
        "movie.mkv",
        "movie.mp4",
        "subtitle.srt",
        "info.nfo",
        "readme.txt",
        "poster.jpg",
        "sample.avi",
    ];

    for file in ignored {
        assert!(
            !is_archive_file_name(file),
            "sollte nicht als Archiv erkannt werden: {}",
            file
        );
    }
}

#[test]
fn detects_archive_start_files() {
    let starts = [
        "/downloads/movie.rar",
        "/downloads/movie.part01.rar",
        "/downloads/movie.part001.rar",
        "/downloads/movie.zip",
        "/downloads/movie.7z",
        "/downloads/movie.001",
        "/downloads/movie.tar",
        "/downloads/movie.tar.gz",
        "/downloads/movie.tgz",
        "/downloads/movie.tar.xz",
        "/downloads/movie.txz",
        "/downloads/movie.tar.bz2",
        "/downloads/movie.tbz2",
    ];

    for file in starts {
        assert!(is_archive_start_file(file), "sollte Startarchiv sein: {}", file);
    }
}

#[test]
fn rejects_non_start_rar_parts() {
    let non_starts = [
        "/downloads/movie.part02.rar",
        "/downloads/movie.part10.rar",
        "/downloads/movie.part999.rar",
    ];

    for file in non_starts {
        assert!(
            !is_archive_start_file(file),
            "sollte kein Startarchiv sein: {}",
            file
        );
    }
}

#[test]
fn strips_archive_extensions_for_release_names() {
    let cases = [
        ("Movie.Name.rar", "Movie.Name"),
        ("Movie.Name.zip", "Movie.Name"),
        ("Movie.Name.7z", "Movie.Name"),
        ("Movie.Name.tar", "Movie.Name"),
        ("Movie.Name.tar.gz", "Movie.Name"),
        ("Movie.Name.tgz", "Movie.Name"),
        ("Movie.Name.tar.xz", "Movie.Name"),
        ("Movie.Name.txz", "Movie.Name"),
        ("Movie.Name.tar.bz2", "Movie.Name"),
        ("Movie.Name.tbz2", "Movie.Name"),
        ("Movie.Name.001", "Movie.Name"),
        ("Movie.Name.part01.rar", "Movie.Name"),
    ];

    for (input, expected) in cases {
        assert_eq!(
            strip_archive_extension(input),
            expected,
            "falscher Release-Name für {}",
            input
        );
    }
}

#[test]
fn detects_tar_archive_names() {
    let tar_files = [
        "backup.tar",
        "backup.tar.gz",
        "backup.tgz",
        "backup.tar.xz",
        "backup.txz",
        "backup.tar.bz2",
        "backup.tbz2",
    ];

    for file in tar_files {
        assert!(is_tar_archive_name(file), "sollte TAR-Archiv sein: {}", file);
    }
}

#[test]
fn maps_root_rar_parts_to_first_part() {
    let target = root_archive_target("/downloads/movie.part08.rar").expect("Root target erwartet");

    assert_eq!(target, "/downloads/movie.part01.rar");
}

#[test]
fn maps_root_split_parts_to_first_part() {
    let target = root_archive_target("/downloads/movie.007").expect("Root target erwartet");

    assert_eq!(target, "/downloads/movie.001");
}

#[test]
fn cleanup_group_matches_related_files_only() {
    let prefix = cleanup_group_prefix("Movie.Release.part01.rar");

    assert!(belongs_to_cleanup_group("Movie.Release.part01.rar", &prefix));
    assert!(belongs_to_cleanup_group("Movie.Release.part02.rar", &prefix));
    assert!(belongs_to_cleanup_group("Movie.Release.rar", &prefix));

    assert!(!belongs_to_cleanup_group("Other.Release.rar", &prefix));
    assert!(!belongs_to_cleanup_group("Movie.Release.mkv", &prefix));
    assert!(!belongs_to_cleanup_group("Movie.Release.srt", &prefix));
}

#[test]
fn root_target_maps_legacy_rar_volumes_and_ignores_other_files() {
    assert_eq!(
        root_archive_target("/downloads/movie.r05").as_deref(),
        Some("/downloads/movie.rar")
    );
    assert_eq!(
        root_archive_target("/downloads/movie.zip").as_deref(),
        Some("/downloads/movie.zip")
    );
    assert_eq!(root_archive_target("/downloads/movie.mkv"), None);
}

#[test]
fn archive_names_ignore_ascii_case() {
    assert!(is_archive_file_name("MOVIE.RAR"));
    assert!(is_archive_file_name("Movie.Tar.Gz"));
    assert_eq!(strip_archive_extension("Movie.Name.PART01.RAR"), "Movie.Name");
}

#[test]
fn sanitizes_release_names() {
    assert_eq!(sanitize_name("Movie Name (2024)!.mkv"), "Movie_Name__2024__.mkv");
    assert_eq!(sanitize_name("Straße"), "Stra_e");
}

#[test]
fn safe_cleanup_candidate_must_be_inside_release_root() {
    assert!(is_safe_cleanup_file("/tmp/release", "/tmp/release/Movie.Release.rar", true));
    assert!(!is_safe_cleanup_file(
        "/tmp/release",
        "/tmp/outside/Movie.Release.part02.rar",
        true
    ));
    assert!(!is_safe_cleanup_file("/tmp/release", "/tmp/release/Movie.Release.mkv", true));
    assert!(!is_safe_cleanup_file("/tmp/release", "/tmp/release/Movie.Release.rar", false));
}

fn entry(path: &str, regular: bool) -> DirEntry {
    DirEntry {
        path: path.to_string(),
        is_regular_file: regular,
    }
}

#[test]
fn folder_plan_picks_first_start_archive_and_all_volumes() {
    let entries = vec![
        entry("/dl/Show.S01/show.part02.rar", true),
        entry("/dl/Show.S01/show.part01.rar", true),
        entry("/dl/Show.S01/info.nfo", true),
        entry("/dl/Show.S01/sub", false),
    ];

    assert_eq!(
        find_archive_start_in_dir(&entries).as_deref(),
        Some("/dl/Show.S01/show.part01.rar")
    );
    assert_eq!(
        find_cleanup_files_in_dir(&entries),
        vec!["/dl/Show.S01/show.part01.rar", "/dl/Show.S01/show.part02.rar"]
    );

    let plan = create_extract_plan("/dl/Show.S01", false, "/out", &entries).expect("plan");
    assert_eq!(plan.release_root, "/dl/Show.S01");
    assert_eq!(plan.archive, "/dl/Show.S01/show.part01.rar");
    assert_eq!(plan.output_dir, "/out/Show.S01");
    assert_eq!(plan.cleanup_files.len(), 2);
    assert!(has_archive_start("/dl/Show.S01", false, &entries));
}

#[test]
fn folder_plan_without_archive_is_refused() {
    let entries = vec![entry("/dl/Empty/readme.txt", true)];

    match create_extract_plan("/dl/Empty", false, "/out", &entries) {
        Err(PlanError::NoArchive(dir)) => assert_eq!(dir, "/dl/Empty"),
        _ => panic!("plan error expected"),
    }
    assert!(!has_archive_start("/dl/Empty", false, &entries));
}

#[test]
fn flat_plan_collects_the_archive_set() {
    let entries = vec![
        entry("/dl/Movie.Release.part02.rar", true),
        entry("/dl/Movie.Release.part01.rar", true),
        entry("/dl/Other.Release.rar", true),
        entry("/dl/Movie.Release.nfo", true),
    ];

    let plan = create_extract_plan("/dl/Movie.Release.part01.rar", true, "/out", &entries)
        .expect("plan");
    assert_eq!(plan.release_root, "/dl");
    assert_eq!(plan.archive, "/dl/Movie.Release.part01.rar");
    assert_eq!(plan.output_dir, "/out/Movie.Release");
    assert_eq!(
        plan.cleanup_files,
        vec!["/dl/Movie.Release.part01.rar", "/dl/Movie.Release.part02.rar"]
    );
}

#[test]
fn sorts_paths_by_character_order() {
    let sorted = sort_paths(&vec!["b".to_string(), "a".to_string(), "B".to_string()]);
    assert_eq!(sorted, vec!["B", "a", "b"]);
}

#[test]
fn chooses_tar_options_by_compression() {
    assert_eq!(tar_test_flag("/dl/a.tar").ok(), Some("-tf"));
    assert_eq!(tar_test_flag("/dl/a.TGZ").ok(), Some("-tzf"));
    assert_eq!(tar_extract_flag("/dl/a.tar.xz").ok(), Some("-xJf"));
    assert_eq!(tar_extract_flag("/dl/a.tbz2").ok(), Some("-xjf"));
    match tar_test_flag("/dl/a.zip") {
        Err(e) => assert_eq!(e.message(), "Nicht unterstütztes TAR-Format: /dl/a.zip"),
        Ok(_) => panic!("zip is no tar"),
    }
    assert!(is_rar_archive_path("/dl/A.RAR"));
    assert!(!is_rar_archive_path("/dl/a.zip"));
}

#[test]
fn reports_failed_tool_runs() {
    assert!(check_command_success("Entpackung", "7z", "/dl/a.7z", true, "", "").is_ok());
    let err = check_command_success("Entpackung", "7z", "/dl/a.7z", false, "out", "err")
        .expect_err("failure");
    assert_eq!(
        err,
        "Entpackung fehlgeschlagen mit 7z: /dl/a.7z\n\nSTDOUT:\nout\n\nSTDERR:\nerr"
    );
    assert_eq!(
        validate_extraction("/out/x", false, false).expect_err("missing"),
        "Zielordner existiert nach Entpackung nicht"
    );
    assert_eq!(
        validate_extraction("/out/x", true, false).expect_err("empty"),
        "Entpackung scheint leer zu sein: /out/x"
    );
    assert!(validate_extraction("/out/x", true, true).is_ok());
}

#[test]
fn cleanup_stops_at_the_first_unsafe_file() {
    let plan = ExtractPlan {
        release_root: "/dl/r".to_string(),
        archive: "/dl/r/a.rar".to_string(),
        output_dir: "/out/r".to_string(),
        cleanup_files: vec!["/dl/r/a.rar".to_string(), "/etc/passwd".to_string()],
    };
    assert!(matches!(
        cleanup_decision(&plan, true, false, &vec![true, false]),
        CleanupDecision::Blocked(1)
    ));
    assert!(matches!(
        cleanup_decision(&plan, true, true, &vec![true, true]),
        CleanupDecision::DryRun
    ));
    assert!(matches!(
        cleanup_decision(&plan, true, false, &vec![true, true]),
        CleanupDecision::Delete
    ));
    assert!(matches!(
        cleanup_decision(&plan, false, false, &vec![true, false]),
        CleanupDecision::Disabled
    ));
}

#[test]
fn archives_go_to_the_matching_tool() {
    assert!(is_tar_archive_path("/d/Release.TAR.GZ"));
    assert!(!is_tar_archive_path("/d/Release.rar"));

    let rar = verify_command("/d/R/Release.part01.rar");
    assert_eq!(rar.tool, ArchiveTool::Unrar);
    assert_eq!(rar.tool.program(), "unrar");
    assert_eq!(rar.args, vec!["t", "-idq", "/d/R/Release.part01.rar"]);

    let tar = extract_command("/d/R/Release.tar.bz2", "/out/Release");
    assert_eq!(tar.tool, ArchiveTool::Tar);
    assert_eq!(tar.args, vec!["-xjf", "/d/R/Release.tar.bz2", "-C", "/out/Release"]);
    assert_eq!(verify_command("/d/R/Release.tgz").args, vec!["-tzf", "/d/R/Release.tgz"]);

    let zip = extract_command("/d/R/Release.zip", "/out/Release");
    assert_eq!(zip.tool, ArchiveTool::SevenZip);
    assert_eq!(zip.args, vec!["x", "/d/R/Release.zip", "-o/out/Release", "-y"]);
    assert_eq!(
        zip.tool.missing_hint(),
        "Konnte 7z nicht starten. Ist p7zip-full installiert?"
    );
    assert_eq!(
        extract_command("/d/R/Release.rar", "/out/R").args,
        vec!["x", "-o+", "-idq", "/d/R/Release.rar", "/out/R"]
    );
}

#[test]
fn steps_run_in_order_and_stop_at_a_failure() {
    assert_eq!(next_step(ProcessStep::Verify, true), Some(ProcessStep::Extract));
    assert_eq!(next_step(ProcessStep::Extract, true), Some(ProcessStep::Validate));
    assert_eq!(next_step(ProcessStep::Validate, true), Some(ProcessStep::Cleanup));
    assert_eq!(next_step(ProcessStep::Cleanup, true), Some(ProcessStep::Done));
    assert_eq!(next_step(ProcessStep::Verify, false), None);
    assert_eq!(next_step(ProcessStep::Validate, false), None);
}
