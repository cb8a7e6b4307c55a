//! The command line: which command was asked for, the configuration path,
//! the release named by `--process` and `--clear-failed`, and the checks
//! made before a manual run.
use crate::text::{chars_of, dec, extend_str, push_dec, str_eq, string_of};
use vstd::prelude::*;

verus! {

pub open spec fn arg_views(args: Seq<String>) -> Seq<Seq<char>> {
    args.map_values(|s: String| s@)
}

/// Some argument (the program name included) is one of the names.
pub open spec fn any_arg(args: Seq<Seq<char>>, names: Seq<Seq<char>>) -> bool {
    exists|i: int| 0 <= i < args.len() && names.contains(#[trigger] args[i])
}

fn any_arg_of(args: &Vec<String>, a: &str, b: &str) -> (r: bool)
    ensures
        r == any_arg(arg_views(args@), seq![a@, b@]),
{
    let ghost av = arg_views(args@);
    let mut i: usize = 0;
    while i < args.len()
        invariant
            i <= args@.len(),
            av == arg_views(args@),
            forall|k: int| 0 <= k < i ==> !seq![a@, b@].contains(#[trigger] av[k]),
        decreases args.len() - i,
    {
        assert(av[i as int] == args@[i as int]@);
        if str_eq(args[i].as_str(), a) || str_eq(args[i].as_str(), b) {
            assert(seq![a@, b@][0] == a@ && seq![a@, b@][1] == b@);
            assert(seq![a@, b@].contains(av[i as int]));
            return true;
        }
        assert(!seq![a@, b@].contains(av[i as int])) by {
            if seq![a@, b@].contains(av[i as int]) {
                let k = choose|k: int| 0 <= k < 2 && seq![a@, b@][k] == av[i as int];
            }
        }
        i = i + 1;
    }
    false
}

/// `--version`, `-V` or `version`.
pub fn is_version_command(args: &Vec<String>) -> (r: bool)
    ensures
        r == any_arg(arg_views(args@), seq!["--version"@, "-V"@, "version"@]),
{
    let ghost av = arg_views(args@);
    let a = any_arg_of(args, "--version", "-V");
    let b = any_arg_of(args, "version", "version");
    proof {
        let three = seq!["--version"@, "-V"@, "version"@];
        if a {
            let i = choose|i: int| 0 <= i < av.len() && seq!["--version"@, "-V"@].contains(#[trigger] av[i]);
            let k = choose|k: int| 0 <= k < 2 && seq!["--version"@, "-V"@][k] == av[i];
            assert(three[k] == av[i]);
        }
        if b {
            let i = choose|i: int| 0 <= i < av.len() && seq!["version"@, "version"@].contains(#[trigger] av[i]);
            let k = choose|k: int| 0 <= k < 2 && seq!["version"@, "version"@][k] == av[i];
            assert(three[2] == av[i]);
        }
        if any_arg(av, three) {
            let i = choose|i: int| 0 <= i < av.len() && three.contains(#[trigger] av[i]);
            let k = choose|k: int| 0 <= k < 3 && three[k] == av[i];
            if k < 2 {
                assert(seq!["--version"@, "-V"@][k] == av[i]);
            } else {
                assert(seq!["version"@, "version"@][0] == av[i]);
            }
        }
    }
    a || b
}

/// `--status` or `status`.
pub fn is_status_command(args: &Vec<String>) -> (r: bool)
    ensures
        r == any_arg(arg_views(args@), seq!["--status"@, "status"@]),
{
    any_arg_of(args, "--status", "status")
}

/// `--scan` or `scan`.
pub fn is_scan_command(args: &Vec<String>) -> (r: bool)
    ensures
        r == any_arg(arg_views(args@), seq!["--scan"@, "scan"@]),
{
    any_arg_of(args, "--scan", "scan")
}

/// `--clear-failed` or `clear-failed`.
pub fn is_clear_failed_command(args: &Vec<String>) -> (r: bool)
    ensures
        r == any_arg(arg_views(args@), seq!["--clear-failed"@, "clear-failed"@]),
{
    any_arg_of(args, "--clear-failed", "clear-failed")
}

/// `--process` or `process`.
pub fn is_process_command(args: &Vec<String>) -> (r: bool)
    ensures
        r == any_arg(arg_views(args@), seq!["--process"@, "process"@]),
{
    any_arg_of(args, "--process", "process")
}

/// `--dry-run-report` or `dry-run-report`.
pub fn is_dry_run_report_command(args: &Vec<String>) -> (r: bool)
    ensures
        r == any_arg(arg_views(args@), seq!["--dry-run-report"@, "dry-run-report"@]),
{
    any_arg_of(args, "--dry-run-report", "dry-run-report")
}

/// `--dry-run-check` or `dry-run-check`.
pub fn is_dry_run_check_command(args: &Vec<String>) -> (r: bool)
    ensures
        r == any_arg(arg_views(args@), seq!["--dry-run-check"@, "dry-run-check"@]),
{
    any_arg_of(args, "--dry-run-check", "dry-run-check")
}

// ------------------------------------------------------------------
// The configuration path
// ------------------------------------------------------------------

pub open spec fn is_config_flag(a: Seq<char>) -> bool {
    a == "--config"@ || a == "-c"@
}

/// Whether the arguments from `i` on, read in pairs where a flag takes
/// the next argument, hold `--config` or `-c` followed by a value.
pub open spec fn config_flag_used(args: Seq<Seq<char>>, i: int) -> bool
    decreases args.len() - i,
{
    if i < 0 || i >= args.len() {
        false
    } else if is_config_flag(args[i]) && i + 1 < args.len() {
        true
    } else {
        config_flag_used(args, i + 1)
    }
}

/// The first position of `--config` or `-c` from `i` on.
pub open spec fn first_config_flag(args: Seq<Seq<char>>, i: int) -> Option<int>
    decreases args.len() - i,
{
    if i < 0 || i >= args.len() {
        None
    } else if is_config_flag(args[i]) {
        Some(i)
    } else {
        first_config_flag(args, i + 1)
    }
}

/// The configuration path: `XDCC_CONFIG` or `config.toml`, unless a
/// `--config` or `-c` with a value is given; then the argument after the
/// first such flag among all arguments.
pub open spec fn config_path_of(args: Seq<Seq<char>>, env_config: Option<Seq<char>>) -> Seq<char> {
    let fallback = match env_config {
        Some(c) => c,
        None => "config.toml"@,
    };
    if config_flag_used(args, 1) {
        match first_config_flag(args, 0) {
            Some(j) => if j + 1 < args.len() {
                args[j + 1]
            } else {
                fallback
            },
            None => fallback,
        }
    } else {
        fallback
    }
}

fn config_flag(a: &str) -> (r: bool)
    ensures
        r == is_config_flag(a@),
{
    str_eq(a, "--config") || str_eq(a, "-c")
}

/// `args` are all arguments, the program name first; `env_config` is the
/// value of `XDCC_CONFIG`, when set.
pub fn config_path_from_args(args: &Vec<String>, env_config: Option<&str>) -> (r: String)
    ensures
        r@ == config_path_of(
            arg_views(args@),
            match env_config {
                Some(c) => Some(c@),
                None => None,
            },
        ),
{
    let ghost av = arg_views(args@);
    let ghost ev = if env_config is Some {
        Some(env_config->0@)
    } else {
        None
    };
    let ghost dflt = if env_config is Some {
        env_config->0@
    } else {
        "config.toml"@
    };
    let fallback = match env_config {
        Some(c) => crate::text::copy_str(c),
        None => crate::text::copy_str("config.toml"),
    };
    assert(fallback@ == dflt);
    let mut used = false;
    let mut i: usize = 1;
    while i < args.len()
        invariant
            1 <= i,
            av == arg_views(args@),
            config_flag_used(av, 1) == (used || config_flag_used(av, i as int)),
        decreases args.len() - i,
    {
        assert(av[i as int] == args@[i as int]@);
        if config_flag(args[i].as_str()) && i + 1 < args.len() {
            used = true;
            i = i + 2;
            assert(config_flag_used(av, i - 2));
        } else {
            i = i + 1;
        }
    }
    if !used {
        return fallback;
    }
    let mut j: usize = 0;
    while j < args.len()
        invariant
            av == arg_views(args@),
            fallback@ == dflt,
            ev == match env_config {
                Some(c) => Some(c@),
                None => None,
            },
            ev is Some ==> dflt == ev->0,
            ev is None ==> dflt == "config.toml"@,
            config_flag_used(av, 1),
            first_config_flag(av, 0) == first_config_flag(av, j as int),
        decreases args.len() - j,
    {
        assert(av[j as int] == args@[j as int]@);
        if config_flag(args[j].as_str()) {
            if j + 1 < args.len() {
                assert(av[j + 1] == args@[j + 1]@);
                return args[j + 1].clone();
            }
            assert(first_config_flag(av, 0) == Some(j as int));
            return fallback;
        }
        j = j + 1;
    }
    fallback
}

// ------------------------------------------------------------------
// Release arguments
// ------------------------------------------------------------------

/// The argument after the first of the two names, the program name not
/// counted; `None` when there is none.
pub open spec fn target_after(args: Seq<Seq<char>>, a: Seq<char>, b: Seq<char>, i: int) -> Option<Seq<char>>
    decreases args.len() - i,
{
    if i < 1 || i >= args.len() {
        None
    } else if args[i] == a || args[i] == b {
        if i + 1 < args.len() {
            Some(args[i + 1])
        } else {
            None
        }
    } else {
        target_after(args, a, b, i + 1)
    }
}

fn target_from_args(args: &Vec<String>, a: &str, b: &str) -> (r: Option<String>)
    ensures
        match r {
            Some(t) => target_after(arg_views(args@), a@, b@, 1) == Some(t@),
            None => target_after(arg_views(args@), a@, b@, 1) is None,
        },
{
    let ghost av = arg_views(args@);
    let mut i: usize = 1;
    while i < args.len()
        invariant
            1 <= i,
            av == arg_views(args@),
            target_after(av, a@, b@, 1) == target_after(av, a@, b@, i as int),
        decreases args.len() - i,
    {
        assert(av[i as int] == args@[i as int]@);
        if str_eq(args[i].as_str(), a) || str_eq(args[i].as_str(), b) {
            if i + 1 < args.len() {
                assert(av[i + 1] == args@[i + 1]@);
                return Some(args[i + 1].clone());
            }
            return None;
        }
        i = i + 1;
    }
    None
}

/// The release named after `--clear-failed`.
pub fn clear_failed_target_from_args(args: &Vec<String>) -> (r: Option<String>)
    ensures
        match r {
            Some(t) => target_after(arg_views(args@), "--clear-failed"@, "clear-failed"@, 1) == Some(t@),
            None => target_after(arg_views(args@), "--clear-failed"@, "clear-failed"@, 1) is None,
        },
{
    target_from_args(args, "--clear-failed", "clear-failed")
}

/// The release named after `--process`.
pub fn process_target_from_args(args: &Vec<String>) -> (r: Option<String>)
    ensures
        match r {
            Some(t) => target_after(arg_views(args@), "--process"@, "process"@, 1) == Some(t@),
            None => target_after(arg_views(args@), "--process"@, "process"@, 1) is None,
        },
{
    target_from_args(args, "--process", "process")
}

/// Why the arguments are refused.
#[derive(Clone, Copy, PartialEq, Eq, Structural, Debug)]
pub enum ArgsError {
    ClearFailedMissingTarget,
    ClearFailedInvalidTarget,
    ProcessMissingTarget,
    ProcessInvalidTarget,
}

impl ArgsError {
    pub fn message(&self) -> (r: &'static str)
        ensures
            r@ == args_error_message(*self),
    {
        match self {
            ArgsError::ClearFailedMissingTarget => "Option --clear-failed benötigt einen Release-Pfad",
            ArgsError::ClearFailedInvalidTarget => "Option --clear-failed benötigt einen gültigen Release-Pfad",
            ArgsError::ProcessMissingTarget => "Option --process benötigt einen Release-Pfad",
            ArgsError::ProcessInvalidTarget => "Option --process benötigt einen gültigen Release-Pfad",
        }
    }
}

pub open spec fn args_error_message(e: ArgsError) -> Seq<char> {
    match e {
        ArgsError::ClearFailedMissingTarget => "Option --clear-failed benötigt einen Release-Pfad"@,
        ArgsError::ClearFailedInvalidTarget => "Option --clear-failed benötigt einen gültigen Release-Pfad"@,
        ArgsError::ProcessMissingTarget => "Option --process benötigt einen Release-Pfad"@,
        ArgsError::ProcessInvalidTarget => "Option --process benötigt einen gültigen Release-Pfad"@,
    }
}

/// A command that takes a release needs one that is not an option.
pub open spec fn target_check(
    args: Seq<Seq<char>>,
    a: Seq<char>,
    b: Seq<char>,
    missing: ArgsError,
    invalid: ArgsError,
) -> Option<ArgsError> {
    if !any_arg(args, seq![a, b]) {
        None
    } else {
        match target_after(args, a, b, 1) {
            None => Some(missing),
            Some(t) => if t.len() > 0 && t[0] == '-' {
                Some(invalid)
            } else {
                None
            },
        }
    }
}

fn check_target(args: &Vec<String>, a: &str, b: &str, missing: ArgsError, invalid: ArgsError) -> (r:
    Result<(), ArgsError>)
    ensures
        match r {
            Ok(()) => target_check(arg_views(args@), a@, b@, missing, invalid) is None,
            Err(e) => target_check(arg_views(args@), a@, b@, missing, invalid) == Some(e),
        },
{
    if !any_arg_of(args, a, b) {
        return Ok(());
    }
    match target_from_args(args, a, b) {
        None => Err(missing),
        Some(t) => {
            let v = chars_of(t.as_str());
            if v.len() > 0 && v[0] == '-' {
                Err(invalid)
            } else {
                Ok(())
            }
        },
    }
}

pub fn validate_clear_failed_args(args: &Vec<String>) -> (r: Result<(), ArgsError>)
    ensures
        match r {
            Ok(()) => target_check(
                arg_views(args@),
                "--clear-failed"@,
                "clear-failed"@,
                ArgsError::ClearFailedMissingTarget,
                ArgsError::ClearFailedInvalidTarget,
            ) is None,
            Err(e) => target_check(
                arg_views(args@),
                "--clear-failed"@,
                "clear-failed"@,
                ArgsError::ClearFailedMissingTarget,
                ArgsError::ClearFailedInvalidTarget,
            ) == Some(e),
        },
{
    check_target(
        args,
        "--clear-failed",
        "clear-failed",
        ArgsError::ClearFailedMissingTarget,
        ArgsError::ClearFailedInvalidTarget,
    )
}

pub fn validate_process_args(args: &Vec<String>) -> (r: Result<(), ArgsError>)
    ensures
        match r {
            Ok(()) => target_check(
                arg_views(args@),
                "--process"@,
                "process"@,
                ArgsError::ProcessMissingTarget,
                ArgsError::ProcessInvalidTarget,
            ) is None,
            Err(e) => target_check(
                arg_views(args@),
                "--process"@,
                "process"@,
                ArgsError::ProcessMissingTarget,
                ArgsError::ProcessInvalidTarget,
            ) == Some(e),
        },
{
    check_target(
        args,
        "--process",
        "process",
        ArgsError::ProcessMissingTarget,
        ArgsError::ProcessInvalidTarget,
    )
}

// ------------------------------------------------------------------
// Manual processing
// ------------------------------------------------------------------

/// What a manual run does with a release, decided before any work.
pub enum ManualStart {
    /// The release is processed.
    Process,
    /// The release was processed before; nothing is changed.
    AlreadyDone,
    /// The release path does not exist.
    Missing,
    /// The release has no first archive volume.
    NoStartArchive,
    /// The release failed before and must be reset first.
    FailedBefore(u64),
}

/// The checks of a manual run, in order: the path exists, it has a first
/// archive volume, it is not yet processed, it has not failed before.
pub open spec fn manual_start_of(exists: bool, has_start: bool, done: bool, failed_attempts: u64) -> ManualStart {
    if !exists {
        ManualStart::Missing
    } else if !has_start {
        ManualStart::NoStartArchive
    } else if done {
        ManualStart::AlreadyDone
    } else if failed_attempts > 0 {
        ManualStart::FailedBefore(failed_attempts)
    } else {
        ManualStart::Process
    }
}

pub fn manual_start(exists: bool, has_start: bool, done: bool, failed_attempts: u64) -> (r: ManualStart)
    ensures
        r == manual_start_of(exists, has_start, done, failed_attempts),
{
    if !exists {
        ManualStart::Missing
    } else if !has_start {
        ManualStart::NoStartArchive
    } else if done {
        ManualStart::AlreadyDone
    } else if failed_attempts > 0 {
        ManualStart::FailedBefore(failed_attempts)
    } else {
        ManualStart::Process
    }
}

/// The refusal of a manual run of a release that failed before.
pub open spec fn failed_before_text(attempts: u64, release: Seq<char>) -> Seq<char> {
    "Release hat bereits einen Failed-Marker mit "@ + dec(attempts as nat)
        + " Fehlversuch(en).\nErst zurücksetzen mit:\nxdcc-extractor --clear-failed "@ + release
}

pub fn failed_before_message(attempts: u64, release: &str) -> (r: String)
    ensures
        r@ == failed_before_text(attempts, release@),
{
    let mut out: Vec<char> = Vec::new();
    extend_str(&mut out, "Release hat bereits einen Failed-Marker mit ");
    push_dec(&mut out, attempts);
    extend_str(&mut out, " Fehlversuch(en).\nErst zurücksetzen mit:\nxdcc-extractor --clear-failed ");
    extend_str(&mut out, release);
    string_of(&out)
}

} // verus!
