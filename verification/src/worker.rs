//! The decisions of the watch loop: which release a changed file belongs
//! to, when a release is ready, and how long to wait after a failure.
use crate::archive::{is_archive_name, root_archive_target, root_target};
use crate::history::History;
use crate::paths::{
    components, parent, part_view, path_components, path_file_name, path_parent,
    paths_equal, same_path, PathPart,
};
use crate::queue::{queue_push, JobQueue};
use vstd::prelude::*;

verus! {

/// A release that was seen changing, with the time (in seconds of a
/// monotonic clock) at which it was last seen.
pub struct ReleaseCandidate {
    pub path: String,
    pub last_seen: u64,
}

/// The stages of a release.
#[derive(Clone, Copy, PartialEq, Eq, Structural, Debug)]
pub enum ReleaseState {
    Active,
    Ready,
    Extracting,
    Finished,
    Failed,
}

pub open spec fn releases_view(rs: Seq<ReleaseCandidate>) -> Seq<(Seq<char>, u64)> {
    rs.map_values(|r: ReleaseCandidate| (r.path@, r.last_seen))
}

/// The first index from `i` on of the release with the same path (compared
/// as paths).
pub open spec fn index_of_release(rs: Seq<(Seq<char>, u64)>, p: Seq<char>, i: int) -> Option<int>
    decreases rs.len() - i,
{
    if i < 0 || i >= rs.len() {
        None
    } else if paths_equal(rs[i].0, p) {
        Some(i)
    } else {
        index_of_release(rs, p, i + 1)
    }
}

/// The releases after one was seen at `now`: a known release (the same
/// path) is seen again and keeps its path, a new one is added at the end.
pub open spec fn releases_seen(rs: Seq<(Seq<char>, u64)>, p: Seq<char>, now: u64) -> Seq<(Seq<char>, u64)> {
    match index_of_release(rs, p, 0) {
        Some(i) => rs.update(i, (rs[i].0, now)),
        None => rs.push((p, now)),
    }
}

/// The releases after the timer of one was restarted at `now`; an unknown
/// release changes nothing.
pub open spec fn releases_timer_reset(rs: Seq<(Seq<char>, u64)>, p: Seq<char>, now: u64) -> Seq<
    (Seq<char>, u64),
> {
    match index_of_release(rs, p, 0) {
        Some(i) => rs.update(i, (rs[i].0, now)),
        None => rs,
    }
}

proof fn lemma_index_of_release(rs: Seq<(Seq<char>, u64)>, p: Seq<char>, i: int)
    requires
        0 <= i,
    ensures
        match index_of_release(rs, p, i) {
            Some(k) => i <= k < rs.len() && paths_equal(rs[k].0, p) && forall|j: int|
                i <= j < k ==> !paths_equal(rs[j].0, p),
            None => forall|j: int| i <= j < rs.len() ==> !paths_equal(rs[j].0, p),
        },
    decreases rs.len() - i,
{
    if i < rs.len() && !paths_equal(rs[i].0, p) {
        lemma_index_of_release(rs, p, i + 1);
    }
}

fn find_release(releases: &Vec<ReleaseCandidate>, path: &str) -> (r: Option<usize>)
    ensures
        match r {
            Some(k) => index_of_release(releases_view(releases@), path@, 0) == Some(k as int),
            None => index_of_release(releases_view(releases@), path@, 0) is None,
        },
{
    let ghost rv = releases_view(releases@);
    let mut i: usize = 0;
    while i < releases.len()
        invariant
            i <= releases@.len(),
            rv == releases_view(releases@),
            index_of_release(rv, path@, 0) == index_of_release(rv, path@, i as int),
        decreases releases.len() - i,
    {
        assert(rv[i as int].0 == releases@[i as int].path@);
        if same_path(releases[i].path.as_str(), path) {
            return Some(i);
        }
        i = i + 1;
    }
    None
}

/// Records that a file of the release changed at `now`.
pub fn update_release(releases: &mut Vec<ReleaseCandidate>, release_dir: String, now: u64)
    ensures
        releases_view(final(releases)@) == releases_seen(releases_view(old(releases)@), release_dir@, now),
{
    let ghost before = releases_view(releases@);
    match find_release(releases, release_dir.as_str()) {
        Some(i) => {
            proof {
                lemma_index_of_release(before, release_dir@, 0);
            }
            let path = crate::text::copy_str(releases[i].path.as_str());
            releases.set(i, ReleaseCandidate { path, last_seen: now });
            assert(releases_view(releases@) =~= before.update(i as int, (before[i as int].0, now)));
        },
        None => {
            let ghost p = release_dir@;
            releases.push(ReleaseCandidate { path: release_dir, last_seen: now });
            assert(releases_view(releases@) =~= before.push((p, now)));
        },
    }
}

/// Restarts the waiting time of a release after a failure.
pub fn reset_release_timer(releases: &mut Vec<ReleaseCandidate>, release_target: &str, now: u64)
    ensures
        releases_view(final(releases)@) == releases_timer_reset(
            releases_view(old(releases)@),
            release_target@,
            now,
        ),
{
    let ghost before = releases_view(releases@);
    match find_release(releases, release_target) {
        Some(i) => {
            proof {
                lemma_index_of_release(before, release_target@, 0);
            }
            let path = crate::text::copy_str(releases[i].path.as_str());
            releases.set(i, ReleaseCandidate { path, last_seen: now });
            assert(releases_view(releases@) =~= before.update(i as int, (before[i as int].0, now)));
        },
        None => {},
    }
}

// ------------------------------------------------------------------
// Paths
// ------------------------------------------------------------------

/// The directory of a changed file.
pub fn detect_release_dir(file: &str) -> (r: Option<String>)
    ensures
        match r {
            Some(d) => path_parent(file@) == Some(d@),
            None => path_parent(file@) is None,
        },
{
    parent(file)
}

/// The names of the worker's own directories, which are never releases.
pub open spec fn is_internal_name(n: Seq<char>) -> bool {
    n == "_extracted"@ || n == "_failed"@ || n == "_processing"@ || n == ".xdcc-worker"@
}

/// A path through one of the worker's own directories.
pub open spec fn ignored_path(p: Seq<char>) -> bool {
    exists|i: int|
        0 <= i < path_components(p).len() && #[trigger] path_components(p)[i].0 == 4
            && is_internal_name(path_components(p)[i].1)
}

fn internal_name(n: &str) -> (r: bool)
    ensures
        r == is_internal_name(n@),
{
    crate::text::str_eq(n, "_extracted") || crate::text::str_eq(n, "_failed")
        || crate::text::str_eq(n, "_processing") || crate::text::str_eq(n, ".xdcc-worker")
}

pub fn is_ignored_path(path: &str) -> (r: bool)
    ensures
        r == ignored_path(path@),
{
    let parts = components(path);
    let ghost cs = path_components(path@);
    let mut i: usize = 0;
    while i < parts.len()
        invariant
            i <= parts@.len(),
            parts@.map_values(|c: PathPart| part_view(c)) == cs,
            cs == path_components(path@),
            forall|k: int| 0 <= k < i ==> !(#[trigger] cs[k].0 == 4 && is_internal_name(cs[k].1)),
        decreases parts.len() - i,
    {
        assert(cs[i as int] == part_view(parts@[i as int]));
        if let PathPart::Normal(name) = &parts[i] {
            if internal_name(name.as_str()) {
                assert(cs[i as int].0 == 4 && is_internal_name(cs[i as int].1));
                return true;
            }
        }
        i = i + 1;
    }
    false
}

/// The release that a changed file belongs to: its directory, or for a
/// file directly in the watch root (when that is allowed) the first
/// volume of its archive set.
pub open spec fn release_target(file: Seq<char>, watch: Seq<char>, allow_root: bool) -> Option<Seq<char>> {
    match path_parent(file) {
        None => None,
        Some(p) => if paths_equal(p, watch) {
            if !allow_root {
                None
            } else {
                root_target(file)
            }
        } else {
            Some(p)
        },
    }
}

pub fn detect_release_target(file: &str, watch_path: &str, allow_root_archives: bool) -> (r: Option<String>)
    ensures
        match r {
            Some(t) => release_target(file@, watch_path@, allow_root_archives) == Some(t@),
            None => release_target(file@, watch_path@, allow_root_archives) is None,
        },
{
    let p = match parent(file) {
        None => {
            return None;
        },
        Some(p) => p,
    };
    if same_path(p.as_str(), watch_path) {
        if !allow_root_archives {
            return None;
        }
        return root_archive_target(file);
    }
    Some(p)
}

/// A changed file, and whether it is a regular file.
pub struct ChangedFile {
    pub path: String,
    pub is_file: bool,
}

pub open spec fn archive_file(p: Seq<char>) -> bool {
    match path_file_name(p) {
        Some(n) => is_archive_name(n),
        None => false,
    }
}

/// The releases after one changed file: a file outside the worker's own
/// directories that belongs to a release marks that release as seen, when
/// the release is known or the file is an archive volume.
pub open spec fn after_changed_file(
    rs: Seq<(Seq<char>, u64)>,
    f: (Seq<char>, bool),
    watch: Seq<char>,
    allow_root: bool,
    now: u64,
) -> Seq<(Seq<char>, u64)> {
    if ignored_path(f.0) || !f.1 {
        rs
    } else {
        match release_target(f.0, watch, allow_root) {
            None => rs,
            Some(t) => if index_of_release(rs, t, 0) is Some || archive_file(f.0) {
                releases_seen(rs, t, now)
            } else {
                rs
            },
        }
    }
}

pub open spec fn after_changed_files(
    rs: Seq<(Seq<char>, u64)>,
    fs: Seq<(Seq<char>, bool)>,
    watch: Seq<char>,
    allow_root: bool,
    now: u64,
) -> Seq<(Seq<char>, u64)>
    decreases fs.len(),
{
    if fs.len() == 0 {
        rs
    } else {
        after_changed_file(
            after_changed_files(rs, fs.drop_last(), watch, allow_root, now),
            fs.last(),
            watch,
            allow_root,
            now,
        )
    }
}

pub open spec fn changed_view(fs: Seq<ChangedFile>) -> Seq<(Seq<char>, bool)> {
    fs.map_values(|f: ChangedFile| (f.path@, f.is_file))
}

/// Handles the files that a create or modify event names.
pub fn handle_event(
    paths: &Vec<ChangedFile>,
    releases: &mut Vec<ReleaseCandidate>,
    watch_path: &str,
    allow_root_archives: bool,
    now: u64,
)
    ensures
        releases_view(final(releases)@) == after_changed_files(
            releases_view(old(releases)@),
            changed_view(paths@),
            watch_path@,
            allow_root_archives,
            now,
        ),
{
    let ghost start = releases_view(releases@);
    let ghost fv = changed_view(paths@);
    let mut i: usize = 0;
    while i < paths.len()
        invariant
            i <= paths@.len(),
            fv == changed_view(paths@),
            releases_view(releases@) == after_changed_files(
                start,
                fv.take(i as int),
                watch_path@,
                allow_root_archives,
                now,
            ),
        decreases paths.len() - i,
    {
        assert(fv.take(i + 1).drop_last() =~= fv.take(i as int));
        assert(fv.take(i + 1).last() == (paths@[i as int].path@, paths@[i as int].is_file));
        let f = &paths[i];
        if !is_ignored_path(f.path.as_str()) && f.is_file {
            match detect_release_target(f.path.as_str(), watch_path, allow_root_archives) {
                None => {},
                Some(t) => {
                    let known = find_release(releases, t.as_str()).is_some();
                    let archive = crate::archive::is_archive_related_file(f.path.as_str());
                    if known || archive {
                        update_release(releases, t, now);
                    }
                },
            }
        }
        i = i + 1;
    }
    assert(fv.take(paths@.len() as int) =~= fv);
}

/// The releases found at startup: each archive file outside the worker's
/// own directories marks its release as seen, unless the release is
/// recorded as processed.
pub open spec fn after_existing_file(
    rs: Seq<(Seq<char>, u64)>,
    f: (Seq<char>, bool),
    watch: Seq<char>,
    allow_root: bool,
    done: spec_fn(Seq<char>) -> bool,
    now: u64,
) -> Seq<(Seq<char>, u64)> {
    if ignored_path(f.0) || !f.1 || !archive_file(f.0) {
        rs
    } else {
        match release_target(f.0, watch, allow_root) {
            None => rs,
            Some(t) => if done(t) {
                rs
            } else {
                releases_seen(rs, t, now)
            },
        }
    }
}

pub open spec fn after_existing_files(
    rs: Seq<(Seq<char>, u64)>,
    fs: Seq<(Seq<char>, bool)>,
    watch: Seq<char>,
    allow_root: bool,
    done: spec_fn(Seq<char>) -> bool,
    now: u64,
) -> Seq<(Seq<char>, u64)>
    decreases fs.len(),
{
    if fs.len() == 0 {
        rs
    } else {
        after_existing_file(
            after_existing_files(rs, fs.drop_last(), watch, allow_root, done, now),
            fs.last(),
            watch,
            allow_root,
            done,
            now,
        )
    }
}

/// The releases found by walking the watch directory at startup;
/// `existing_markers` are the paths of the files in the history directory.
pub fn scan_existing_releases(
    files: &Vec<ChangedFile>,
    releases: &mut Vec<ReleaseCandidate>,
    history: &History,
    existing_markers: &Vec<String>,
    watch_path: &str,
    allow_root_archives: bool,
    now: u64,
)
    ensures
        releases_view(final(releases)@) == after_existing_files(
            releases_view(old(releases)@),
            changed_view(files@),
            watch_path@,
            allow_root_archives,
            |t: Seq<char>| crate::history::recorded_done(history.directory(), t, existing_markers@),
            now,
        ),
{
    let ghost start = releases_view(releases@);
    let ghost fv = changed_view(files@);
    let ghost done = |t: Seq<char>| crate::history::recorded_done(history.directory(), t, existing_markers@);
    let mut i: usize = 0;
    while i < files.len()
        invariant
            i <= files@.len(),
            fv == changed_view(files@),
            done == |t: Seq<char>| crate::history::recorded_done(history.directory(), t, existing_markers@),
            releases_view(releases@) == after_existing_files(
                start,
                fv.take(i as int),
                watch_path@,
                allow_root_archives,
                done,
                now,
            ),
        decreases files.len() - i,
    {
        assert(fv.take(i + 1).drop_last() =~= fv.take(i as int));
        assert(fv.take(i + 1).last() == (files@[i as int].path@, files@[i as int].is_file));
        let f = &files[i];
        if !is_ignored_path(f.path.as_str()) && f.is_file && crate::archive::is_archive_related_file(
            f.path.as_str(),
        ) {
            match detect_release_target(f.path.as_str(), watch_path, allow_root_archives) {
                None => {},
                Some(t) => {
                    if !history.is_done(t.as_str(), existing_markers) {
                        update_release(releases, t, now);
                    }
                },
            }
        }
        i = i + 1;
    }
    assert(fv.take(files@.len() as int) =~= fv);
}

// ------------------------------------------------------------------
// Readiness
// ------------------------------------------------------------------

/// `2^e`, saturated at `u64::MAX`.
pub open spec fn pow2_sat(e: nat) -> u64
    decreases e,
{
    if e == 0 {
        1
    } else {
        let p = pow2_sat((e - 1) as nat);
        if p * 2 > u64::MAX {
            u64::MAX
        } else {
            (p * 2) as u64
        }
    }
}

/// The wait after `attempts` failed attempts: the base delay doubled for
/// each attempt after the first (at most ten times), capped at the maximum;
/// no wait before the first failure.
pub open spec fn retry_delay(attempts: u64, base_delay: u64, max_delay: u64) -> u64 {
    if attempts == 0 {
        0
    } else {
        let e = if attempts - 1 < 10 {
            (attempts - 1) as nat
        } else {
            10nat
        };
        let d = if base_delay * pow2_sat(e) > u64::MAX {
            u64::MAX
        } else {
            (base_delay * pow2_sat(e)) as u64
        };
        if d < max_delay {
            d
        } else {
            max_delay
        }
    }
}

fn saturating_product(a: u64, b: u64) -> (r: u64)
    ensures
        r == if a * b > u64::MAX {
            u64::MAX
        } else {
            (a * b) as u64
        },
{
    match a.checked_mul(b) {
        Some(x) => x,
        None => u64::MAX,
    }
}

pub fn retry_delay_seconds(attempts: u64, base_delay: u64, max_delay: u64) -> (r: u64)
    ensures
        r == retry_delay(attempts, base_delay, max_delay),
{
    if attempts == 0 {
        return 0;
    }
    let e: u64 = if attempts - 1 < 10 {
        attempts - 1
    } else {
        10
    };
    let mut multiplier: u64 = 1;
    let mut i: u64 = 0;
    while i < e
        invariant
            i <= e <= 10,
            multiplier == pow2_sat(i as nat),
        decreases e - i,
    {
        multiplier = saturating_product(multiplier, 2);
        i = i + 1;
    }
    let delay = saturating_product(base_delay, multiplier);
    if delay < max_delay {
        delay
    } else {
        max_delay
    }
}

/// What is known of a release when its readiness is checked: whether it is
/// recorded as processed, its failed attempts, and whether its first
/// archive volume is there (`None` when that could not be checked).
pub struct ReleaseFacts {
    pub done: bool,
    pub attempts: u64,
    pub has_start: Option<bool>,
}

/// One release checked: a known release is skipped; a processed one
/// becomes known; one that waited long enough and has its first volume is
/// queued and becomes known.
pub open spec fn ready_step(
    state: (Seq<Seq<char>>, Seq<Seq<char>>),
    r: (Seq<char>, u64),
    f: ReleaseFacts,
    now: u64,
    stable_after: u64,
    base_delay: u64,
    max_delay: u64,
) -> (Seq<Seq<char>>, Seq<Seq<char>>) {
    let (known, queue) = state;
    let p = r.0;
    let age = if now >= r.1 {
        (now - r.1) as u64
    } else {
        0u64
    };
    let delay = retry_delay(f.attempts, base_delay, max_delay);
    let wait = if stable_after >= delay {
        stable_after
    } else {
        delay
    };
    if known_path(known, p) {
        state
    } else if f.done {
        (known.push(p), queue)
    } else if age < wait {
        state
    } else if f.has_start != Some(true) {
        state
    } else {
        (known.push(p), queue_push(queue, p).0)
    }
}

pub open spec fn ready_all(
    state: (Seq<Seq<char>>, Seq<Seq<char>>),
    rs: Seq<(Seq<char>, u64)>,
    fs: Seq<ReleaseFacts>,
    now: u64,
    stable_after: u64,
    base_delay: u64,
    max_delay: u64,
) -> (Seq<Seq<char>>, Seq<Seq<char>>)
    decreases rs.len(),
{
    if rs.len() == 0 {
        state
    } else {
        ready_step(
            ready_all(state, rs.drop_last(), fs, now, stable_after, base_delay, max_delay),
            rs.last(),
            fs[rs.len() - 1],
            now,
            stable_after,
            base_delay,
            max_delay,
        )
    }
}

/// Some path of the list is the same path as `p`.
pub open spec fn known_path(known: Seq<Seq<char>>, p: Seq<char>) -> bool {
    exists|i: int| 0 <= i < known.len() && #[trigger] paths_equal(known[i], p)
}

/// Whether some path of the list is the same path as `item`.
pub fn contains_path(list: &Vec<String>, item: &str) -> (r: bool)
    ensures
        r == known_path(list@.map_values(|s: String| s@), item@),
{
    let ghost lv = list@.map_values(|s: String| s@);
    let mut i: usize = 0;
    while i < list.len()
        invariant
            i <= list@.len(),
            lv == list@.map_values(|s: String| s@),
            forall|k: int| 0 <= k < i ==> !#[trigger] paths_equal(lv[k], item@),
        decreases list.len() - i,
    {
        assert(lv[i as int] == list@[i as int]@);
        if same_path(list[i].as_str(), item) {
            assert(paths_equal(lv[i as int], item@));
            return true;
        }
        i = i + 1;
    }
    false
}

/// The list without the paths that are the same path as `p`, in order.
pub open spec fn without_path(s: Seq<Seq<char>>, p: Seq<char>) -> Seq<Seq<char>>
    decreases s.len(),
{
    if s.len() == 0 {
        s
    } else {
        let rest = without_path(s.drop_last(), p);
        if paths_equal(s.last(), p) {
            rest
        } else {
            rest.push(s.last())
        }
    }
}

/// Forgets a release that was queued, so that it is checked again (after
/// its processing failed).
pub fn forget_known(known: &mut Vec<String>, path: &str)
    ensures
        final(known)@.map_values(|s: String| s@) == without_path(
            old(known)@.map_values(|s: String| s@),
            path@,
        ),
{
    let ghost before = known@.map_values(|s: String| s@);
    let mut kept: Vec<String> = Vec::new();
    let mut i: usize = 0;
    assert(before.take(0) =~= Seq::<Seq<char>>::empty());
    assert(kept@.map_values(|s: String| s@) =~= Seq::<Seq<char>>::empty());
    while i < known.len()
        invariant
            i <= known@.len(),
            before == known@.map_values(|s: String| s@),
            kept@.map_values(|s: String| s@) == without_path(before.take(i as int), path@),
        decreases known.len() - i,
    {
        let ghost old_kept = kept@.map_values(|s: String| s@);
        assert(before.take(i + 1).drop_last() =~= before.take(i as int));
        assert(before.take(i + 1).last() == known@[i as int]@);
        if !same_path(known[i].as_str(), path) {
            kept.push(known[i].clone());
            assert(kept@.map_values(|s: String| s@) =~= old_kept.push(known@[i as int]@));
        }
        i = i + 1;
    }
    assert(before.take(before.len() as int) =~= before);
    *known = kept;
}

/// Whether the readiness check of a release gets as far as looking for its
/// first archive volume: it is not known, not processed, and has waited
/// both the stable time and the retry delay of its failed attempts.
pub open spec fn start_check_due(
    known: Seq<Seq<char>>,
    r: (Seq<char>, u64),
    done: bool,
    attempts: u64,
    now: u64,
    stable_after: u64,
    base_delay: u64,
    max_delay: u64,
) -> bool {
    let delay = retry_delay(attempts, base_delay, max_delay);
    let wait = if stable_after >= delay {
        stable_after
    } else {
        delay
    };
    !known_path(known, r.0) && !done && waited(now, r.1) >= wait
}

/// Whether the first archive volume of a release needs to be looked for
/// (see `start_check_due`); only then does its answer matter to
/// `check_ready_releases`.
pub fn needs_start_check(
    known: &Vec<String>,
    release: &ReleaseCandidate,
    done: bool,
    attempts: u64,
    now: u64,
    stable_after: u64,
    base_delay: u64,
    max_delay: u64,
) -> (r: bool)
    ensures
        r == start_check_due(
            known@.map_values(|s: String| s@),
            (release.path@, release.last_seen),
            done,
            attempts,
            now,
            stable_after,
            base_delay,
            max_delay,
        ),
{
    if contains_path(known, release.path.as_str()) || done {
        return false;
    }
    let delay = retry_delay_seconds(attempts, base_delay, max_delay);
    let wait = if stable_after >= delay {
        stable_after
    } else {
        delay
    };
    let age = if now >= release.last_seen {
        now - release.last_seen
    } else {
        0
    };
    age >= wait
}

/// What a finished job comes to.
#[derive(Clone, Copy, PartialEq, Eq, Structural, Debug)]
pub enum JobOutcome {
    Success,
    Failed,
}

/// The notification that ends a job.
#[derive(Clone, Copy, PartialEq, Eq, Structural, Debug)]
pub enum JobNotice {
    Nothing,
    Success,
    Failure(u64),
}

/// The end of a job: a processed release whose success marker was written
/// is a success and is announced; when the success marker cannot be
/// written the job counts as failed (the release is checked again) and
/// nothing is sent; a failed processing is a failure, announced with the
/// attempts read back from its failure marker (0 when they cannot be read)
/// when that marker was written, and not announced otherwise.
pub open spec fn job_end_of(processed: bool, marker_written: bool, attempts: Option<u64>) -> (JobOutcome, JobNotice) {
    if processed {
        if marker_written {
            (JobOutcome::Success, JobNotice::Success)
        } else {
            (JobOutcome::Failed, JobNotice::Nothing)
        }
    } else if marker_written {
        (JobOutcome::Failed, JobNotice::Failure(match attempts {
            Some(n) => n,
            None => 0,
        }))
    } else {
        (JobOutcome::Failed, JobNotice::Nothing)
    }
}

/// Decides the end of a job from what processing it and writing its marker
/// gave (see `job_end_of`).
pub fn job_end(processed: bool, marker_written: bool, attempts: Option<u64>) -> (r: (JobOutcome, JobNotice))
    ensures
        r == job_end_of(processed, marker_written, attempts),
{
    if processed {
        if marker_written {
            (JobOutcome::Success, JobNotice::Success)
        } else {
            (JobOutcome::Failed, JobNotice::Nothing)
        }
    } else if marker_written {
        let n = match attempts {
            Some(n) => n,
            None => 0,
        };
        (JobOutcome::Failed, JobNotice::Failure(n))
    } else {
        (JobOutcome::Failed, JobNotice::Nothing)
    }
}

/// Checks each release for readiness, in order, and queues the ready ones;
/// `facts[i]` belongs to `releases[i]`, and `known_ready` holds the
/// releases that were already queued or processed.
pub fn check_ready_releases(
    releases: &Vec<ReleaseCandidate>,
    facts: &Vec<ReleaseFacts>,
    known_ready: &mut Vec<String>,
    queue: &mut JobQueue,
    now: u64,
    stable_after_seconds: u64,
    base_delay: u64,
    max_delay: u64,
)
    requires
        facts@.len() == releases@.len(),
    ensures
        (final(known_ready)@.map_values(|s: String| s@), final(queue)@) == ready_all(
            (old(known_ready)@.map_values(|s: String| s@), old(queue)@),
            releases_view(releases@),
            facts@,
            now,
            stable_after_seconds,
            base_delay,
            max_delay,
        ),
{
    let ghost rv = releases_view(releases@);
    let ghost start = (known_ready@.map_values(|s: String| s@), queue@);
    let mut i: usize = 0;
    while i < releases.len()
        invariant
            i <= releases@.len(),
            facts@.len() == releases@.len(),
            rv == releases_view(releases@),
            (known_ready@.map_values(|s: String| s@), queue@) == ready_all(
                start,
                rv.take(i as int),
                facts@,
                now,
                stable_after_seconds,
                base_delay,
                max_delay,
            ),
        decreases releases.len() - i,
    {
        assert(rv.take(i + 1).drop_last() =~= rv.take(i as int));
        assert(rv.take(i + 1).last() == rv[i as int]);
        let r = &releases[i];
        let f = &facts[i];
        let ghost kv = known_ready@.map_values(|s: String| s@);
        if contains_path(known_ready, r.path.as_str()) {
        } else if f.done {
            known_ready.push(r.path.clone());
            assert(known_ready@.map_values(|s: String| s@) =~= kv.push(r.path@));
        } else {
            let age = if now >= r.last_seen {
                now - r.last_seen
            } else {
                0
            };
            let delay = retry_delay_seconds(f.attempts, base_delay, max_delay);
            let wait = if stable_after_seconds >= delay {
                stable_after_seconds
            } else {
                delay
            };
            if age >= wait {
                match f.has_start {
                    Some(true) => {
                        queue.push(r.path.clone());
                        known_ready.push(r.path.clone());
                        assert(known_ready@.map_values(|s: String| s@) =~= kv.push(r.path@));
                    },
                    _ => {},
                }
            }
        }
        i = i + 1;
    }
    assert(rv.take(releases@.len() as int) =~= rv);
}

// ------------------------------------------------------------------
// Laws
// ------------------------------------------------------------------

proof fn lemma_pow2_sat_monotone(a: nat, b: nat)
    requires
        a <= b,
    ensures
        pow2_sat(a) <= pow2_sat(b),
        pow2_sat(a) >= 1,
    decreases b,
{
    if b > 0 {
        if a < b {
            lemma_pow2_sat_monotone(a, (b - 1) as nat);
        }
        lemma_pow2_sat_monotone(0, (b - 1) as nat);
    }
}

/// After a failure the wait never exceeds the maximum delay.
pub proof fn law_retry_delay_capped(attempts: u64, base_delay: u64, max_delay: u64)
    ensures
        retry_delay(attempts, base_delay, max_delay) <= max_delay,
{
}

/// More failed attempts never mean a shorter wait.
pub proof fn law_retry_delay_monotone(a: u64, b: u64, base_delay: u64, max_delay: u64)
    requires
        a <= b,
    ensures
        retry_delay(a, base_delay, max_delay) <= retry_delay(b, base_delay, max_delay),
{
    if a > 0 {
        let ea: nat = if a - 1 < 10 {
            (a - 1) as nat
        } else {
            10nat
        };
        let eb: nat = if b - 1 < 10 {
            (b - 1) as nat
        } else {
            10nat
        };
        lemma_pow2_sat_monotone(ea, eb);
        assert(base_delay * pow2_sat(ea) <= base_delay * pow2_sat(eb)) by (nonlinear_arith)
            requires
                pow2_sat(ea) <= pow2_sat(eb),
        ;
    }
}

/// The seconds a release has waited since it was last seen.
pub open spec fn waited(now: u64, last_seen: u64) -> int {
    if now >= last_seen {
        now - last_seen
    } else {
        0
    }
}

/// A readiness check queues a release only when it is not known, not
/// processed, has waited both the stable time and the retry delay of its
/// failed attempts, and has its first archive volume; it then becomes
/// known. A processed release is never queued.
pub proof fn law_queued_only_when_ready(
    state: (Seq<Seq<char>>, Seq<Seq<char>>),
    r: (Seq<char>, u64),
    f: ReleaseFacts,
    now: u64,
    stable_after: u64,
    base_delay: u64,
    max_delay: u64,
)
    ensures
        ({
            let next = ready_step(state, r, f, now, stable_after, base_delay, max_delay);
            &&& next.1 == state.1 || next.1 == state.1.push(r.0)
            &&& next.1 != state.1 ==> {
                &&& !known_path(state.0, r.0)
                &&& !f.done
                &&& f.has_start == Some(true)
                &&& waited(now, r.1) >= stable_after
                &&& waited(now, r.1) >= retry_delay(f.attempts, base_delay, max_delay)
                &&& known_path(next.0, r.0)
            }
            &&& f.done ==> next.1 == state.1
        }),
{
    let next = ready_step(state, r, f, now, stable_after, base_delay, max_delay);
    if next.1 != state.1 {
        assert(next.0 == state.0.push(r.0));
        assert(paths_equal(next.0[state.0.len() as int], r.0));
    }
}

/// Once a release is known, checking it again changes nothing: each
/// release is queued at most once until its timer is reset.
pub proof fn law_known_release_unchanged(
    state: (Seq<Seq<char>>, Seq<Seq<char>>),
    r: (Seq<char>, u64),
    f: ReleaseFacts,
    now: u64,
    stable_after: u64,
    base_delay: u64,
    max_delay: u64,
)
    requires
        known_path(state.0, r.0),
    ensures
        ready_step(state, r, f, now, stable_after, base_delay, max_delay) == state,
{
}

/// No two tracked releases have the same path (compared as paths).
pub open spec fn distinct_releases(rs: Seq<(Seq<char>, u64)>) -> bool {
    forall|i: int, j: int| 0 <= i < j < rs.len() ==> !#[trigger] paths_equal(rs[i].0, rs[j].0)
}

/// Seeing a release again never tracks it twice; afterwards it is tracked
/// as seen at `now`.
pub proof fn law_releases_stay_distinct(rs: Seq<(Seq<char>, u64)>, p: Seq<char>, now: u64)
    requires
        distinct_releases(rs),
    ensures
        distinct_releases(releases_seen(rs, p, now)),
        distinct_releases(releases_timer_reset(rs, p, now)),
        exists|k: int|
            0 <= k < releases_seen(rs, p, now).len() && #[trigger] paths_equal(
                releases_seen(rs, p, now)[k].0,
                p,
            ) && releases_seen(rs, p, now)[k].1 == now,
{
    lemma_index_of_release(rs, p, 0);
    match index_of_release(rs, p, 0) {
        Some(k) => {
            let r = rs.update(k, (rs[k].0, now));
            assert forall|i: int, j: int| 0 <= i < j < r.len() implies !#[trigger] paths_equal(
                r[i].0,
                r[j].0,
            ) by {
                assert(r[i].0 == rs[i].0 && r[j].0 == rs[j].0);
            }
            assert(paths_equal(r[k].0, p) && r[k].1 == now);
        },
        None => {
            let r = rs.push((p, now));
            assert forall|i: int, j: int| 0 <= i < j < r.len() implies !#[trigger] paths_equal(
                r[i].0,
                r[j].0,
            ) by {
                assert(r[i] == rs[i]);
                if j < rs.len() {
                    assert(r[j] == rs[j]);
                }
            }
            assert(paths_equal(r[rs.len() as int].0, p));
        },
    }
}

/// Whether the first archive volume is there matters to a readiness check
/// only when the check is due (`start_check_due`): otherwise two answers
/// give the same step.
pub proof fn law_start_check_only_when_due(
    state: (Seq<Seq<char>>, Seq<Seq<char>>),
    r: (Seq<char>, u64),
    f: ReleaseFacts,
    g: ReleaseFacts,
    now: u64,
    stable_after: u64,
    base_delay: u64,
    max_delay: u64,
)
    requires
        f.done == g.done,
        f.attempts == g.attempts,
        !start_check_due(state.0, r, f.done, f.attempts, now, stable_after, base_delay, max_delay),
    ensures
        ready_step(state, r, f, now, stable_after, base_delay, max_delay) == ready_step(
            state,
            r,
            g,
            now,
            stable_after,
            base_delay,
            max_delay,
        ),
{
}

/// A change to any regular file of a release that is already tracked
/// restarts that release's stable timer, whether or not the file is an
/// archive volume: afterwards the same releases are tracked, under the same
/// paths, and one that is the same path as the release is seen at `now`.
pub proof fn law_change_restarts_known_release(
    rs: Seq<(Seq<char>, u64)>,
    file: Seq<char>,
    watch: Seq<char>,
    allow_root: bool,
    now: u64,
    t: Seq<char>,
)
    requires
        !ignored_path(file),
        release_target(file, watch, allow_root) == Some(t),
        exists|i: int| 0 <= i < rs.len() && #[trigger] paths_equal(rs[i].0, t),
    ensures
        ({
            let after = after_changed_files(rs, seq![(file, true)], watch, allow_root, now);
            &&& after.len() == rs.len()
            &&& forall|i: int| 0 <= i < rs.len() ==> #[trigger] after[i].0 == rs[i].0
            &&& exists|k: int| 0 <= k < after.len() && #[trigger] paths_equal(after[k].0, t) && after[k].1
                == now
        }),
{
    let fs = seq![(file, true)];
    assert(fs.drop_last() =~= Seq::<(Seq<char>, bool)>::empty());
    assert(fs.last() == (file, true));
    assert(after_changed_files(rs, fs.drop_last(), watch, allow_root, now) == rs);
    lemma_index_of_release(rs, t, 0);
    let k = index_of_release(rs, t, 0)->0;
    let after = rs.update(k, (rs[k].0, now));
    assert(after_changed_files(rs, fs, watch, allow_root, now) == after);
    assert(paths_equal(after[k].0, t) && after[k].1 == now);
}

} // verus!
