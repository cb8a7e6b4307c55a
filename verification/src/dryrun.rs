//! The read-only commands: the scan of the watch directory, the dry-run
//! report and the safety check before `dry_run=false`.
use crate::archive::root_target;
use crate::extract::{path_views, sort_paths, sorted_paths};
use crate::paths::paths_equal;
use crate::text::{dec, extend_str, push_dec, str_eq, string_of};
use vstd::prelude::*;

verus! {

/// The state of a release in the history.
#[derive(Clone, Copy, PartialEq, Eq, Structural, Debug)]
pub enum CandidateState {
    New,
    Done,
    Failed,
}

impl CandidateState {
    pub fn label(self) -> (r: &'static str)
        ensures
            r@ == match self {
                CandidateState::New => "new"@,
                CandidateState::Done => "done"@,
                CandidateState::Failed => "failed"@,
            },
    {
        match self {
            CandidateState::New => "new",
            CandidateState::Done => "done",
            CandidateState::Failed => "failed",
        }
    }
}

/// Processed releases are done; releases with failed attempts have failed;
/// others (also when the attempts could not be read) are new.
pub open spec fn candidate_state(done: bool, attempts: Option<u64>) -> CandidateState {
    if done {
        CandidateState::Done
    } else if attempts matches Some(n) && n > 0 {
        CandidateState::Failed
    } else {
        CandidateState::New
    }
}

pub fn classify_candidate(done: bool, attempts: Option<u64>) -> (r: CandidateState)
    ensures
        r == candidate_state(done, attempts),
{
    if done {
        return CandidateState::Done;
    }
    match attempts {
        Some(n) => if n > 0 {
            CandidateState::Failed
        } else {
            CandidateState::New
        },
        None => CandidateState::New,
    }
}

/// The worker's own directories in the watch directory.
pub open spec fn skipped_name(n: Seq<char>) -> bool {
    n == "_extracted"@ || n == "_failed"@ || n == "_processing"@ || n == ".xdcc-worker"@
}

pub fn should_skip_entry(name: &str) -> (r: bool)
    ensures
        r == skipped_name(name@),
{
    str_eq(name, "_extracted") || str_eq(name, "_failed") || str_eq(name, "_processing") || str_eq(
        name,
        ".xdcc-worker",
    )
}

// ------------------------------------------------------------------
// The scan
// ------------------------------------------------------------------

/// An entry of the watch directory with what the scan needs to know of
/// it: for a directory whether it holds an archive start; for an archive
/// file in the root, whether the first volume of its set exists and starts
/// an archive (see `root_candidate`).
pub struct WatchEntry {
    pub path: String,
    pub name: String,
    pub is_dir: bool,
    pub is_file: bool,
    pub has_start: bool,
    pub root_target_ready: bool,
}

/// For a file in the watch root, when root archives are allowed and it is
/// an archive volume: the first volume of its set, whose existence and
/// archive start the caller checks.
pub fn root_candidate(path: &str, is_file: bool, allow_root_archives: bool) -> (r: Option<String>)
    ensures
        match r {
            Some(t) => is_file && allow_root_archives && crate::extract::archive_file(path@)
                && root_target(path@) == Some(t@),
            None => !(is_file && allow_root_archives && crate::extract::archive_file(path@)) || root_target(
                path@,
            ) is None,
        },
{
    if !(is_file && allow_root_archives && crate::archive::is_archive_related_file(path)) {
        return None;
    }
    crate::archive::root_archive_target(path)
}

/// The candidate that an entry yields, if any.
pub open spec fn entry_candidate(e: WatchEntry, allow_root: bool) -> Option<Seq<char>> {
    if skipped_name(e.name@) {
        None
    } else if e.is_dir {
        if e.has_start {
            Some(e.path@)
        } else {
            None
        }
    } else if e.is_file && allow_root && crate::extract::archive_file(e.path@) {
        match root_target(e.path@) {
            Some(t) => if e.root_target_ready {
                Some(t)
            } else {
                None
            },
            None => None,
        }
    } else {
        None
    }
}

pub open spec fn all_candidates(es: Seq<WatchEntry>, allow_root: bool) -> Seq<Seq<char>>
    decreases es.len(),
{
    if es.len() == 0 {
        Seq::empty()
    } else {
        let prev = all_candidates(es.drop_last(), allow_root);
        match entry_candidate(es.last(), allow_root) {
            Some(c) => prev.push(c),
            None => prev,
        }
    }
}

proof fn lemma_contains_push(s: Seq<Seq<char>>, x: Seq<char>, y: Seq<char>)
    ensures
        s.push(x).contains(y) <==> (s.contains(y) || y == x),
{
    if s.push(x).contains(y) {
        let k = choose|k: int| 0 <= k < s.push(x).len() && s.push(x)[k] == y;
        if k < s.len() {
            assert(s[k] == y);
        }
    }
    if s.contains(y) {
        let k = choose|k: int| 0 <= k < s.len() && s[k] == y;
        assert(s.push(x)[k] == y);
    }
    if y == x {
        assert(s.push(x)[s.len() as int] == y);
    }
}

/// No two of the paths are the same path.
pub open spec fn pairwise_distinct_paths(s: Seq<Seq<char>>) -> bool {
    forall|i: int, j: int|
        0 <= i < s.len() && 0 <= j < s.len() && i != j ==> !#[trigger] paths_equal(s[i], s[j])
}

/// Every path of `cands` is, as a path, one of `s`.
pub open spec fn covers_paths(s: Seq<Seq<char>>, cands: Seq<Seq<char>>) -> bool {
    forall|c: Seq<char>| #[trigger] cands.contains(c) ==> exists|i: int| 0 <= i < s.len() && #[trigger] paths_equal(s[i], c)
}

/// Every path of `s` is one of `cands`.
pub open spec fn within_paths(s: Seq<Seq<char>>, cands: Seq<Seq<char>>) -> bool {
    forall|i: int| 0 <= i < s.len() ==> cands.contains(#[trigger] s[i])
}

/// The releases found in the watch directory, in path order, each path
/// once: of candidates that are the same path, the first one found stays.
pub fn scan_candidates(entries: &Vec<WatchEntry>, allow_root_archives: bool) -> (r: Vec<String>)
    ensures
        sorted_paths(path_views(r@)),
        pairwise_distinct_paths(path_views(r@)),
        within_paths(path_views(r@), all_candidates(entries@, allow_root_archives)),
        covers_paths(path_views(r@), all_candidates(entries@, allow_root_archives)),
{
    let mut unique: Vec<String> = Vec::new();
    let mut i: usize = 0;
    assert(entries@.take(0) =~= Seq::<WatchEntry>::empty());
    assert(path_views(unique@) =~= Seq::<Seq<char>>::empty());
    while i < entries.len()
        invariant
            i <= entries@.len(),
            pairwise_distinct_paths(path_views(unique@)),
            within_paths(path_views(unique@), all_candidates(entries@.take(i as int), allow_root_archives)),
            covers_paths(path_views(unique@), all_candidates(entries@.take(i as int), allow_root_archives)),
        decreases entries.len() - i,
    {
        let ghost before = path_views(unique@);
        let ghost prefix = entries@.take(i as int);
        let ghost pre = all_candidates(prefix, allow_root_archives);
        assert(entries@.take(i + 1).drop_last() =~= prefix);
        assert(entries@.take(i + 1).last() == entries@[i as int]);
        let e = &entries[i];
        let cand: Option<String> = if should_skip_entry(e.name.as_str()) {
            None
        } else if e.is_dir {
            if e.has_start {
                Some(e.path.clone())
            } else {
                None
            }
        } else {
            match root_candidate(e.path.as_str(), e.is_file, allow_root_archives) {
                Some(t) => if e.root_target_ready {
                    Some(t)
                } else {
                    None
                },
                None => None,
            }
        };
        assert(match cand {
            Some(c) => entry_candidate(entries@[i as int], allow_root_archives) == Some(c@),
            None => entry_candidate(entries@[i as int], allow_root_archives) is None,
        });
        match cand {
            Some(c) => {
                let ghost cv = c@;
                let ghost post = pre.push(cv);
                assert(all_candidates(entries@.take(i + 1), allow_root_archives) == post);
                assert forall|y: Seq<char>| post.contains(y) <==> (pre.contains(y) || y == cv) by {
                    lemma_contains_push(pre, cv, y);
                }
                assert(before =~= unique@.map_values(|s: String| s@));
                if !crate::worker::contains_path(&unique, c.as_str()) {
                    unique.push(c);
                    let ghost after = path_views(unique@);
                    assert(after =~= before.push(cv));
                    assert(pairwise_distinct_paths(after)) by {
                        assert forall|a: int, b: int|
                            0 <= a < after.len() && 0 <= b < after.len() && a != b implies !#[trigger] paths_equal(after[a], after[b]) by {
                            if a == before.len() {
                                assert(after[a] == cv);
                                assert(after[b] == before[b]);
                                assert(!paths_equal(before[b], cv));
                            } else if b == before.len() {
                                assert(after[b] == cv);
                                assert(after[a] == before[a]);
                            } else {
                                assert(after[a] == before[a] && after[b] == before[b]);
                            }
                        }
                    }
                    assert(within_paths(after, post)) by {
                        assert forall|k: int| 0 <= k < after.len() implies post.contains(#[trigger] after[k]) by {
                            if k < before.len() {
                                assert(after[k] == before[k]);
                                assert(pre.contains(before[k]));
                            }
                        }
                    }
                    assert(covers_paths(after, post)) by {
                        assert forall|y: Seq<char>| #[trigger] post.contains(y) implies exists|k: int| 0 <= k < after.len() && #[trigger] paths_equal(after[k], y) by {
                            if y == cv {
                                assert(paths_equal(after[before.len() as int], y));
                            } else {
                                assert(pre.contains(y));
                                let k = choose|k: int| 0 <= k < before.len() && #[trigger] paths_equal(before[k], y);
                                assert(after[k] == before[k]);
                                assert(paths_equal(after[k], y));
                            }
                        }
                    }
                } else {
                    assert(within_paths(before, post)) by {
                        assert forall|k: int| 0 <= k < before.len() implies post.contains(#[trigger] before[k]) by {
                            assert(pre.contains(before[k]));
                        }
                    }
                    assert(covers_paths(before, post)) by {
                        assert forall|y: Seq<char>| #[trigger] post.contains(y) implies exists|k: int| 0 <= k < before.len() && #[trigger] paths_equal(before[k], y) by {
                            if y != cv {
                                assert(pre.contains(y));
                            }
                        }
                    }
                }
            },
            None => {
                assert(all_candidates(entries@.take(i + 1), allow_root_archives) == pre);
            },
        }
        i = i + 1;
    }
    assert(entries@.take(entries@.len() as int) =~= entries@);
    let sorted = sort_paths(&unique);
    proof {
        broadcast use vstd::seq_lib::group_to_multiset_ensures;
        let cands = all_candidates(entries@, allow_root_archives);
        let u = path_views(unique@);
        let s = path_views(sorted@);
        assert forall|x: Seq<char>| s.contains(x) <==> u.contains(x) by {
            assert(s.contains(x) <==> s.to_multiset().count(x) > 0);
            assert(u.contains(x) <==> u.to_multiset().count(x) > 0);
        }
        assert(u.no_duplicates()) by {
            assert forall|a: int, b: int| 0 <= a < u.len() && 0 <= b < u.len() && a != b implies u[a] != u[b] by {
                assert(!paths_equal(u[a], u[b]));
            }
        }
        u.lemma_multiset_has_no_duplicates();
        assert forall|x: Seq<char>| s.to_multiset().count(x) <= 1 by {}
        s.lemma_multiset_has_no_duplicates_conv();
        assert(pairwise_distinct_paths(s)) by {
            assert forall|a: int, b: int|
                0 <= a < s.len() && 0 <= b < s.len() && a != b implies !#[trigger] paths_equal(s[a], s[b]) by {
                assert(s.contains(s[a]) && s.contains(s[b]));
                let ka = choose|k: int| 0 <= k < u.len() && u[k] == s[a];
                let kb = choose|k: int| 0 <= k < u.len() && u[k] == s[b];
                assert(!paths_equal(u[ka], u[kb]));
            }
        }
        assert(within_paths(s, cands)) by {
            assert forall|k: int| 0 <= k < s.len() implies cands.contains(#[trigger] s[k]) by {
                assert(s.contains(s[k]));
                let j = choose|j: int| 0 <= j < u.len() && u[j] == s[k];
                assert(cands.contains(u[j]));
            }
        }
        assert(covers_paths(s, cands)) by {
            assert forall|y: Seq<char>| #[trigger] cands.contains(y) implies exists|k: int| 0 <= k < s.len() && #[trigger] paths_equal(s[k], y) by {
                let j = choose|j: int| 0 <= j < u.len() && #[trigger] paths_equal(u[j], y);
                assert(u.contains(u[j]));
                let k = choose|k: int| 0 <= k < s.len() && s[k] == u[j];
                assert(paths_equal(s[k], y));
            }
        }
    }
    sorted
}

// ------------------------------------------------------------------
// The dry-run report
// ------------------------------------------------------------------

/// What the report says the cleanup of a candidate would do.
pub open spec fn report_outcome_text(delete_archives: bool, dry_run: bool) -> Seq<char> {
    if delete_archives && dry_run {
        "Archive würden bei dry_run=false gelöscht."@
    } else if delete_archives && !dry_run {
        "Normaler Worker würde Archive nach Erfolg löschen."@
    } else {
        "Cleanup ist deaktiviert."@
    }
}

pub fn report_outcome(delete_archives: bool, dry_run: bool) -> (r: &'static str)
    ensures
        r@ == report_outcome_text(delete_archives, dry_run),
{
    if delete_archives && dry_run {
        "Archive würden bei dry_run=false gelöscht."
    } else if delete_archives && !dry_run {
        "Normaler Worker würde Archive nach Erfolg löschen."
    } else {
        "Cleanup ist deaktiviert."
    }
}

/// The counts of the report's summary: new, done, failed.
pub open spec fn count_state(states: Seq<CandidateState>, s: CandidateState) -> nat
    decreases states.len(),
{
    if states.len() == 0 {
        0
    } else {
        count_state(states.drop_last(), s) + if states.last() == s {
            1nat
        } else {
            0nat
        }
    }
}

proof fn lemma_count_state_bound(states: Seq<CandidateState>, s: CandidateState)
    ensures
        count_state(states, s) <= states.len(),
    decreases states.len(),
{
    if states.len() > 0 {
        lemma_count_state_bound(states.drop_last(), s);
    }
}

pub fn state_counts(states: &Vec<CandidateState>) -> (r: (usize, usize, usize))
    ensures
        r.0 == count_state(states@, CandidateState::New),
        r.1 == count_state(states@, CandidateState::Done),
        r.2 == count_state(states@, CandidateState::Failed),
{
    let mut n: usize = 0;
    let mut d: usize = 0;
    let mut f: usize = 0;
    let mut i: usize = 0;
    while i < states.len()
        invariant
            i <= states@.len(),
            n == count_state(states@.take(i as int), CandidateState::New),
            d == count_state(states@.take(i as int), CandidateState::Done),
            f == count_state(states@.take(i as int), CandidateState::Failed),
        decreases states.len() - i,
    {
        assert(states@.take(i + 1).drop_last() =~= states@.take(i as int));
        proof {
            lemma_count_state_bound(states@.take(i as int), CandidateState::New);
            lemma_count_state_bound(states@.take(i as int), CandidateState::Done);
            lemma_count_state_bound(states@.take(i as int), CandidateState::Failed);
        }
        match states[i] {
            CandidateState::New => n = n + 1,
            CandidateState::Done => d = d + 1,
            CandidateState::Failed => f = f + 1,
        }
        i = i + 1;
    }
    assert(states@.take(states@.len() as int) =~= states@);
    (n, d, f)
}

// ------------------------------------------------------------------
// The safety check
// ------------------------------------------------------------------

/// A watch directory and whether it exists.
pub struct WatchDirFact {
    pub path: String,
    pub is_dir: bool,
}

/// A cleanup file of a plan and whether it is safe to delete.
pub struct CleanupFileFact {
    pub path: String,
    pub safe: bool,
}

/// A candidate: its state, and its plan (the cleanup files) or the text of
/// the error that prevented one.
pub struct CandidateFact {
    pub path: String,
    pub state: CandidateState,
    pub plan: Result<Vec<CleanupFileFact>, String>,
}

/// What the safety check looks at.
pub struct SafetyFacts {
    pub watch_dirs: Vec<WatchDirFact>,
    pub output_dir: String,
    pub output_exists: bool,
    pub history_dir: String,
    pub history_exists: bool,
    pub delete_archives: bool,
    pub dry_run: bool,
    pub candidates: Vec<CandidateFact>,
}

#[derive(Clone, Copy, PartialEq, Eq, Structural, Debug)]
pub enum Readiness {
    /// There are blockers.
    No,
    /// No blockers, but warnings.
    Conditional,
    /// Neither.
    Yes,
}

/// The result of the safety check.
pub struct SafetyReport {
    pub blockers: Vec<String>,
    pub warnings: Vec<String>,
    pub new_count: usize,
    pub done_count: usize,
    pub failed_count: usize,
    pub cleanup_file_count: usize,
    pub unsafe_cleanup_count: usize,
    pub readiness: Readiness,
}

pub open spec fn strings(v: Seq<String>) -> Seq<Seq<char>> {
    v.map_values(|s: String| s@)
}

pub open spec fn missing_watch_blockers(ws: Seq<WatchDirFact>) -> Seq<Seq<char>>
    decreases ws.len(),
{
    if ws.len() == 0 {
        Seq::empty()
    } else {
        let prev = missing_watch_blockers(ws.drop_last());
        if ws.last().is_dir {
            prev
        } else {
            prev.push("Watch-Ordner existiert nicht: "@ + ws.last().path@)
        }
    }
}

pub open spec fn output_is_watched(ws: Seq<WatchDirFact>, output: Seq<char>) -> bool {
    exists|i: int| 0 <= i < ws.len() && paths_equal(output, #[trigger] ws[i].path@)
}

pub open spec fn unsafe_files(fs: Seq<CleanupFileFact>) -> Seq<Seq<char>>
    decreases fs.len(),
{
    if fs.len() == 0 {
        Seq::empty()
    } else {
        let prev = unsafe_files(fs.drop_last());
        if fs.last().safe {
            prev
        } else {
            prev.push(fs.last().path@)
        }
    }
}

pub open spec fn unsafe_blockers(us: Seq<Seq<char>>) -> Seq<Seq<char>> {
    us.map_values(|p: Seq<char>| "Unsicherer Cleanup-Kandidat: "@ + p)
}

/// The blockers that a candidate adds: its unsafe cleanup files, or the
/// error of its plan.
pub open spec fn candidate_blockers(c: CandidateFact) -> Seq<Seq<char>> {
    match c.plan {
        Ok(fs) => unsafe_blockers(unsafe_files(fs@)),
        Err(e) => seq!["Konnte Extract-Plan nicht erstellen für "@ + c.path@ + ": "@ + e@],
    }
}

pub open spec fn all_candidate_blockers(cs: Seq<CandidateFact>) -> Seq<Seq<char>>
    decreases cs.len(),
{
    if cs.len() == 0 {
        Seq::empty()
    } else {
        all_candidate_blockers(cs.drop_last()) + candidate_blockers(cs.last())
    }
}

pub open spec fn plan_files(c: CandidateFact) -> nat {
    match c.plan {
        Ok(fs) => fs@.len(),
        Err(_) => 0,
    }
}

pub open spec fn total_files(cs: Seq<CandidateFact>) -> nat
    decreases cs.len(),
{
    if cs.len() == 0 {
        0
    } else {
        total_files(cs.drop_last()) + plan_files(cs.last())
    }
}

pub open spec fn total_unsafe(cs: Seq<CandidateFact>) -> nat
    decreases cs.len(),
{
    if cs.len() == 0 {
        0
    } else {
        total_unsafe(cs.drop_last()) + match cs.last().plan {
            Ok(fs) => unsafe_files(fs@).len(),
            Err(_) => 0,
        }
    }
}

pub open spec fn candidate_states(cs: Seq<CandidateFact>) -> Seq<CandidateState> {
    cs.map_values(|c: CandidateFact| c.state)
}

/// All blockers, in the order in which the check finds them.
pub open spec fn safety_blockers(f: SafetyFacts) -> Seq<Seq<char>> {
    missing_watch_blockers(f.watch_dirs@) + (if output_is_watched(f.watch_dirs@, f.output_dir@) {
        seq!["Output-Ordner darf nicht identisch mit einem Watch-Ordner sein"@]
    } else {
        Seq::empty()
    }) + all_candidate_blockers(f.candidates@)
}

pub open spec fn when(c: bool, m: Seq<char>) -> Seq<Seq<char>> {
    if c {
        seq![m]
    } else {
        Seq::empty()
    }
}

/// All warnings, in the order in which the check finds them.
pub open spec fn safety_warnings(f: SafetyFacts) -> Seq<Seq<char>> {
    let states = candidate_states(f.candidates@);
    early_warnings(f) + late_warnings(
        count_state(states, CandidateState::New),
        count_state(states, CandidateState::Failed),
        total_files(f.candidates@),
    )
}

/// The warnings on the configuration.
pub open spec fn early_warnings(f: SafetyFacts) -> Seq<Seq<char>> {
    when(!f.output_exists, "Output-Ordner existiert noch nicht: "@ + f.output_dir@) + when(
        !f.history_exists,
        "History-Ordner existiert noch nicht: "@ + f.history_dir@,
    ) + when(
        !f.delete_archives,
        "delete_archives=false: dry_run=false würde trotzdem keine Archive löschen"@,
    ) + when(!f.dry_run, "dry_run=false ist bereits aktiv"@)
}

/// The warnings on the candidates.
pub open spec fn late_warnings(new_count: nat, failed_count: nat, files: nat) -> Seq<Seq<char>> {
    when(
        new_count > 0,
        dec(new_count) + " neue Kandidat(en) vorhanden. Bei normalem Worker-Lauf und dry_run=false würden Archive nach erfolgreicher Verarbeitung gelöscht."@,
    ) + when(
        failed_count > 0,
        dec(failed_count) + " fehlgeschlagene Kandidat(en) vorhanden. Vor erneutem Versuch ggf. --clear-failed nutzen."@,
    ) + when(
        files == 0,
        "Keine Cleanup-Kandidaten gefunden. Es gibt aktuell nichts, womit dry_run=false praktisch getestet würde."@,
    )
}

pub open spec fn readiness_of(blockers: nat, warnings: nat) -> Readiness {
    if blockers > 0 {
        Readiness::No
    } else if warnings > 0 {
        Readiness::Conditional
    } else {
        Readiness::Yes
    }
}

fn push_message(out: &mut Vec<String>, head: &str, tail: &str)
    ensures
        strings(final(out)@) == strings(old(out)@).push(head@ + tail@),
{
    let mut m: Vec<char> = Vec::new();
    extend_str(&mut m, head);
    extend_str(&mut m, tail);
    let ghost before = strings(out@);
    out.push(string_of(&m));
    assert(strings(out@) =~= before.push(head@ + tail@));
}

fn push_count_message(out: &mut Vec<String>, n: usize, tail: &str)
    ensures
        strings(final(out)@) == strings(old(out)@).push(dec(n as nat) + tail@),
{
    let mut m: Vec<char> = Vec::new();
    push_dec(&mut m, n as u64);
    extend_str(&mut m, tail);
    let ghost before = strings(out@);
    out.push(string_of(&m));
    assert(strings(out@) =~= before.push(dec(n as nat) + tail@));
}

fn watch_blockers(ws: &Vec<WatchDirFact>, out: &mut Vec<String>)
    ensures
        strings(final(out)@) == strings(old(out)@) + missing_watch_blockers(ws@),
{
    let ghost start = strings(out@);
    let mut i: usize = 0;
    assert(start + missing_watch_blockers(ws@.take(0)) =~= start);
    while i < ws.len()
        invariant
            i <= ws@.len(),
            strings(out@) == start + missing_watch_blockers(ws@.take(i as int)),
        decreases ws.len() - i,
    {
        assert(ws@.take(i + 1).drop_last() =~= ws@.take(i as int));
        assert(ws@.take(i + 1).last() == ws@[i as int]);
        if !ws[i].is_dir {
            push_message(out, "Watch-Ordner existiert nicht: ", ws[i].path.as_str());
            assert(strings(out@) =~= start + missing_watch_blockers(ws@.take(i + 1)));
        }
        i = i + 1;
    }
    assert(ws@.take(ws@.len() as int) =~= ws@);
}

fn output_watched(ws: &Vec<WatchDirFact>, output: &str) -> (r: bool)
    ensures
        r == output_is_watched(ws@, output@),
{
    let mut i: usize = 0;
    while i < ws.len()
        invariant
            i <= ws@.len(),
            forall|k: int| 0 <= k < i ==> !paths_equal(output@, #[trigger] ws@[k].path@),
        decreases ws.len() - i,
    {
        if crate::paths::same_path(output, ws[i].path.as_str()) {
            return true;
        }
        i = i + 1;
    }
    false
}

/// Adds the blockers of one candidate; returns its cleanup files and its
/// unsafe ones.
fn add_candidate_blockers(c: &CandidateFact, out: &mut Vec<String>) -> (r: (usize, usize))
    ensures
        strings(final(out)@) == strings(old(out)@) + candidate_blockers(*c),
        r.0 == plan_files(*c),
        r.1 == match c.plan {
            Ok(fs) => unsafe_files(fs@).len(),
            Err(_) => 0,
        },
{
    let ghost start = strings(out@);
    match &c.plan {
        Err(e) => {
            let mut m: Vec<char> = Vec::new();
            extend_str(&mut m, "Konnte Extract-Plan nicht erstellen für ");
            extend_str(&mut m, c.path.as_str());
            extend_str(&mut m, ": ");
            extend_str(&mut m, e.as_str());
            out.push(string_of(&m));
            assert(strings(out@) =~= start + candidate_blockers(*c));
            (0, 0)
        },
        Ok(fs) => {
            let mut unsafe_count: usize = 0;
            let mut i: usize = 0;
            assert(start + unsafe_blockers(unsafe_files(fs@.take(0))) =~= start);
            while i < fs.len()
                invariant
                    i <= fs@.len(),
                    unsafe_count == unsafe_files(fs@.take(i as int)).len(),
                    unsafe_count <= i,
                    strings(out@) == start + unsafe_blockers(unsafe_files(fs@.take(i as int))),
                decreases fs.len() - i,
            {
                assert(fs@.take(i + 1).drop_last() =~= fs@.take(i as int));
                assert(fs@.take(i + 1).last() == fs@[i as int]);
                if !fs[i].safe {
                    push_message(out, "Unsicherer Cleanup-Kandidat: ", fs[i].path.as_str());
                    unsafe_count = unsafe_count + 1;
                    assert(strings(out@) =~= start + unsafe_blockers(unsafe_files(fs@.take(i + 1))));
                }
                i = i + 1;
            }
            assert(fs@.take(fs@.len() as int) =~= fs@);
            (fs.len(), unsafe_count)
        },
    }
}

proof fn lemma_total_unsafe_bound(cs: Seq<CandidateFact>)
    ensures
        total_unsafe(cs) <= total_files(cs),
    decreases cs.len(),
{
    if cs.len() > 0 {
        lemma_total_unsafe_bound(cs.drop_last());
        match cs.last().plan {
            Ok(fs) => lemma_unsafe_files_bound(fs@),
            Err(_) => {},
        }
    }
}

proof fn lemma_unsafe_files_bound(fs: Seq<CleanupFileFact>)
    ensures
        unsafe_files(fs).len() <= fs.len(),
    decreases fs.len(),
{
    if fs.len() > 0 {
        lemma_unsafe_files_bound(fs.drop_last());
    }
}

proof fn lemma_total_files_prefix(cs: Seq<CandidateFact>, i: int)
    requires
        0 <= i <= cs.len(),
    ensures
        total_files(cs.take(i)) <= total_files(cs),
    decreases cs.len() - i,
{
    if i < cs.len() {
        lemma_total_files_prefix(cs, i + 1);
        assert(cs.take(i + 1).drop_last() =~= cs.take(i));
    } else {
        assert(cs.take(i) =~= cs);
    }
}

fn early_warning_list(f: &SafetyFacts) -> (r: Vec<String>)
    ensures
        strings(r@) == early_warnings(*f),
{
    let mut warnings: Vec<String> = Vec::new();
    assert(strings(warnings@) =~= Seq::<Seq<char>>::empty());
    if !f.output_exists {
        push_message(&mut warnings, "Output-Ordner existiert noch nicht: ", f.output_dir.as_str());
    }
    if !f.history_exists {
        push_message(&mut warnings, "History-Ordner existiert noch nicht: ", f.history_dir.as_str());
    }
    proof {
        reveal_strlit("");
    }
    if !f.delete_archives {
        push_message(
            &mut warnings,
            "delete_archives=false: dry_run=false würde trotzdem keine Archive löschen",
            "",
        );
    }
    if !f.dry_run {
        push_message(&mut warnings, "dry_run=false ist bereits aktiv", "");
    }
    proof {
        let m2 = "delete_archives=false: dry_run=false würde trotzdem keine Archive löschen"@;
        let m3 = "dry_run=false ist bereits aktiv"@;
        assert(m2 + ""@ =~= m2);
        assert(m3 + ""@ =~= m3);
        assert(strings(warnings@) =~= early_warnings(*f));
    }
    warnings
}

fn add_late_warnings(warnings: &mut Vec<String>, new_count: usize, failed_count: usize, files: usize)
    ensures
        strings(final(warnings)@) == strings(old(warnings)@) + late_warnings(
            new_count as nat,
            failed_count as nat,
            files as nat,
        ),
{
    let ghost start = strings(warnings@);
    if new_count > 0 {
        push_count_message(
            warnings,
            new_count,
            " neue Kandidat(en) vorhanden. Bei normalem Worker-Lauf und dry_run=false würden Archive nach erfolgreicher Verarbeitung gelöscht.",
        );
    }
    if failed_count > 0 {
        push_count_message(
            warnings,
            failed_count,
            " fehlgeschlagene Kandidat(en) vorhanden. Vor erneutem Versuch ggf. --clear-failed nutzen.",
        );
    }
    proof {
        reveal_strlit("");
    }
    if files == 0 {
        push_message(
            warnings,
            "Keine Cleanup-Kandidaten gefunden. Es gibt aktuell nichts, womit dry_run=false praktisch getestet würde.",
            "",
        );
    }
    proof {
        let m4 = "Keine Cleanup-Kandidaten gefunden. Es gibt aktuell nichts, womit dry_run=false praktisch getestet würde."@;
        assert(m4 + ""@ =~= m4);
        assert(strings(warnings@) =~= start + late_warnings(
            new_count as nat,
            failed_count as nat,
            files as nat,
        ));
    }
}

fn candidate_blocker_list(cs: &Vec<CandidateFact>, blockers: &mut Vec<String>) -> (r: (
    Vec<CandidateState>,
    usize,
    usize,
))
    requires
        total_files(cs@) <= usize::MAX,
    ensures
        strings(final(blockers)@) == strings(old(blockers)@) + all_candidate_blockers(cs@),
        r.0@ == candidate_states(cs@),
        r.1 == total_files(cs@),
        r.2 == total_unsafe(cs@),
{
    let ghost b0 = strings(blockers@);
    let mut states: Vec<CandidateState> = Vec::new();
    let mut cleanup_file_count: usize = 0;
    let mut unsafe_cleanup_count: usize = 0;
    let mut i: usize = 0;
    assert(b0 + all_candidate_blockers(cs@.take(0)) =~= b0);
    assert(states@ =~= candidate_states(cs@.take(0)));
    while i < cs.len()
        invariant
            i <= cs@.len(),
            total_files(cs@) <= usize::MAX,
            strings(blockers@) == b0 + all_candidate_blockers(cs@.take(i as int)),
            states@ == candidate_states(cs@.take(i as int)),
            cleanup_file_count == total_files(cs@.take(i as int)),
            unsafe_cleanup_count == total_unsafe(cs@.take(i as int)),
        decreases cs.len() - i,
    {
        assert(cs@.take(i + 1).drop_last() =~= cs@.take(i as int));
        assert(cs@.take(i + 1).last() == cs@[i as int]);
        let (n, u) = add_candidate_blockers(&cs[i], blockers);
        proof {
            lemma_total_files_prefix(cs@, i + 1);
            lemma_total_unsafe_bound(cs@.take(i + 1));
        }
        cleanup_file_count = cleanup_file_count + n;
        unsafe_cleanup_count = unsafe_cleanup_count + u;
        states.push(cs[i].state);
        assert(states@ =~= candidate_states(cs@.take(i + 1)));
        assert(strings(blockers@) =~= b0 + all_candidate_blockers(cs@.take(i + 1)));
        i = i + 1;
    }
    assert(cs@.take(cs@.len() as int) =~= cs@);
    (states, cleanup_file_count, unsafe_cleanup_count)
}

/// The safety check before switching `dry_run` off: blockers, warnings,
/// counts and the readiness they give.
pub fn assess_safety(f: &SafetyFacts) -> (r: SafetyReport)
    requires
        total_files(f.candidates@) <= usize::MAX,
    ensures
        strings(r.blockers@) == safety_blockers(*f),
        strings(r.warnings@) == safety_warnings(*f),
        r.new_count == count_state(candidate_states(f.candidates@), CandidateState::New),
        r.done_count == count_state(candidate_states(f.candidates@), CandidateState::Done),
        r.failed_count == count_state(candidate_states(f.candidates@), CandidateState::Failed),
        r.cleanup_file_count == total_files(f.candidates@),
        r.unsafe_cleanup_count == total_unsafe(f.candidates@),
        r.readiness == readiness_of(r.blockers@.len(), r.warnings@.len()),
{
    let mut blockers: Vec<String> = Vec::new();
    assert(strings(blockers@) =~= Seq::<Seq<char>>::empty());
    watch_blockers(&f.watch_dirs, &mut blockers);
    let ghost b1 = strings(blockers@);
    if output_watched(&f.watch_dirs, f.output_dir.as_str()) {
        push_message(&mut blockers, "Output-Ordner darf nicht identisch mit einem Watch-Ordner sein", "");
        proof {
            reveal_strlit("");
            let m1 = "Output-Ordner darf nicht identisch mit einem Watch-Ordner sein"@;
            assert(m1 + ""@ =~= m1);
        }
    }
    let mut warnings = early_warning_list(f);
    let (states, cleanup_file_count, unsafe_cleanup_count) = candidate_blocker_list(
        &f.candidates,
        &mut blockers,
    );
    let (new_count, done_count, failed_count) = state_counts(&states);
    add_late_warnings(&mut warnings, new_count, failed_count, cleanup_file_count);
    assert(strings(blockers@) =~= safety_blockers(*f));
    assert(strings(warnings@) =~= safety_warnings(*f));
    let readiness = if blockers.len() > 0 {
        Readiness::No
    } else if warnings.len() > 0 {
        Readiness::Conditional
    } else {
        Readiness::Yes
    };
    SafetyReport {
        blockers,
        warnings,
        new_count,
        done_count,
        failed_count,
        cleanup_file_count,
        unsafe_cleanup_count,
        readiness,
    }
}

} // verus!
