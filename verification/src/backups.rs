//! Where backups of the configuration, the history and the password list
//! are written, and the overview of what is there.
use crate::paths::{file_name, join, parent, path_file_name, path_join, path_parent};
use crate::text::{contains_seq, dec, extend_str, push_dec, str_contains, str_has_prefix, string_of};
use vstd::prelude::*;

verus! {

// ------------------------------------------------------------------
// Backup locations
// ------------------------------------------------------------------

/// The directory that holds the state: the parent of the history
/// directory, `/state` when it has none.
pub open spec fn state_root_of(history_dir: Seq<char>) -> Seq<char> {
    match path_parent(history_dir) {
        Some(p) => p,
        None => "/state"@,
    }
}

pub fn state_root(history_dir: &str) -> (r: String)
    ensures
        r@ == state_root_of(history_dir@),
{
    match parent(history_dir) {
        Some(p) => p,
        None => crate::text::copy_str("/state"),
    }
}

/// The directory of configuration backups.
pub open spec fn config_backup_dir_of(history_dir: Seq<char>) -> Seq<char> {
    match path_parent(history_dir) {
        Some(p) => path_join(p, "config-backups"@),
        None => "/state/config-backups"@,
    }
}

/// `<name>.bak.<timestamp>`.
pub open spec fn backup_name(name: Seq<char>, timestamp: u64) -> Seq<char> {
    name + ".bak."@ + dec(timestamp as nat)
}

fn backup_file_name(name: &str, timestamp: u64) -> (r: String)
    ensures
        r@ == backup_name(name@, timestamp),
{
    let mut out: Vec<char> = Vec::new();
    extend_str(&mut out, name);
    extend_str(&mut out, ".bak.");
    push_dec(&mut out, timestamp);
    string_of(&out)
}

/// The file name of a path, or `fallback` when it has none.
pub open spec fn file_name_or(path: Seq<char>, fallback: Seq<char>) -> Seq<char> {
    match path_file_name(path) {
        Some(n) => n,
        None => fallback,
    }
}

fn file_name_or_else(path: &str, fallback: &str) -> (r: String)
    ensures
        r@ == file_name_or(path@, fallback@),
{
    match file_name(path) {
        Some(n) => n,
        None => crate::text::copy_str(fallback),
    }
}

/// Where the configuration file is copied before the settings form
/// overwrites it.
pub open spec fn config_backup_path_of(config_path: Seq<char>, history_dir: Seq<char>, timestamp: u64) -> Seq<char> {
    path_join(
        config_backup_dir_of(history_dir),
        backup_name(file_name_or(config_path, "config.toml"@), timestamp),
    )
}

pub fn config_backup_path(config_path: &str, history_dir: &str, timestamp: u64) -> (r: String)
    ensures
        r@ == config_backup_path_of(config_path@, history_dir@, timestamp),
{
    let dir = match parent(history_dir) {
        Some(p) => join(p.as_str(), "config-backups"),
        None => crate::text::copy_str("/state/config-backups"),
    };
    let name = file_name_or_else(config_path, "config.toml");
    let file = backup_file_name(name.as_str(), timestamp);
    join(dir.as_str(), file.as_str())
}

/// Where the password list is copied before it is changed.
pub open spec fn password_backup_path_of(password_path: Seq<char>, history_dir: Seq<char>, timestamp: u64) -> Seq<char> {
    path_join(
        path_join(state_root_of(history_dir), "password-backups"@),
        backup_name(file_name_or(password_path, "passwords.txt"@), timestamp),
    )
}

pub fn password_backup_path(password_path: &str, history_dir: &str, timestamp: u64) -> (r: String)
    ensures
        r@ == password_backup_path_of(password_path@, history_dir@, timestamp),
{
    let root = state_root(history_dir);
    let dir = join(root.as_str(), "password-backups");
    let name = file_name_or_else(password_path, "passwords.txt");
    let file = backup_file_name(name.as_str(), timestamp);
    join(dir.as_str(), file.as_str())
}

/// The directory into which the history markers are copied before they
/// are reset.
pub open spec fn history_backup_path_of(history_dir: Seq<char>, timestamp: u64) -> Seq<char> {
    path_join(
        path_join(state_root_of(history_dir), "history-backups"@),
        backup_name("history"@, timestamp),
    )
}

pub fn history_backup_path(history_dir: &str, timestamp: u64) -> (r: String)
    ensures
        r@ == history_backup_path_of(history_dir@, timestamp),
{
    let root = state_root(history_dir);
    let dir = join(root.as_str(), "history-backups");
    let file = backup_file_name("history", timestamp);
    join(dir.as_str(), file.as_str())
}

// ------------------------------------------------------------------
// The overview of the backups
// ------------------------------------------------------------------

#[derive(Clone, Copy, PartialEq, Eq, Structural, Debug)]
pub enum BackupKind {
    Config,
    History,
    Passwords,
}

/// The three backup directories: configuration, history, passwords.
pub struct BackupDirectories {
    pub config: String,
    pub history: String,
    pub passwords: String,
}

pub fn backup_directories(history_dir: &str) -> (r: BackupDirectories)
    ensures
        r.config@ == path_join(state_root_of(history_dir@), "config-backups"@),
        r.history@ == path_join(state_root_of(history_dir@), "history-backups"@),
        r.passwords@ == path_join(state_root_of(history_dir@), "password-backups"@),
{
    let root = state_root(history_dir);
    BackupDirectories {
        config: join(root.as_str(), "config-backups"),
        history: join(root.as_str(), "history-backups"),
        passwords: join(root.as_str(), "password-backups"),
    }
}

/// A backup of the given kind: configuration and password backups are
/// files whose name holds `.bak.`, history backups are directories whose
/// name starts with `history.bak.`.
pub open spec fn matching_backup(path: Seq<char>, is_file: bool, is_dir: bool, kind: BackupKind) -> bool {
    match path_file_name(path) {
        None => false,
        Some(name) => match kind {
            BackupKind::Config => is_file && contains_seq(name, ".bak."@),
            BackupKind::History => is_dir && "history.bak."@.is_prefix_of(name),
            BackupKind::Passwords => is_file && contains_seq(name, ".bak."@),
        },
    }
}

pub fn is_matching_backup(path: &str, is_file: bool, is_dir: bool, kind: BackupKind) -> (r: bool)
    ensures
        r == matching_backup(path@, is_file, is_dir, kind),
{
    let name = match file_name(path) {
        None => {
            return false;
        },
        Some(n) => n,
    };
    match kind {
        BackupKind::Config => is_file && str_contains(name.as_str(), ".bak."),
        BackupKind::History => {
            let v = crate::text::chars_of(name.as_str());
            is_dir && str_has_prefix(&v, "history.bak.")
        },
        BackupKind::Passwords => is_file && str_contains(name.as_str(), ".bak."),
    }
}

/// A point in time, as seconds and nanoseconds since the Unix epoch.
#[derive(Clone, Copy, PartialEq, Eq, Structural, Debug)]
pub struct Timestamp {
    pub secs: u64,
    pub nanos: u32,
}

pub open spec fn earlier(a: Timestamp, b: Timestamp) -> bool {
    a.secs < b.secs || (a.secs == b.secs && a.nanos < b.nanos)
}

/// Whole seconds from `from` to `to`, `None` when `to` is earlier
/// (`SystemTime::duration_since(..).as_secs()`).
pub open spec fn elapsed_secs(from: Timestamp, to: Timestamp) -> Option<u64> {
    if earlier(to, from) {
        None
    } else if to.nanos >= from.nanos {
        Some((to.secs - from.secs) as u64)
    } else {
        Some((to.secs - from.secs - 1) as u64)
    }
}

pub fn elapsed_seconds(from: Timestamp, to: Timestamp) -> (r: Option<u64>)
    requires
        from.nanos < 1_000_000_000,
        to.nanos < 1_000_000_000,
    ensures
        r == elapsed_secs(from, to),
{
    if to.secs < from.secs || (to.secs == from.secs && to.nanos < from.nanos) {
        None
    } else if to.nanos >= from.nanos {
        Some(to.secs - from.secs)
    } else {
        Some(to.secs - from.secs - 1)
    }
}

/// `vor <n> <unit>`, with the singular for one.
pub open spec fn ago_text(value: u64, singular: Seq<char>, plural: Seq<char>) -> Seq<char> {
    "vor "@ + dec(value as nat) + " "@ + if value == 1 {
        singular
    } else {
        plural
    }
}

pub fn ago(value: u64, singular: &str, plural: &str) -> (r: String)
    ensures
        r@ == ago_text(value, singular@, plural@),
{
    let mut out: Vec<char> = Vec::new();
    extend_str(&mut out, "vor ");
    push_dec(&mut out, value);
    extend_str(&mut out, " ");
    if value == 1 {
        extend_str(&mut out, singular);
    } else {
        extend_str(&mut out, plural);
    }
    string_of(&out)
}

/// How long ago something was, in German words, from the seconds that
/// have passed (`None` when it lies in the future).
pub open spec fn relative_age_text(elapsed: Option<u64>) -> Seq<char> {
    match elapsed {
        None => "gerade eben"@,
        Some(s) => if s < 60 {
            "gerade eben"@
        } else if s / 60 < 60 {
            ago_text(s / 60, "Minute"@, "Minuten"@)
        } else if s / 3600 < 24 {
            ago_text(s / 3600, "Stunde"@, "Stunden"@)
        } else {
            ago_text(s / 86400, "Tag"@, "Tagen"@)
        },
    }
}

pub fn relative_age(elapsed: Option<u64>) -> (r: String)
    ensures
        r@ == relative_age_text(elapsed),
{
    let seconds = match elapsed {
        None => {
            return crate::text::copy_str("gerade eben");
        },
        Some(s) => s,
    };
    if seconds < 60 {
        return crate::text::copy_str("gerade eben");
    }
    let minutes = seconds / 60;
    if minutes < 60 {
        return ago(minutes, "Minute", "Minuten");
    }
    let hours = minutes / 60;
    assert(hours == seconds / 3600) by (nonlinear_arith)
        requires
            minutes == seconds / 60,
            hours == minutes / 60,
    ;
    if hours < 24 {
        return ago(hours, "Stunde", "Stunden");
    }
    let days = hours / 24;
    assert(days == seconds / 86400) by (nonlinear_arith)
        requires
            hours == seconds / 3600,
            days == hours / 24,
    ;
    ago(days, "Tag", "Tagen")
}

/// One entry of a backup directory.
pub struct BackupEntry {
    pub path: String,
    pub name: String,
    pub is_file: bool,
    pub is_dir: bool,
    /// The modification time, when the file system reports one.
    pub modified: Option<Timestamp>,
}

/// What could be read of a backup directory.
pub enum BackupListing {
    Missing,
    Unreadable,
    Entries(Vec<BackupEntry>),
}

/// The overview of one backup directory.
pub struct BackupSummary {
    pub directory: String,
    pub directory_exists: bool,
    pub readable: bool,
    pub count: usize,
    pub latest_name: Option<String>,
    pub latest_age: Option<String>,
}

pub open spec fn entry_matches(e: BackupEntry, kind: BackupKind) -> bool {
    matching_backup(e.path@, e.is_file, e.is_dir, kind)
}

/// How many of the entries are backups of the kind.
pub open spec fn count_matching(es: Seq<BackupEntry>, kind: BackupKind) -> nat
    decreases es.len(),
{
    if es.len() == 0 {
        0
    } else {
        count_matching(es.drop_last(), kind) + if entry_matches(es.last(), kind) {
            1nat
        } else {
            0nat
        }
    }
}

/// The index of the newest backup with a modification time; of several
/// equally new ones, the first.
pub open spec fn latest_index(es: Seq<BackupEntry>, kind: BackupKind) -> Option<int>
    decreases es.len(),
{
    if es.len() == 0 {
        None
    } else {
        let prev = latest_index(es.drop_last(), kind);
        let e = es.last();
        if entry_matches(e, kind) && e.modified is Some && (prev is None || earlier(
            es[prev.unwrap()].modified.unwrap(),
            e.modified.unwrap(),
        )) {
            Some(es.len() - 1)
        } else {
            prev
        }
    }
}

proof fn lemma_latest_index_bounds(es: Seq<BackupEntry>, kind: BackupKind)
    ensures
        match latest_index(es, kind) {
            Some(i) => 0 <= i < es.len() && es[i].modified is Some,
            None => true,
        },
    decreases es.len(),
{
    if es.len() > 0 {
        lemma_latest_index_bounds(es.drop_last(), kind);
    }
}

proof fn lemma_count_bound(es: Seq<BackupEntry>, kind: BackupKind)
    ensures
        count_matching(es, kind) <= es.len(),
    decreases es.len(),
{
    if es.len() > 0 {
        lemma_count_bound(es.drop_last(), kind);
    }
}

/// The summary of a backup directory: whether it exists and could be read,
/// how many backups of the kind it holds, and the newest of them with its
/// age at `now`.
pub open spec fn summary_matches(
    s: BackupSummary,
    directory: Seq<char>,
    listing: BackupListing,
    kind: BackupKind,
    now: Timestamp,
) -> bool {
    &&& s.directory@ == directory
    &&& match listing {
        BackupListing::Missing => !s.directory_exists && !s.readable && s.count == 0
            && s.latest_name is None && s.latest_age is None,
        BackupListing::Unreadable => s.directory_exists && !s.readable && s.count == 0
            && s.latest_name is None && s.latest_age is None,
        BackupListing::Entries(es) => s.directory_exists && s.readable && s.count == count_matching(
            es@,
            kind,
        ) && match latest_index(es@, kind) {
            None => s.latest_name is None && s.latest_age is None,
            Some(i) => {
                &&& s.latest_name is Some
                &&& s.latest_name.unwrap()@ == es@[i].name@
                &&& s.latest_age is Some
                &&& s.latest_age.unwrap()@ == relative_age_text(
                    elapsed_secs(es@[i].modified.unwrap(), now),
                )
            },
        },
    }
}

/// Nanoseconds below one second, in every modification time.
pub open spec fn valid_times(listing: BackupListing) -> bool {
    match listing {
        BackupListing::Entries(es) => forall|k: int|
            0 <= k < es@.len() ==> ((#[trigger] es@[k]).modified is Some ==> es@[k].modified.unwrap().nanos
                < 1_000_000_000),
        _ => true,
    }
}

/// Summarises the listing of a backup directory at the time `now`.
pub fn summarize(directory: String, listing: &BackupListing, kind: BackupKind, now: Timestamp) -> (r: BackupSummary)
    requires
        now.nanos < 1_000_000_000,
        valid_times(*listing),
    ensures
        summary_matches(r, directory@, *listing, kind, now),
{
    let es = match listing {
        BackupListing::Missing => {
            return BackupSummary {
                directory,
                directory_exists: false,
                readable: false,
                count: 0,
                latest_name: None,
                latest_age: None,
            };
        },
        BackupListing::Unreadable => {
            return BackupSummary {
                directory,
                directory_exists: true,
                readable: false,
                count: 0,
                latest_name: None,
                latest_age: None,
            };
        },
        BackupListing::Entries(es) => es,
    };
    let mut count: usize = 0;
    let mut latest: Option<usize> = None;
    let mut i: usize = 0;
    while i < es.len()
        invariant
            i <= es@.len(),
            count == count_matching(es@.take(i as int), kind),
            latest matches Some(l) ==> l < i,
            match latest {
                Some(l) => latest_index(es@.take(i as int), kind) == Some(l as int),
                None => latest_index(es@.take(i as int), kind) is None,
            },
        decreases es.len() - i,
    {
        let ghost t = es@.take(i + 1);
        assert(t.drop_last() =~= es@.take(i as int));
        assert(t.last() == es@[i as int]);
        proof {
            lemma_count_bound(es@.take(i as int), kind);
            lemma_latest_index_bounds(es@.take(i as int), kind);
        }
        let e = &es[i];
        if is_matching_backup(e.path.as_str(), e.is_file, e.is_dir, kind) {
            count = count + 1;
            match e.modified {
                Some(m) => {
                    let replace = match latest {
                        None => true,
                        Some(l) => {
                            let cur = es[l].modified.unwrap();
                            assert(es@.take(i as int)[l as int] == es@[l as int]);
                            cur.secs < m.secs || (cur.secs == m.secs && cur.nanos < m.nanos)
                        },
                    };
                    if replace {
                        latest = Some(i);
                    } else {
                        assert(latest is Some);
                        assert(es@.take(i as int)[latest.unwrap() as int] == t[latest.unwrap() as int]);
                    }
                },
                None => {},
            }
        }
        proof {
            match latest {
                Some(l) => {
                    if l < i {
                        assert(es@.take(i as int)[l as int] == t[l as int]);
                    }
                },
                None => {},
            }
        }
        i = i + 1;
    }
    assert(es@.take(es@.len() as int) =~= es@);
    let (latest_name, latest_age) = match latest {
        None => (None, None),
        Some(l) => {
            proof {
                lemma_latest_index_bounds(es@, kind);
            }
            let e = &es[l];
            let m = e.modified.unwrap();
            let elapsed = elapsed_seconds(m, now);
            (Some(e.name.clone()), Some(relative_age(elapsed)))
        },
    };
    BackupSummary {
        directory,
        directory_exists: true,
        readable: true,
        count,
        latest_name,
        latest_age,
    }
}

} // verus!
