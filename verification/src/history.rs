//! The processing history: one marker file per release, named after the
//! release and a hash of its path, that records success or failure.
use crate::archive::sanitize;
use crate::paths::{file_name, join, path_file_name, path_join, paths_equal, same_path};
use crate::text::{
    chars_of, dec, extend_str, lines, parse_u64, parse_u64_chars, push_dec,
    slice_chars, split_lines, str_has_prefix, str_has_suffix, string_of, trim, trim_chars,
};
use sha2::Digest;
use vstd::prelude::*;

verus! {

// ------------------------------------------------------------------
// The hash in a marker's name
// ------------------------------------------------------------------

/// The SHA-256 digest of the bytes.
pub uninterp spec fn sha256_digest(data: Seq<u8>) -> Seq<u8>;

/// `Sha256::new`, `update` and `finalize` of the `sha2` crate; the digest
/// is named, and it has 32 bytes.
#[verifier::external_body]
fn sha256(data: &[u8]) -> (r: Vec<u8>)
    ensures
        r@ == sha256_digest(data@),
        r@.len() == 32,
{
    let mut hasher = sha2::Sha256::new();
    hasher.update(data);
    hasher.finalize().to_vec()
}

pub open spec fn hex_digit(n: int) -> char {
    if n < 10 {
        (('0' as int) + n) as char
    } else {
        (('a' as int) + n - 10) as char
    }
}

/// Lower-case hexadecimal, two digits per byte.
pub open spec fn hex(bytes: Seq<u8>) -> Seq<char>
    decreases bytes.len(),
{
    if bytes.len() == 0 {
        Seq::empty()
    } else {
        hex(bytes.drop_last()) + seq![
            hex_digit(bytes.last() as int / 16),
            hex_digit(bytes.last() as int % 16),
        ]
    }
}

fn hex_char(n: u8) -> (c: char)
    requires
        n < 16,
    ensures
        c == hex_digit(n as int),
{
    if n < 10 {
        crate::text::char_from_ascii((48 + n) as u32)
    } else {
        crate::text::char_from_ascii((97 + n - 10) as u32)
    }
}

/// The first twelve hexadecimal digits of the SHA-256 digest of the
/// path's UTF-8 bytes.
pub open spec fn marker_hash_of(release: Seq<char>) -> Seq<char> {
    hex(sha256_digest(vstd::utf8::encode_utf8(release)).take(6))
}

pub fn marker_hash(release: &str) -> (r: String)
    ensures
        r@ == marker_hash_of(release@),
{
    let digest = sha256(release.as_bytes());
    let ghost d = digest@;
    let mut out: Vec<char> = Vec::new();
    let mut i: usize = 0;
    while i < 6
        invariant
            i <= 6,
            d == digest@,
            d.len() == 32,
            out@ == hex(d.take(i as int)),
        decreases 6 - i,
    {
        assert(d.take(i + 1).drop_last() =~= d.take(i as int));
        let b = digest[i];
        out.push(hex_char(b / 16));
        out.push(hex_char(b % 16));
        assert(out@ =~= hex(d.take(i + 1)));
        i = i + 1;
    }
    string_of(&out)
}

// ------------------------------------------------------------------
// Marker files
// ------------------------------------------------------------------

/// The release's file name (`unknown` when it has none) with every
/// character but ASCII letters, digits, `.`, `_` and `-` replaced by `_`.
pub open spec fn marker_name_of(release: Seq<char>) -> Seq<char> {
    match path_file_name(release) {
        Some(n) => sanitize(n),
        None => sanitize("unknown"@),
    }
}

pub fn marker_name(release: &str) -> (r: String)
    ensures
        r@ == marker_name_of(release@),
{
    match file_name(release) {
        Some(n) => crate::archive::sanitize_name(n.as_str()),
        None => crate::archive::sanitize_name("unknown"),
    }
}

/// `<name>-<hash><suffix>`.
pub open spec fn marker_file_name(release: Seq<char>, suffix: Seq<char>) -> Seq<char> {
    marker_name_of(release) + "-"@ + marker_hash_of(release) + suffix
}

fn marker_file(release: &str, suffix: &str) -> (r: String)
    ensures
        r@ == marker_file_name(release@, suffix@),
{
    let name = marker_name(release);
    let hash = marker_hash(release);
    let mut out: Vec<char> = Vec::new();
    extend_str(&mut out, name.as_str());
    extend_str(&mut out, "-");
    extend_str(&mut out, hash.as_str());
    extend_str(&mut out, suffix);
    string_of(&out)
}

/// The history of processed releases, kept in a directory.
pub struct History {
    directory: String,
}

impl History {
    pub fn new(directory: String) -> (h: History)
        ensures
            h.directory() == directory@,
    {
        History { directory }
    }

    pub closed spec fn directory(&self) -> Seq<char> {
        self.directory@
    }

    /// The directory of the markers.
    pub fn directory_path(&self) -> (r: &str)
        ensures
            r@ == self.directory(),
    {
        self.directory.as_str()
    }

    /// The marker that records that the release was processed.
    pub fn marker_path(&self, release: &str) -> (r: String)
        ensures
            r@ == path_join(self.directory(), marker_file_name(release@, ".done"@)),
    {
        let f = marker_file(release, ".done");
        join(self.directory.as_str(), f.as_str())
    }

    /// The marker that records failed attempts.
    pub fn failed_marker_path(&self, release: &str) -> (r: String)
        ensures
            r@ == path_join(self.directory(), marker_file_name(release@, ".failed"@)),
    {
        let f = marker_file(release, ".failed");
        join(self.directory.as_str(), f.as_str())
    }

    /// Whether the release is recorded as processed, given the paths of
    /// the files that exist in the history directory.
    pub fn is_done(&self, release: &str, existing: &Vec<String>) -> (r: bool)
        ensures
            r == recorded_done(self.directory(), release@, existing@),
    {
        let marker = self.marker_path(release);
        let ghost m = path_join(self.directory(), marker_file_name(release@, ".done"@));
        let mut i: usize = 0;
        while i < existing.len()
            invariant
                i <= existing@.len(),
                marker@ == m,
                m == path_join(self.directory(), marker_file_name(release@, ".done"@)),
                forall|k: int| 0 <= k < i ==> !#[trigger] paths_equal(existing@[k]@, m),
            decreases existing.len() - i,
        {
            if same_path(existing[i].as_str(), marker.as_str()) {
                assert(paths_equal(existing@[i as int]@, m));
                return true;
            }
            i = i + 1;
        }
        false
    }
}

/// Whether the success marker of the release is among the existing files
/// (compared as paths).
pub open spec fn recorded_done(directory: Seq<char>, release: Seq<char>, existing: Seq<String>) -> bool {
    exists|k: int|
        0 <= k < existing.len() && #[trigger] paths_equal(
            existing[k]@,
            path_join(directory, marker_file_name(release, ".done"@)),
        )
}

/// What the marker of a processed release holds.
pub open spec fn done_marker_text(release: Seq<char>) -> Seq<char> {
    "release="@ + release + "\nstatus=done\n"@
}

pub fn done_marker_content(release: &str) -> (r: String)
    ensures
        r@ == done_marker_text(release@),
{
    let mut out: Vec<char> = Vec::new();
    extend_str(&mut out, "release=");
    extend_str(&mut out, release);
    extend_str(&mut out, "\nstatus=done\n");
    string_of(&out)
}

/// What the marker of a failed release holds after `attempts` attempts.
pub open spec fn failed_marker_text(release: Seq<char>, attempts: u64, error: Seq<char>) -> Seq<char> {
    "release="@ + release + "\nstatus=failed\nattempts="@ + dec(attempts as nat) + "\nerror="@
        + error + "\n"@
}

pub fn failed_marker_content(release: &str, attempts: u64, error: &str) -> (r: String)
    ensures
        r@ == failed_marker_text(release@, attempts, error@),
{
    let mut out: Vec<char> = Vec::new();
    extend_str(&mut out, "release=");
    extend_str(&mut out, release);
    extend_str(&mut out, "\nstatus=failed\nattempts=");
    push_dec(&mut out, attempts);
    extend_str(&mut out, "\nerror=");
    extend_str(&mut out, error);
    extend_str(&mut out, "\n");
    string_of(&out)
}

// ------------------------------------------------------------------
// Reading failure markers
// ------------------------------------------------------------------

/// What a trimmed line says of the attempts: `None` when it is no
/// attempts line, else the parse of its value.
pub open spec fn attempts_line(t: Seq<char>) -> Option<Option<u64>> {
    if "attempts="@.is_prefix_of(t) {
        Some(parse_u64(trim(t.skip("attempts="@.len() as int))))
    } else if "attempts:"@.is_prefix_of(t) {
        Some(parse_u64(trim(t.skip("attempts:"@.len() as int))))
    } else if "Fehlversuche:"@.is_prefix_of(t) {
        Some(parse_u64(trim(t.skip("Fehlversuche:"@.len() as int))))
    } else {
        None
    }
}

/// The attempts recorded in a marker: the first attempts line decides.
pub open spec fn attempts_in(ls: Seq<Seq<char>>) -> Option<u64>
    decreases ls.len(),
{
    if ls.len() == 0 {
        None
    } else {
        match attempts_line(trim(ls[0])) {
            Some(r) => r,
            None => attempts_in(ls.drop_first()),
        }
    }
}

/// The value after `prefix`, trimmed and parsed.
fn parse_after(t: &Vec<char>, prefix: &str) -> (r: Option<u64>)
    requires
        prefix@.is_prefix_of(t@),
    ensures
        r == parse_u64(trim(t@.skip(prefix@.len() as int))),
{
    let p = chars_of(prefix);
    let rest = slice_chars(t, p.len(), t.len());
    assert(rest@ =~= t@.skip(prefix@.len() as int));
    let v = trim_chars(&rest);
    parse_u64_chars(&v)
}

/// The attempts recorded in a failure marker.
pub fn parse_attempts(content: &str) -> (r: Option<u64>)
    ensures
        r == attempts_in(lines(content@)),
{
    let text = chars_of(content);
    let ls = split_lines(&text);
    let ghost lv = lines(content@);
    let mut i: usize = 0;
    assert(lv.skip(0) =~= lv);
    while i < ls.len()
        invariant
            i <= ls@.len(),
            ls@.len() == lv.len(),
            lv == lines(content@),
            forall|k: int| 0 <= k < ls@.len() ==> #[trigger] ls@[k]@ == lv[k],
            attempts_in(lv) == attempts_in(lv.skip(i as int)),
        decreases ls.len() - i,
    {
        let ghost rest = lv.skip(i as int);
        assert(rest[0] == lv[i as int]);
        assert(rest.drop_first() =~= lv.skip(i + 1));
        let t = trim_chars(&ls[i]);
        if str_has_prefix(&t, "attempts=") {
            return parse_after(&t, "attempts=");
        }
        if str_has_prefix(&t, "attempts:") {
            return parse_after(&t, "attempts:");
        }
        if str_has_prefix(&t, "Fehlversuche:") {
            return parse_after(&t, "Fehlversuche:");
        }
        i = i + 1;
    }
    None
}

/// The failed attempts of a release, from the content of its failure
/// marker (`None` when there is no marker); unreadable counts as none.
pub open spec fn attempts_recorded(marker_content: Option<&str>) -> u64 {
    match marker_content {
        None => 0,
        Some(c) => match attempts_in(lines(c@)) {
            Some(n) => n,
            None => 0,
        },
    }
}

pub fn failed_attempts(marker_content: Option<&str>) -> (r: u64)
    ensures
        r == attempts_recorded(marker_content),
{
    match marker_content {
        None => 0,
        Some(c) => match parse_attempts(c) {
            Some(n) => n,
            None => 0,
        },
    }
}

/// The failure marker after one more failed attempt: the attempts that
/// the existing marker records (none without a marker) plus one.
pub fn next_failed_marker_content(release: &str, previous: Option<&str>, error: &str) -> (r: String)
    requires
        attempts_recorded(previous) < u64::MAX,
    ensures
        r@ == failed_marker_text(release@, (attempts_recorded(previous) + 1) as u64, error@),
{
    let attempts = failed_attempts(previous) + 1;
    failed_marker_content(release, attempts, error)
}

/// A failed release as the web interface lists it.
pub struct FailureEntry {
    pub marker: String,
    pub path: String,
    pub attempts: u64,
    pub error_class: String,
    pub reason: String,
}

/// The fields of a failure marker, read line by line; a later line wins.
pub struct MarkerFields {
    pub release: Seq<char>,
    pub attempts: u64,
    pub error_class: Seq<char>,
    pub reason: Seq<char>,
}

pub open spec fn fields_step(f: MarkerFields, t: Seq<char>) -> MarkerFields {
    let f1 = if "release="@.is_prefix_of(t) {
        MarkerFields { release: trim(t.skip(8)), ..f }
    } else {
        f
    };
    let f2 = if "attempts="@.is_prefix_of(t) {
        MarkerFields {
            attempts: match parse_u64(trim(t.skip(9))) {
                Some(n) => n,
                None => 0,
            },
            ..f1
        }
    } else {
        f1
    };
    let f3 = if "Fehlerklasse:"@.is_prefix_of(t) {
        MarkerFields { error_class: trim(t.skip(13)), ..f2 }
    } else {
        f2
    };
    if "Grund:"@.is_prefix_of(t) {
        MarkerFields { reason: trim(t.skip(6)), ..f3 }
    } else {
        f3
    }
}

pub open spec fn marker_fields(ls: Seq<Seq<char>>) -> MarkerFields
    decreases ls.len(),
{
    if ls.len() == 0 {
        MarkerFields {
            release: Seq::empty(),
            attempts: 0,
            error_class: "failed"@,
            reason: Seq::empty(),
        }
    } else {
        fields_step(marker_fields(ls.drop_last()), trim(ls.last()))
    }
}

/// A line that is shown as the reason: not empty and not one of the
/// marker's own keys.
pub open spec fn is_reason_line(t: Seq<char>) -> bool {
    t.len() > 0 && !"release="@.is_prefix_of(t) && !"status="@.is_prefix_of(t)
        && !"attempts="@.is_prefix_of(t) && !"error="@.is_prefix_of(t)
}

/// At most 180 characters; a longer text is cut and gets `...`.
pub open spec fn clip_180(t: Seq<char>) -> Seq<char> {
    if t.len() > 180 {
        t.take(180) + "..."@
    } else {
        t
    }
}

/// The first trimmed line that is a reason line, clipped.
pub open spec fn first_reason(ls: Seq<Seq<char>>) -> Option<Seq<char>>
    decreases ls.len(),
{
    if ls.len() == 0 {
        None
    } else if is_reason_line(trim(ls[0])) {
        Some(clip_180(trim(ls[0])))
    } else {
        first_reason(ls.drop_first())
    }
}

pub fn first_non_empty_error_line(content: &str) -> (r: Option<String>)
    ensures
        match r {
            Some(s) => first_reason(lines(content@)) == Some(s@),
            None => first_reason(lines(content@)) is None,
        },
{
    let text = chars_of(content);
    let ls = split_lines(&text);
    let ghost lv = lines(content@);
    let mut i: usize = 0;
    assert(lv.skip(0) =~= lv);
    while i < ls.len()
        invariant
            i <= ls@.len(),
            ls@.len() == lv.len(),
            lv == lines(content@),
            forall|k: int| 0 <= k < ls@.len() ==> #[trigger] ls@[k]@ == lv[k],
            first_reason(lv) == first_reason(lv.skip(i as int)),
        decreases ls.len() - i,
    {
        let ghost rest = lv.skip(i as int);
        assert(rest[0] == lv[i as int]);
        assert(rest.drop_first() =~= lv.skip(i + 1));
        let t = trim_chars(&ls[i]);
        if t.len() > 0 && !str_has_prefix(&t, "release=") && !str_has_prefix(&t, "status=")
            && !str_has_prefix(&t, "attempts=") && !str_has_prefix(&t, "error=") {
            if t.len() > 180 {
                let mut v = slice_chars(&t, 0, 180);
                extend_str(&mut v, "...");
                assert(t@.subrange(0, 180) =~= t@.take(180));
                return Some(string_of(&v));
            }
            return Some(string_of(&t));
        }
        i = i + 1;
    }
    assert(lv.skip(ls@.len() as int) =~= Seq::<Seq<char>>::empty());
    None
}

/// What a failure marker shows: release, attempts, error class and reason;
/// a missing release falls back to the marker's file name, a missing
/// reason to the first reason line, then to `Kein Grund gefunden`.
pub open spec fn failed_marker_summary(content: Seq<char>, fallback_name: Seq<char>) -> (
    Seq<char>,
    u64,
    Seq<char>,
    Seq<char>,
) {
    let f = marker_fields(lines(content));
    let release = if f.release.len() == 0 {
        fallback_name
    } else {
        f.release
    };
    let reason = if f.reason.len() == 0 {
        match first_reason(lines(content)) {
            Some(r) => r,
            None => "Kein Grund gefunden"@,
        }
    } else {
        f.reason
    };
    (release, f.attempts, f.error_class, reason)
}

fn value_after(t: &Vec<char>, n: usize) -> (r: Vec<char>)
    requires
        n <= t@.len(),
    ensures
        r@ == trim(t@.skip(n as int)),
{
    let rest = slice_chars(t, n, t.len());
    assert(rest@ =~= t@.skip(n as int));
    trim_chars(&rest)
}

pub fn parse_failed_marker(content: &str, fallback_name: &str) -> (r: (String, u64, String, String))
    ensures
        (r.0@, r.1, r.2@, r.3@) == failed_marker_summary(content@, fallback_name@),
{
    let text = chars_of(content);
    let ls = split_lines(&text);
    let ghost lv = lines(content@);
    let mut release: Vec<char> = Vec::new();
    let mut attempts: u64 = 0;
    let mut error_class: Vec<char> = chars_of("failed");
    let mut reason: Vec<char> = Vec::new();
    let mut i: usize = 0;
    proof {
        reveal_strlit("failed");
        assert(lv.take(0) =~= Seq::<Seq<char>>::empty());
    }
    while i < ls.len()
        invariant
            i <= ls@.len(),
            ls@.len() == lv.len(),
            lv == lines(content@),
            forall|k: int| 0 <= k < ls@.len() ==> #[trigger] ls@[k]@ == lv[k],
            marker_fields(lv.take(i as int)) == (MarkerFields {
                release: release@,
                attempts,
                error_class: error_class@,
                reason: reason@,
            }),
        decreases ls.len() - i,
    {
        assert(lv.take(i + 1).drop_last() =~= lv.take(i as int));
        assert(lv.take(i + 1).last() == ls@[i as int]@);
        let t = trim_chars(&ls[i]);
        proof {
            reveal_strlit("release=");
            reveal_strlit("attempts=");
            reveal_strlit("Fehlerklasse:");
            reveal_strlit("Grund:");
        }
        if str_has_prefix(&t, "release=") {
            release = value_after(&t, 8);
        }
        if str_has_prefix(&t, "attempts=") {
            let v = value_after(&t, 9);
            attempts = match parse_u64_chars(&v) {
                Some(n) => n,
                None => 0,
            };
        }
        if str_has_prefix(&t, "Fehlerklasse:") {
            error_class = value_after(&t, 13);
        }
        if str_has_prefix(&t, "Grund:") {
            reason = value_after(&t, 6);
        }
        i = i + 1;
    }
    assert(lv.take(lv.len() as int) =~= lv);
    let release = if release.len() == 0 {
        crate::text::copy_str(fallback_name)
    } else {
        string_of(&release)
    };
    let reason = if reason.len() == 0 {
        match first_non_empty_error_line(content) {
            Some(r) => r,
            None => crate::text::copy_str("Kein Grund gefunden"),
        }
    } else {
        string_of(&reason)
    };
    (release, attempts, string_of(&error_class), reason)
}

/// The numbers of success and failure markers among the file names.
pub open spec fn count_suffix(names: Seq<Seq<char>>, suffix: Seq<char>) -> nat
    decreases names.len(),
{
    if names.len() == 0 {
        0
    } else {
        count_suffix(names.drop_last(), suffix) + if suffix.is_suffix_of(names.last()) {
            1nat
        } else {
            0nat
        }
    }
}

proof fn lemma_count_suffix_bound(names: Seq<Seq<char>>, suffix: Seq<char>)
    ensures
        count_suffix(names, suffix) <= names.len(),
    decreases names.len(),
{
    if names.len() > 0 {
        lemma_count_suffix_bound(names.drop_last(), suffix);
    }
}

/// The position of the last `.` of a name, if any.
pub open spec fn is_last_dot(name: Seq<char>, i: int) -> bool {
    0 <= i < name.len() && name[i] == '.' && forall|k: int| i < k < name.len() ==> name[k] != '.'
}

/// `Path::extension` of a file name as std documents it: the part after
/// the last `.`, unless there is no `.` or the only one starts the name.
pub open spec fn name_extension(name: Seq<char>) -> Option<Seq<char>> {
    if exists|i: int| is_last_dot(name, i) && i > 0 {
        let i = choose|i: int| is_last_dot(name, i) && i > 0;
        Some(name.skip(i + 1))
    } else {
        None
    }
}

/// A history marker: a file whose extension is `done` or `failed`.
pub open spec fn marker_path_name(path: Seq<char>) -> bool {
    match path_file_name(path) {
        Some(n) => name_extension(n) == Some("done"@) || name_extension(n) == Some("failed"@),
        None => false,
    }
}

pub fn is_history_marker(path: &str) -> (r: bool)
    ensures
        r == marker_path_name(path@),
{
    let name = match file_name(path) {
        None => {
            return false;
        },
        Some(n) => chars_of(n.as_str()),
    };
    let mut i: usize = name.len();
    while i > 0 && name[i - 1] != '.'
        invariant
            i <= name@.len(),
            forall|k: int| i <= k < name@.len() ==> name@[k] != '.',
        decreases i,
    {
        i = i - 1;
    }
    if i <= 1 {
        proof {
            if exists|j: int| is_last_dot(name@, j) && j > 0 {
                let j = choose|j: int| is_last_dot(name@, j) && j > 0;
                if i == 1 {
                    assert(is_last_dot(name@, 0));
                    assert(name@[j] == '.');
                } else {
                    assert(name@[j] != '.');
                }
            }
        }
        return false;
    }
    let dot = i - 1;
    assert(is_last_dot(name@, dot as int));
    proof {
        let j = choose|j: int| is_last_dot(name@, j) && j > 0;
        if j < dot {
            assert(name@[dot as int] == '.');
        }
        if j > dot {
            assert(name@[j] != '.');
        }
    }
    let ext = crate::text::slice_chars(&name, i, name.len());
    assert(ext@ =~= name@.skip(i as int));
    crate::text::chars_eq(&ext, &chars_of("done")) || crate::text::chars_eq(&ext, &chars_of("failed"))
}

/// How many `.done` and `.failed` markers the history directory holds,
/// from the names of its entries.
pub fn history_counts(names: &Vec<String>) -> (r: (usize, usize))
    ensures
        r.0 == count_suffix(names@.map_values(|s: String| s@), ".done"@),
        r.1 == count_suffix(names@.map_values(|s: String| s@), ".failed"@),
{
    let ghost vs = names@.map_values(|s: String| s@);
    let mut done: usize = 0;
    let mut failed: usize = 0;
    let mut i: usize = 0;
    while i < names.len()
        invariant
            i <= names@.len(),
            vs == names@.map_values(|s: String| s@),
            done == count_suffix(vs.take(i as int), ".done"@),
            failed == count_suffix(vs.take(i as int), ".failed"@),
        decreases names.len() - i,
    {
        assert(vs.take(i + 1).drop_last() =~= vs.take(i as int));
        assert(vs.take(i + 1).last() == names@[i as int]@);
        proof {
            lemma_count_suffix_bound(vs.take(i as int), ".done"@);
            lemma_count_suffix_bound(vs.take(i as int), ".failed"@);
        }
        let n = chars_of(names[i].as_str());
        if str_has_suffix(&n, ".done") {
            done = done + 1;
        }
        if str_has_suffix(&n, ".failed") {
            failed = failed + 1;
        }
        i = i + 1;
    }
    assert(vs.take(names@.len() as int) =~= vs);
    (done, failed)
}

/// A line that names the error class or the reason.
pub open spec fn is_error_line(t: Seq<char>) -> bool {
    "Fehlerklasse:"@.is_prefix_of(t) || "Grund:"@.is_prefix_of(t)
}

/// The first trimmed line that names the error class or reason.
pub open spec fn first_error_class_line(ls: Seq<Seq<char>>) -> Option<Seq<char>>
    decreases ls.len(),
{
    if ls.len() == 0 {
        None
    } else if is_error_line(trim(ls[0])) {
        Some(trim(ls[0]))
    } else {
        first_error_class_line(ls.drop_first())
    }
}

/// The first trimmed line that is not empty.
pub open spec fn first_filled_line(ls: Seq<Seq<char>>) -> Option<Seq<char>>
    decreases ls.len(),
{
    if ls.len() == 0 {
        None
    } else if trim(ls[0]).len() > 0 {
        Some(trim(ls[0]))
    } else {
        first_filled_line(ls.drop_first())
    }
}

/// At most 120 characters; a longer text is cut and gets `...`.
pub open spec fn clip_120(t: Seq<char>) -> Seq<char> {
    if t.len() > 120 {
        t.take(120) + "..."@
    } else {
        t
    }
}

/// The line that the status report shows for a failure marker: the error
/// class or reason line, else the first line that is not empty, clipped.
pub open spec fn status_error_line(content: Seq<char>) -> Option<Seq<char>> {
    match first_error_class_line(lines(content)) {
        Some(l) => Some(l),
        None => match first_filled_line(lines(content)) {
            Some(l) => Some(clip_120(l)),
            None => None,
        },
    }
}

pub fn first_error_line(content: &str) -> (r: Option<String>)
    ensures
        match r {
            Some(s) => status_error_line(content@) == Some(s@),
            None => status_error_line(content@) is None,
        },
{
    let text = chars_of(content);
    let ls = split_lines(&text);
    let ghost lv = lines(content@);
    let mut i: usize = 0;
    assert(lv.skip(0) =~= lv);
    while i < ls.len()
        invariant
            i <= ls@.len(),
            ls@.len() == lv.len(),
            lv == lines(content@),
            forall|k: int| 0 <= k < ls@.len() ==> #[trigger] ls@[k]@ == lv[k],
            first_error_class_line(lv) == first_error_class_line(lv.skip(i as int)),
        decreases ls.len() - i,
    {
        let ghost rest = lv.skip(i as int);
        assert(rest[0] == lv[i as int]);
        assert(rest.drop_first() =~= lv.skip(i + 1));
        let t = trim_chars(&ls[i]);
        if str_has_prefix(&t, "Fehlerklasse:") || str_has_prefix(&t, "Grund:") {
            return Some(string_of(&t));
        }
        i = i + 1;
    }
    assert(lv.skip(ls@.len() as int) =~= Seq::<Seq<char>>::empty());
    let mut j: usize = 0;
    while j < ls.len()
        invariant
            j <= ls@.len(),
            ls@.len() == lv.len(),
            lv == lines(content@),
            forall|k: int| 0 <= k < ls@.len() ==> #[trigger] ls@[k]@ == lv[k],
            first_error_class_line(lv) is None,
            first_filled_line(lv) == first_filled_line(lv.skip(j as int)),
        decreases ls.len() - j,
    {
        let ghost rest = lv.skip(j as int);
        assert(rest[0] == lv[j as int]);
        assert(rest.drop_first() =~= lv.skip(j + 1));
        let t = trim_chars(&ls[j]);
        if t.len() > 0 {
            if t.len() > 120 {
                let mut v = slice_chars(&t, 0, 120);
                extend_str(&mut v, "...");
                assert(t@.subrange(0, 120) =~= t@.take(120));
                return Some(string_of(&v));
            }
            return Some(string_of(&t));
        }
        j = j + 1;
    }
    assert(lv.skip(ls@.len() as int) =~= Seq::<Seq<char>>::empty());
    None
}

/// Writing the success marker (the file at `marker_path`) makes the
/// release count as processed, and files added to the history directory
/// later never undo that.
pub proof fn law_done_after_marker(
    h: History,
    release: Seq<char>,
    existing: Seq<String>,
    marker: String,
    added: Seq<String>,
)
    requires
        marker@ == path_join(h.directory(), marker_file_name(release, ".done"@)),
    ensures
        recorded_done(h.directory(), release, existing.push(marker)),
        recorded_done(h.directory(), release, existing.push(marker) + added),
{
    let written = existing.push(marker);
    let k = existing.len() as int;
    assert(paths_equal(written[k]@, marker@));
    assert(paths_equal((written + added)[k]@, marker@));
}

/// A failure marker reads back the attempts that it records, whatever the
/// error text, for a release path without line breaks: writing the
/// marker after `n` attempts and reading it gives `n`.
pub proof fn law_failed_marker_round_trip(release: Seq<char>, attempts: u64, error: Seq<char>)
    requires
        !release.contains('\n'),
        !release.contains('\r'),
    ensures
        attempts_in(lines(failed_marker_text(release, attempts, error))) == Some(attempts),
{
    reveal_strlit("release=");
    reveal_strlit("\nstatus=failed\nattempts=");
    reveal_strlit("\nerror=");
    reveal_strlit("\n");
    reveal_strlit("attempts=");
    reveal_strlit("attempts:");
    reveal_strlit("Fehlversuche:");
    reveal_strlit("status=failed");
    reveal_strlit("error=");
    let d = dec(attempts as nat);
    crate::text::lemma_dec_parses(attempts as nat);
    let a = "release="@ + release;
    let b = "status=failed"@;
    let c = "attempts="@ + d;
    let rest = "error="@ + error + "\n"@;
    let content = failed_marker_text(release, attempts, error);
    assert("\nstatus=failed\nattempts="@ =~= seq!['\n'] + b + seq!['\n'] + "attempts="@);
    assert("\nerror="@ =~= seq!['\n'] + "error="@);
    assert(content =~= a + seq!['\n'] + (b + seq!['\n'] + (c + seq!['\n'] + rest)));
    assert(!a.contains('\n')) by {
        if a.contains('\n') {
            let k = choose|k: int| 0 <= k < a.len() && a[k] == '\n';
            if k >= 8 {
                assert(release[k - 8] == '\n');
            }
        }
    }
    assert(!b.contains('\n')) by {
        if b.contains('\n') {
            let k = choose|k: int| 0 <= k < b.len() && b[k] == '\n';
        }
    }
    assert(!c.contains('\n')) by {
        if c.contains('\n') {
            let k = choose|k: int| 0 <= k < c.len() && c[k] == '\n';
            if k >= 9 {
                assert(crate::text::is_digit(d[k - 9]));
            }
        }
    }
    crate::text::lemma_lines_concat(c, rest);
    crate::text::lemma_lines_concat(b, c + seq!['\n'] + rest);
    crate::text::lemma_lines_concat(a, b + seq!['\n'] + (c + seq!['\n'] + rest));
    assert(crate::text::strip_cr(a) == a) by {
        if release.len() > 0 {
            assert(a.last() == release.last());
            assert(release[release.len() - 1] == release.last());
        }
    }
    assert(crate::text::strip_cr(b) == b);
    assert(crate::text::strip_cr(c) == c) by {
        assert(c.last() == d.last());
        assert(crate::text::is_digit(d[d.len() - 1]));
    }
    let ls = lines(content);
    let tail = lines(rest);
    assert(ls =~= seq![a, b, c] + tail);
    crate::text::lemma_trim_keeps_first(a);
    crate::text::lemma_trim_clean(b);
    assert(crate::text::is_digit(d[d.len() - 1]));
    assert(c.last() == d[d.len() - 1]);
    crate::text::lemma_trim_clean(c);
    let ta = trim(a);
    assert(ta[0] == 'r');
    assert(!"attempts="@.is_prefix_of(ta)) by {
        if "attempts="@.is_prefix_of(ta) {
            assert(ta.subrange(0, 9)[0] == ta[0]);
        }
    }
    assert(!"attempts:"@.is_prefix_of(ta)) by {
        if "attempts:"@.is_prefix_of(ta) {
            assert(ta.subrange(0, 9)[0] == ta[0]);
        }
    }
    assert(!"Fehlversuche:"@.is_prefix_of(ta)) by {
        if "Fehlversuche:"@.is_prefix_of(ta) {
            assert(ta.subrange(0, 13)[0] == ta[0]);
        }
    }
    assert(attempts_line(trim(a)) is None);
    assert(!"attempts="@.is_prefix_of(b)) by {
        if "attempts="@.is_prefix_of(b) {
            assert(b.subrange(0, 9)[0] == b[0]);
        }
    }
    assert(!"attempts:"@.is_prefix_of(b)) by {
        if "attempts:"@.is_prefix_of(b) {
            assert(b.subrange(0, 9)[0] == b[0]);
        }
    }
    assert(!"Fehlversuche:"@.is_prefix_of(b)) by {
        if "Fehlversuche:"@.is_prefix_of(b) {
            assert(b.subrange(0, 13)[0] == b[0]);
        }
    }
    assert(attempts_line(trim(b)) is None);
    assert(c.skip(9) =~= d);
    assert(crate::text::is_digit(d[0]));
    crate::text::lemma_trim_clean(d);
    assert(parse_u64(d) == Some(attempts));
    assert(attempts_line(trim(c)) == Some(Some(attempts)));
    assert(ls[0] == a);
    assert(ls.drop_first() =~= seq![b, c] + tail);
    assert(ls.drop_first()[0] == b);
    assert(ls.drop_first().drop_first() =~= seq![c] + tail);
    assert(ls.drop_first().drop_first()[0] == c);
    assert(attempts_in(ls.drop_first().drop_first()) == Some(attempts));
    assert(attempts_in(ls.drop_first()) == Some(attempts));
    assert(attempts_in(ls) == Some(attempts));
}

// ------------------------------------------------------------------
// The failure list of the web interface
// ------------------------------------------------------------------

/// A failure marker file of the history directory.
pub struct FailedMarkerFile {
    pub path: String,
    pub file_name: String,
    pub modified: crate::backups::Timestamp,
    /// The content; empty when it could not be read.
    pub content: String,
}

/// A failure entry with the time of its marker.
pub struct TimedFailure {
    pub modified: crate::backups::Timestamp,
    pub entry: FailureEntry,
}

/// Whether `a` is at least as new as `b`.
pub open spec fn not_older(a: crate::backups::Timestamp, b: crate::backups::Timestamp) -> bool {
    !crate::backups::earlier(a, b)
}

/// The entry that a marker file yields.
pub open spec fn entry_of(m: FailedMarkerFile, e: FailureEntry) -> bool {
    let (release, attempts, class, reason) = failed_marker_summary(m.content@, m.file_name@);
    &&& e.marker@ == m.path@
    &&& e.path@ == release
    &&& e.attempts == attempts
    &&& e.error_class@ == class
    &&& e.reason@ == reason
}

/// The failure markers among the files (names ending in `.failed`).
pub open spec fn failure_markers(ms: Seq<FailedMarkerFile>) -> Seq<FailedMarkerFile>
    decreases ms.len(),
{
    if ms.len() == 0 {
        Seq::empty()
    } else {
        let prev = failure_markers(ms.drop_last());
        if ".failed"@.is_suffix_of(ms.last().file_name@) {
            prev.push(ms.last())
        } else {
            prev
        }
    }
}

/// Newest first.
pub open spec fn newest_first(ts: Seq<crate::backups::Timestamp>) -> bool {
    forall|i: int, j: int| 0 <= i < j < ts.len() ==> #[trigger] not_older(ts[i], ts[j])
}

pub open spec fn times(fs: Seq<TimedFailure>) -> Seq<crate::backups::Timestamp> {
    fs.map_values(|f: TimedFailure| f.modified)
}

/// `order` lists every marker once, newest first.
pub open spec fn newest_arrangement(ms: Seq<FailedMarkerFile>, order: Seq<int>) -> bool {
    &&& order.len() == ms.len()
    &&& order.no_duplicates()
    &&& forall|k: int| 0 <= k < order.len() ==> 0 <= #[trigger] order[k] < ms.len()
    &&& forall|a: int, b: int|
        0 <= a < b < order.len() ==> #[trigger] not_older(ms[order[a]].modified, ms[order[b]].modified)
    &&& forall|a: int, b: int|
        0 <= a < b < order.len() && ms[order[a]].modified == ms[order[b]].modified ==> #[trigger] order[a]
            < #[trigger] order[b]
}

proof fn lemma_failure_markers_len(ms: Seq<FailedMarkerFile>)
    ensures
        failure_markers(ms).len() <= ms.len(),
    decreases ms.len(),
{
    if ms.len() > 0 {
        lemma_failure_markers_len(ms.drop_last());
    }
}

/// The failures of the history directory, newest first, at most `limit`:
/// each failure marker is read (see `parse_failed_marker`), the markers are
/// ordered by modification time, newest first, and the first `limit` are
/// kept.
pub fn failure_entries(files: &Vec<FailedMarkerFile>, limit: usize) -> (r: Vec<TimedFailure>)
    ensures
        r@.len() == if limit < failure_markers(files@).len() {
            limit as int
        } else {
            failure_markers(files@).len() as int
        },
        newest_first(times(r@)),
        exists|order: Seq<int>|
            #![trigger order.len()]
            newest_arrangement(failure_markers(files@), order) && (forall|k: int|
                0 <= k < r@.len() ==> r@[k].modified == failure_markers(files@)[order[k]].modified
                    && entry_of(failure_markers(files@)[order[k]], #[trigger] r@[k].entry)),
{
    let ghost ms = failure_markers(files@);
    let mut sorted: Vec<TimedFailure> = Vec::new();
    let ghost mut order: Seq<int> = Seq::empty();
    let mut count: usize = 0;
    let mut i: usize = 0;
    while i < files.len()
        invariant
            i <= files@.len(),
            ms == failure_markers(files@),
            count == failure_markers(files@.take(i as int)).len(),
            count == sorted@.len(),
            count <= i,
            newest_first(times(sorted@)),
            order.len() == count,
            order.no_duplicates(),
            forall|a: int, b: int|
                0 <= a < b < sorted@.len() && sorted@[a].modified == sorted@[b].modified
                    ==> #[trigger] order[a] < #[trigger] order[b],
            forall|k: int| 0 <= k < order.len() ==> 0 <= #[trigger] order[k] < count,
            forall|k: int|
                0 <= k < sorted@.len() ==> (#[trigger] sorted@[k]).modified == failure_markers(
                    files@.take(i as int),
                )[order[k]].modified && entry_of(
                    failure_markers(files@.take(i as int))[order[k]],
                    sorted@[k].entry,
                ),
        decreases files.len() - i,
    {
        let ghost prefix = files@.take(i as int);
        let ghost fm = failure_markers(prefix);
        assert(files@.take(i + 1).drop_last() =~= prefix);
        assert(files@.take(i + 1).last() == files@[i as int]);
        proof {
            lemma_failure_markers_len(prefix);
        }
        let f = &files[i];
        let name = crate::text::chars_of(f.file_name.as_str());
        if str_has_suffix(&name, ".failed") {
            let (path, attempts, error_class, reason) = parse_failed_marker(
                f.content.as_str(),
                f.file_name.as_str(),
            );
            let entry = FailureEntry {
                marker: f.path.clone(),
                path,
                attempts,
                error_class,
                reason,
            };
            let m = f.modified;
            let ghost tv = times(sorted@);
            let mut p: usize = 0;
            let mut found = false;
            while !found && p < sorted.len()
                invariant
                    p <= sorted@.len(),
                    tv == times(sorted@),
                    found ==> p < sorted@.len() && crate::backups::earlier(tv[p as int], m),
                    forall|k: int| 0 <= k < p ==> !crate::backups::earlier(#[trigger] tv[k], m),
                decreases sorted.len() - p + (if found { 0int } else { 1int }),
            {
                let t = sorted[p].modified;
                if t.secs < m.secs || (t.secs == m.secs && t.nanos < m.nanos) {
                    found = true;
                } else {
                    p = p + 1;
                }
            }
            let ghost before = sorted@;
            sorted.insert(p, TimedFailure { modified: m, entry });
            proof {
                before.insert_ensures(p as int, sorted@[p as int]);
                assert(sorted@ =~= before.insert(p as int, sorted@[p as int]));
                let nt = times(sorted@);
                assert(nt =~= tv.insert(p as int, m));
                assert forall|a: int, b: int| 0 <= a < b < nt.len() implies #[trigger] not_older(
                    nt[a],
                    nt[b],
                ) by {
                    let pi = p as int;
                    if a < pi {
                        assert(nt[a] == tv[a]);
                    } else if a == pi {
                        assert(nt[a] == m);
                    } else {
                        assert(nt[a] == tv[a - 1]);
                    }
                    if b < pi {
                        assert(nt[b] == tv[b]);
                    } else if b == pi {
                        assert(nt[b] == m);
                    } else {
                        assert(nt[b] == tv[b - 1]);
                    }
                    if a < pi && b == pi {
                    } else if a == pi && b > pi {
                        if b - 1 > pi {
                            assert(not_older(tv[pi], tv[b - 1]));
                        }
                        if crate::backups::earlier(m, nt[b]) {
                            if b - 1 > pi && crate::backups::earlier(tv[pi], tv[b - 1]) {
                            }
                        }
                    } else if a < pi && b > pi {
                        assert(not_older(tv[a], tv[b - 1]));
                    } else if a > pi {
                        assert(not_older(tv[a - 1], tv[b - 1]));
                    } else {
                        assert(not_older(tv[a], tv[b]));
                    }
                }
                let new_fm = failure_markers(files@.take(i + 1));
                assert(new_fm == fm.push(files@[i as int]));
                let old_order = order;
                order = old_order.insert(p as int, count as int);
                assert forall|k: int| 0 <= k < order.len() implies 0 <= #[trigger] order[k] < count + 1 by {
                    if k < p {
                        assert(order[k] == old_order[k]);
                    } else if k > p {
                        assert(order[k] == old_order[k - 1]);
                    }
                }
                assert(order.no_duplicates()) by {
                    assert forall|x: int, y: int| 0 <= x < order.len() && 0 <= y < order.len() && x != y
                        implies order[x] != order[y] by {
                        let pi = p as int;
                        if x != pi && y != pi {
                            let ox = if x < pi { x } else { x - 1 };
                            let oy = if y < pi { y } else { y - 1 };
                            assert(order[x] == old_order[ox]);
                            assert(order[y] == old_order[oy]);
                        } else if x == pi {
                            let oy = if y < pi { y } else { y - 1 };
                            assert(order[y] == old_order[oy]);
                        } else {
                            let ox = if x < pi { x } else { x - 1 };
                            assert(order[x] == old_order[ox]);
                        }
                    }
                }
                assert forall|a: int, b: int|
                    0 <= a < b < sorted@.len() && sorted@[a].modified == sorted@[b].modified implies
                    #[trigger] order[a] < #[trigger] order[b] by {
                    let pi = p as int;
                    if a != pi && b != pi {
                        let oa = if a < pi { a } else { a - 1 };
                        let ob = if b < pi { b } else { b - 1 };
                        assert(order[a] == old_order[oa]);
                        assert(order[b] == old_order[ob]);
                        assert(sorted@[a] == before[oa]);
                        assert(sorted@[b] == before[ob]);
                    } else if a == pi {
                        assert(sorted@[b] == before[b - 1]);
                        assert(tv[b - 1] == before[b - 1].modified);
                        if b - 1 > pi {
                            assert(not_older(tv[pi], tv[b - 1]));
                        }
                        assert(crate::backups::earlier(tv[pi], m));
                    } else {
                        assert(order[a] == old_order[a]);
                        assert(order[b] == count);
                    }
                }
                assert forall|k: int| 0 <= k < sorted@.len() implies sorted@[k].modified == new_fm[order[k]].modified
                    && entry_of(new_fm[order[k]], #[trigger] sorted@[k].entry) by {
                    let pi = p as int;
                    if k < pi {
                        assert(sorted@[k] == before[k]);
                        assert(order[k] == old_order[k]);
                        assert(new_fm[old_order[k]] == fm[old_order[k]]);
                        assert(entry_of(fm[old_order[k]], before[k].entry));
                    } else if k > pi {
                        assert(sorted@[k] == before[k - 1]);
                        assert(order[k] == old_order[k - 1]);
                        assert(new_fm[old_order[k - 1]] == fm[old_order[k - 1]]);
                        assert(entry_of(fm[old_order[k - 1]], before[k - 1].entry));
                    } else {
                        assert(order[k] == count);
                        assert(new_fm[count as int] == files@[i as int]);
                    }
                }
            }
            count = count + 1;
        } else {
            assert(failure_markers(files@.take(i + 1)) == fm);
            assert forall|k: int| 0 <= k < sorted@.len() implies (#[trigger] sorted@[k]).modified
                == failure_markers(files@.take(i + 1))[order[k]].modified && entry_of(
                failure_markers(files@.take(i + 1))[order[k]],
                sorted@[k].entry,
            ) by {
                assert(sorted@[k].modified == fm[order[k]].modified);
            }
        }
        i = i + 1;
    }
    assert(files@.take(files@.len() as int) =~= files@);
    let ghost full = sorted@;
    if limit < sorted.len() {
        sorted.truncate(limit);
        assert(sorted@ =~= full.subrange(0, limit as int));
    }
    proof {
        assert forall|a: int, b: int| 0 <= a < b < times(sorted@).len() implies #[trigger] not_older(
            times(sorted@)[a],
            times(sorted@)[b],
        ) by {
            assert(times(sorted@)[a] == times(full)[a]);
            assert(times(sorted@)[b] == times(full)[b]);
        }
        assert forall|a: int, b: int| 0 <= a < b < order.len() implies #[trigger] not_older(
            ms[order[a]].modified,
            ms[order[b]].modified,
        ) by {
            assert(times(full)[a] == full[a].modified);
            assert(times(full)[b] == full[b].modified);
            assert(not_older(times(full)[a], times(full)[b]));
            assert(full[a].modified == ms[order[a]].modified);
            assert(full[b].modified == ms[order[b]].modified);
        }
        assert forall|k: int| 0 <= k < sorted@.len() implies sorted@[k].modified == ms[order[k]].modified
            && entry_of(ms[order[k]], #[trigger] sorted@[k].entry) by {
            assert(sorted@[k] == full[k]);
            assert(entry_of(ms[order[k]], full[k].entry));
        }
        assert forall|a: int, b: int|
            0 <= a < b < order.len() && ms[order[a]].modified == ms[order[b]].modified implies
            #[trigger] order[a] < #[trigger] order[b] by {
            assert(full[a].modified == ms[order[a]].modified);
            assert(full[b].modified == ms[order[b]].modified);
        }
        assert(newest_arrangement(ms, order));
        assert(order.len() == ms.len());
    }
    sorted
}

} // verus!
