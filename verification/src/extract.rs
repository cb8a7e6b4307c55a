//! What processing a release does: the archive to start with, the target
//! directory, the archive files to clean up afterwards, the tar options,
//! and the cleanup decisions.
use crate::archive::{
    belongs_to_cleanup_group, cleanup_group_prefix, group_prefix, in_group, is_archive_name,
    is_archive_start_file, is_archive_start_name, is_tar_archive_name, is_tar_name, sanitize,
    sanitize_name,
};
use crate::paths::{
    components, file_name, join, parent, part_key, part_view, path_components, path_file_name,
    path_join, path_parent, paths_equal, same_path, PathPart,
};
use crate::text::{chars_of, extend_str, lowercase, str_has_suffix, string_of, to_lowercase};
use vstd::multiset::Multiset;
use vstd::prelude::*;

verus! {

// ------------------------------------------------------------------
// The order of paths
// ------------------------------------------------------------------

/// Lexicographic order of the characters (the order of the UTF-8 bytes,
/// in which `Path` orders the names of two components).
pub open spec fn lex_lt(a: Seq<char>, b: Seq<char>) -> bool
    decreases a.len(),
{
    if a.len() == 0 {
        b.len() > 0
    } else if b.len() == 0 {
        false
    } else if (a[0] as u32) < (b[0] as u32) {
        true
    } else if a[0] != b[0] {
        false
    } else {
        lex_lt(a.drop_first(), b.drop_first())
    }
}

/// How `Component` orders two parts: by kind, then by name.
pub open spec fn part_lt(a: (u8, Seq<char>), b: (u8, Seq<char>)) -> bool {
    a.0 < b.0 || (a.0 == b.0 && lex_lt(a.1, b.1))
}

/// Lexicographic order of two sequences of parts.
pub open spec fn parts_lt(a: Seq<(u8, Seq<char>)>, b: Seq<(u8, Seq<char>)>) -> bool
    decreases a.len(),
{
    if a.len() == 0 {
        b.len() > 0
    } else if b.len() == 0 {
        false
    } else if part_lt(a[0], b[0]) {
        true
    } else if a[0] != b[0] {
        false
    } else {
        parts_lt(a.drop_first(), b.drop_first())
    }
}

/// The order of `Path`s: that of their components.
pub open spec fn path_lt(a: Seq<char>, b: Seq<char>) -> bool {
    parts_lt(path_components(a), path_components(b))
}

pub open spec fn path_le(a: Seq<char>, b: Seq<char>) -> bool {
    !path_lt(b, a)
}

proof fn lemma_parts_lt_transitive(a: Seq<(u8, Seq<char>)>, b: Seq<(u8, Seq<char>)>, c: Seq<(u8, Seq<char>)>)
    requires
        parts_lt(a, b),
        parts_lt(b, c),
    ensures
        parts_lt(a, c),
    decreases a.len(),
{
    if a.len() > 0 && b.len() > 0 && c.len() > 0 {
        if part_lt(a[0], b[0]) && part_lt(b[0], c[0]) && a[0].0 == b[0].0 && b[0].0 == c[0].0 {
            lemma_lex_lt_transitive(a[0].1, b[0].1, c[0].1);
        }
        if a[0] == b[0] && b[0] == c[0] {
            lemma_lex_lt_irreflexive(a[0].1);
            lemma_parts_lt_transitive(a.drop_first(), b.drop_first(), c.drop_first());
        }
    }
}

proof fn lemma_parts_lt_irreflexive(a: Seq<(u8, Seq<char>)>)
    ensures
        !parts_lt(a, a),
    decreases a.len(),
{
    if a.len() > 0 {
        lemma_lex_lt_irreflexive(a[0].1);
        lemma_parts_lt_irreflexive(a.drop_first());
    }
}

pub proof fn lemma_path_lt_transitive(a: Seq<char>, b: Seq<char>, c: Seq<char>)
    requires
        path_lt(a, b),
        path_lt(b, c),
    ensures
        path_lt(a, c),
{
    lemma_parts_lt_transitive(path_components(a), path_components(b), path_components(c));
}

pub proof fn lemma_path_lt_irreflexive(a: Seq<char>)
    ensures
        !path_lt(a, a),
{
    lemma_parts_lt_irreflexive(path_components(a));
}

/// Whether `a` comes before `b` in the order of `Path`s, decided part by
/// part.
pub fn path_less(a: &str, b: &str) -> (r: bool)
    ensures
        r == path_lt(a@, b@),
{
    let pa = components(a);
    let pb = components(b);
    let ghost ca = path_components(a@);
    let ghost cb = path_components(b@);
    let mut i: usize = 0;
    assert(ca.skip(0) =~= ca);
    assert(cb.skip(0) =~= cb);
    loop
        invariant
            pa@.map_values(|c: PathPart| part_view(c)) == ca,
            pb@.map_values(|c: PathPart| part_view(c)) == cb,
            ca == path_components(a@),
            cb == path_components(b@),
            i <= ca.len(),
            i <= cb.len(),
            path_lt(a@, b@) == parts_lt(ca.skip(i as int), cb.skip(i as int)),
        decreases pa.len() - i,
    {
        if i == pa.len() {
            return i < pb.len();
        }
        if i == pb.len() {
            return false;
        }
        let ka = part_key(&pa[i]);
        let kb = part_key(&pb[i]);
        let ghost sa = ca.skip(i as int);
        let ghost sb = cb.skip(i as int);
        assert(sa[0] == ca[i as int] && ca[i as int] == part_view(pa@[i as int]));
        assert(sb[0] == cb[i as int] && cb[i as int] == part_view(pb@[i as int]));
        if ka.0 < kb.0 {
            return true;
        }
        if ka.0 > kb.0 {
            return false;
        }
        let na = chars_of(ka.1.as_str());
        let nb = chars_of(kb.1.as_str());
        if lex_less(&na, &nb) {
            return true;
        }
        if !crate::text::str_eq(ka.1.as_str(), kb.1.as_str()) {
            return false;
        }
        assert(sa[0] == sb[0]);
        assert(sa.drop_first() =~= ca.skip(i + 1));
        assert(sb.drop_first() =~= cb.skip(i + 1));
        i = i + 1;
    }
}

pub proof fn lemma_lex_lt_transitive(a: Seq<char>, b: Seq<char>, c: Seq<char>)
    requires
        lex_lt(a, b),
        lex_lt(b, c),
    ensures
        lex_lt(a, c),
    decreases a.len(),
{
    if a.len() > 0 && b.len() > 0 && c.len() > 0 && a[0] == b[0] && b[0] == c[0] {
        lemma_lex_lt_transitive(a.drop_first(), b.drop_first(), c.drop_first());
    }
}

fn lex_less(a: &Vec<char>, b: &Vec<char>) -> (r: bool)
    ensures
        r == lex_lt(a@, b@),
{
    let mut i: usize = 0;
    assert(a@.skip(0) =~= a@);
    assert(b@.skip(0) =~= b@);
    while i < a.len() && i < b.len() && a[i] == b[i]
        invariant
            i <= a@.len(),
            i <= b@.len(),
            lex_lt(a@, b@) == lex_lt(a@.skip(i as int), b@.skip(i as int)),
        decreases a.len() - i,
    {
        assert(a@.skip(i as int).drop_first() =~= a@.skip(i + 1));
        assert(b@.skip(i as int).drop_first() =~= b@.skip(i + 1));
        i = i + 1;
    }
    if i == a.len() {
        return i < b.len();
    }
    if i == b.len() {
        return false;
    }
    assert(a@.skip(i as int)[0] == a@[i as int]);
    assert(b@.skip(i as int)[0] == b@[i as int]);
    (a[i] as u32) < (b[i] as u32)
}

pub open spec fn path_views(v: Seq<String>) -> Seq<Seq<char>> {
    v.map_values(|s: String| s@)
}

/// Each path is at most the paths after it.
pub open spec fn sorted_paths(s: Seq<Seq<char>>) -> bool {
    forall|i: int, j: int| 0 <= i < j < s.len() ==> #[trigger] path_le(s[i], s[j])
}

/// The paths in ascending order.
pub fn sort_paths(v: &Vec<String>) -> (r: Vec<String>)
    ensures
        sorted_paths(path_views(r@)),
        path_views(r@).to_multiset() == path_views(v@).to_multiset(),
{
    let ghost vv = path_views(v@);
    let mut r: Vec<String> = Vec::new();
    let mut i: usize = 0;
    assert(vv.take(0) =~= Seq::<Seq<char>>::empty());
    assert(path_views(r@) =~= Seq::<Seq<char>>::empty());
    while i < v.len()
        invariant
            i <= v@.len(),
            vv == path_views(v@),
            sorted_paths(path_views(r@)),
            path_views(r@).to_multiset() == vv.take(i as int).to_multiset(),
        decreases v.len() - i,
    {
        let x = v[i].as_str();
        let ghost rv = path_views(r@);
        let mut p: usize = 0;
        let mut found = false;
        while !found && p < r.len()
            invariant
                p <= r@.len(),
                rv == path_views(r@),
                found ==> p < r@.len() && path_lt(x@, rv[p as int]),
                forall|k: int| 0 <= k < p ==> !path_lt(x@, #[trigger] rv[k]),
            decreases r.len() - p + (if found { 0int } else { 1int }),
        {
            assert(rv[p as int] == r@[p as int]@);
            if path_less(x, r[p].as_str()) {
                found = true;
            } else {
                p = p + 1;
            }
        }
        assert(p < r@.len() ==> path_lt(x@, rv[p as int]));
        let item = v[i].clone();
        r.insert(p, item);
        let ghost nv = rv.insert(p as int, x@);
        assert(path_views(r@) =~= nv);
        assert(sorted_paths(nv)) by {
            assert forall|a: int, b: int| 0 <= a < b < nv.len() implies #[trigger] path_le(
                nv[a],
                nv[b],
            ) by {
                let pi = p as int;
                if a < pi {
                    assert(nv[a] == rv[a]);
                } else if a == pi {
                    assert(nv[a] == x@);
                } else {
                    assert(nv[a] == rv[a - 1]);
                }
                if b < pi {
                    assert(nv[b] == rv[b]);
                } else if b == pi {
                    assert(nv[b] == x@);
                } else {
                    assert(nv[b] == rv[b - 1]);
                }
                if a < pi && b == pi {
                    assert(!path_lt(x@, rv[a]));
                } else if a == pi && b > pi {
                    if path_lt(nv[b], x@) {
                        if b - 1 > pi {
                            assert(path_le(rv[pi], rv[b - 1]));
                        }
                        lemma_path_lt_transitive(nv[b], x@, rv[pi]);
                        lemma_path_lt_irreflexive(rv[pi]);
                    }
                } else if a < pi && b > pi {
                    assert(path_le(rv[a], rv[b - 1]));
                } else if a > pi {
                    assert(path_le(rv[a - 1], rv[b - 1]));
                } else {
                    assert(path_le(rv[a], rv[b]));
                }
            }
        }
        proof {
            vstd::seq_lib::to_multiset_insert(rv, p as int, x@);
            assert(vv.take(i + 1) =~= vv.take(i as int).push(vv[i as int]));
            vstd::seq_lib::to_multiset_build(vv.take(i as int), vv[i as int]);
        }
        i = i + 1;
    }
    assert(vv.take(v@.len() as int) =~= vv);
    r
}

// ------------------------------------------------------------------
// Directory listings
// ------------------------------------------------------------------

/// An entry of a directory, and whether it is a regular file.
pub struct DirEntry {
    pub path: String,
    pub is_regular_file: bool,
}

pub open spec fn start_file(p: Seq<char>) -> bool {
    match path_file_name(p) {
        Some(n) => is_archive_start_name(n),
        None => false,
    }
}

pub open spec fn archive_file(p: Seq<char>) -> bool {
    match path_file_name(p) {
        Some(n) => is_archive_name(n),
        None => false,
    }
}

/// The paths of the entries that are regular files and pass the test.
pub open spec fn regular_where(es: Seq<DirEntry>, keep: spec_fn(Seq<char>) -> bool) -> Seq<Seq<char>>
    decreases es.len(),
{
    if es.len() == 0 {
        Seq::empty()
    } else {
        let prev = regular_where(es.drop_last(), keep);
        let e = es.last();
        if e.is_regular_file && keep(e.path@) {
            prev.push(e.path@)
        } else {
            prev
        }
    }
}

/// Collects the regular files whose path passes the test; `keep` is the
/// test as a function of the library (of `KeepRule`).
fn collect_regular(es: &Vec<DirEntry>, rule: &KeepRule) -> (r: Vec<String>)
    ensures
        path_views(r@) == regular_where(es@, rule.spec_keep()),
{
    let ghost keep = rule.spec_keep();
    let mut out: Vec<String> = Vec::new();
    let mut i: usize = 0;
    assert(path_views(out@) =~= regular_where(es@.take(0), keep));
    while i < es.len()
        invariant
            i <= es@.len(),
            keep == rule.spec_keep(),
            path_views(out@) == regular_where(es@.take(i as int), keep),
        decreases es.len() - i,
    {
        assert(es@.take(i + 1).drop_last() =~= es@.take(i as int));
        assert(es@.take(i + 1).last() == es@[i as int]);
        let e = &es[i];
        if e.is_regular_file && rule.keep(e.path.as_str()) {
            let ghost before = path_views(out@);
            out.push(e.path.clone());
            assert(path_views(out@) =~= before.push(e.path@));
        }
        i = i + 1;
    }
    assert(es@.take(es@.len() as int) =~= es@);
    out
}

/// Which files of a listing are kept.
pub enum KeepRule {
    /// Files that start an archive.
    StartFiles,
    /// Archive volumes.
    ArchiveFiles,
    /// Archive volumes of the set named by the prefix.
    GroupOf(String),
}

pub open spec fn group_file(p: Seq<char>, prefix: Seq<char>) -> bool {
    match path_file_name(p) {
        Some(n) => is_archive_name(n) && in_group(lowercase(n), lowercase(prefix)),
        None => false,
    }
}

impl KeepRule {
    pub open spec fn spec_keep(&self) -> spec_fn(Seq<char>) -> bool {
        match self {
            KeepRule::StartFiles => |p: Seq<char>| start_file(p),
            KeepRule::ArchiveFiles => |p: Seq<char>| archive_file(p),
            KeepRule::GroupOf(g) => |p: Seq<char>| group_file(p, g@),
        }
    }

    fn keep(&self, path: &str) -> (r: bool)
        ensures
            r == (self.spec_keep())(path@),
    {
        match self {
            KeepRule::StartFiles => is_archive_start_file(path),
            KeepRule::ArchiveFiles => crate::archive::is_archive_related_file(path),
            KeepRule::GroupOf(g) => match file_name(path) {
                None => false,
                Some(n) => crate::archive::is_archive_file_name(n.as_str())
                    && belongs_to_cleanup_group(n.as_str(), g.as_str()),
            },
        }
    }
}

/// The first (least) path of those that pass, as a sorted listing would
/// show it.
pub open spec fn least_of(r: Option<String>, cands: Seq<Seq<char>>) -> bool {
    match r {
        None => cands.len() == 0,
        Some(c) => cands.contains(c@) && forall|k: int| 0 <= k < cands.len() ==> path_le(
            c@,
            #[trigger] cands[k],
        ),
    }
}

/// The file that starts the archive in a release directory: of the
/// regular files that start an archive, the first in path order.
pub fn find_archive_start_in_dir(entries: &Vec<DirEntry>) -> (r: Option<String>)
    ensures
        least_of(r, regular_where(entries@, |p: Seq<char>| start_file(p))),
{
    let rule = KeepRule::StartFiles;
    let cands = collect_regular(entries, &rule);
    let sorted = sort_paths(&cands);
    let ghost cv = path_views(cands@);
    let ghost sv = path_views(sorted@);
    assert(rule.spec_keep() == |p: Seq<char>| start_file(p));
    if sorted.len() == 0 {
        proof {
            broadcast use vstd::seq_lib::group_to_multiset_ensures;
            assert(sv.len() == 0);
            assert(sv.to_multiset().len() == 0);
            assert(cv.to_multiset().len() == cv.len());
        }
        return None;
    }
    proof {
        broadcast use vstd::seq_lib::group_to_multiset_ensures;
        assert(sv.to_multiset().contains(sv[0]));
        assert(cv.contains(sv[0]));
        assert forall|k: int| 0 <= k < cv.len() implies path_le(sv[0], #[trigger] cv[k]) by {
            assert(cv.to_multiset().contains(cv[k]));
            assert(sv.contains(cv[k]));
            let j = choose|j: int| 0 <= j < sv.len() && sv[j] == cv[k];
            if j > 0 {
                assert(path_le(sv[0], sv[j]));
            } else {
                assert(!path_lt(sv[0], sv[0])) by {
                    lemma_path_lt_irreflexive(sv[0]);
                }
            }
        }
    }
    Some(sorted[0].clone())
}

pub proof fn lemma_lex_lt_irreflexive(a: Seq<char>)
    ensures
        !lex_lt(a, a),
    decreases a.len(),
{
    if a.len() > 0 {
        lemma_lex_lt_irreflexive(a.drop_first());
    }
}

/// The archive files of a release directory, in path order.
pub fn find_cleanup_files_in_dir(entries: &Vec<DirEntry>) -> (r: Vec<String>)
    ensures
        sorted_paths(path_views(r@)),
        path_views(r@).to_multiset() == regular_where(entries@, |p: Seq<char>| archive_file(p)).to_multiset(),
{
    let rule = KeepRule::ArchiveFiles;
    let files = collect_regular(entries, &rule);
    assert(rule.spec_keep() == |p: Seq<char>| archive_file(p));
    sort_paths(&files)
}

/// Why no plan can be made for a release.
#[derive(Debug)]
pub enum PlanError {
    NoArchive(String),
    NoParent(String),
    NoFileName(String),
    UnsupportedTar(String),
}

impl PlanError {
    pub fn message(&self) -> (r: String)
        ensures
            r@ == match self {
                PlanError::NoArchive(d) => "Kein unterstütztes Archiv gefunden in "@ + d@,
                PlanError::NoParent(p) => "Archiv hat keinen Parent: "@ + p@,
                PlanError::NoFileName(p) => "Archiv hat keinen Dateinamen: "@ + p@,
                PlanError::UnsupportedTar(p) => "Nicht unterstütztes TAR-Format: "@ + p@,
            },
    {
        let mut out: Vec<char> = Vec::new();
        match self {
            PlanError::NoArchive(d) => {
                extend_str(&mut out, "Kein unterstütztes Archiv gefunden in ");
                extend_str(&mut out, d.as_str());
            },
            PlanError::NoParent(p) => {
                extend_str(&mut out, "Archiv hat keinen Parent: ");
                extend_str(&mut out, p.as_str());
            },
            PlanError::NoFileName(p) => {
                extend_str(&mut out, "Archiv hat keinen Dateinamen: ");
                extend_str(&mut out, p.as_str());
            },
            PlanError::UnsupportedTar(p) => {
                extend_str(&mut out, "Nicht unterstütztes TAR-Format: ");
                extend_str(&mut out, p.as_str());
            },
        }
        string_of(&out)
    }
}

/// The archive files of the set that a flat archive belongs to, from the
/// listing of its directory, in path order.
pub fn find_related_flat_cleanup_files(archive: &str, entries: &Vec<DirEntry>) -> (r: Result<
    Vec<String>,
    PlanError,
>)
    ensures
        match r {
            Err(PlanError::NoParent(p)) => p@ == archive@ && path_parent(archive@) is None,
            Err(PlanError::NoFileName(p)) => p@ == archive@ && path_parent(archive@) is Some
                && path_file_name(archive@) is None,
            Err(_) => false,
            Ok(v) => path_parent(archive@) is Some && path_file_name(archive@) is Some
                && sorted_paths(path_views(v@)) && path_views(v@).to_multiset() == regular_where(
                entries@,
                |p: Seq<char>| group_file(p, group_prefix(path_file_name(archive@)->0)),
            ).to_multiset(),
        },
{
    if parent(archive).is_none() {
        return Err(PlanError::NoParent(crate::text::copy_str(archive)));
    }
    let name = match file_name(archive) {
        None => {
            return Err(PlanError::NoFileName(crate::text::copy_str(archive)));
        },
        Some(n) => n,
    };
    let prefix = cleanup_group_prefix(name.as_str());
    let ghost pv = prefix@;
    let rule = KeepRule::GroupOf(prefix);
    let files = collect_regular(entries, &rule);
    assert(rule.spec_keep() == |p: Seq<char>| group_file(p, pv));
    Ok(sort_paths(&files))
}

/// The name of the target directory of a flat archive: the name of its
/// archive set, made file-name-safe.
pub fn flat_release_name(archive: &str) -> (r: Result<String, PlanError>)
    ensures
        match r {
            Ok(n) => path_file_name(archive@) is Some && n@ == sanitize(
                group_prefix(path_file_name(archive@)->0),
            ),
            Err(e) => path_file_name(archive@) is None && (e matches PlanError::NoFileName(p)
                && p@ == archive@),
        },
{
    match file_name(archive) {
        None => Err(PlanError::NoFileName(crate::text::copy_str(archive))),
        Some(n) => {
            let prefix = cleanup_group_prefix(n.as_str());
            Ok(sanitize_name(prefix.as_str()))
        },
    }
}

/// What processing a release does: the directory it lives in, the archive
/// to extract, the target directory and the archive files to clean up.
pub struct ExtractPlan {
    pub release_root: String,
    pub archive: String,
    pub output_dir: String,
    pub cleanup_files: Vec<String>,
}

/// The result of the plan for a release directory: an error only when no
/// regular file of the listing starts an archive; otherwise the first such
/// file (in path order), the directory as root, the target named after the
/// directory (`unknown` without a name) and all archive files of the
/// listing, sorted.
pub open spec fn folder_plan_result(
    r: Result<ExtractPlan, PlanError>,
    release_dir: Seq<char>,
    output_base: Seq<char>,
    entries: Seq<DirEntry>,
) -> bool {
    match r {
        Err(e) => regular_where(entries, |p: Seq<char>| start_file(p)).len() == 0 && (e matches PlanError::NoArchive(d) && d@ == release_dir),
        Ok(plan) => {
            &&& plan.release_root@ == release_dir
            &&& least_of(
                Some(plan.archive),
                regular_where(entries, |p: Seq<char>| start_file(p)),
            )
            &&& plan.output_dir@ == path_join(
                output_base,
                sanitize(
                    match path_file_name(release_dir) {
                        Some(n) => n,
                        None => "unknown"@,
                    },
                ),
            )
            &&& sorted_paths(path_views(plan.cleanup_files@))
            &&& path_views(plan.cleanup_files@).to_multiset() == regular_where(
                entries,
                |p: Seq<char>| archive_file(p),
            ).to_multiset()
        },
    }
}

/// The result of the plan for an archive directly in a watch directory.
pub open spec fn flat_plan_result(
    r: Result<ExtractPlan, PlanError>,
    archive: Seq<char>,
    output_base: Seq<char>,
    entries: Seq<DirEntry>,
) -> bool {
    match r {
        Err(PlanError::NoParent(p)) => p@ == archive && path_parent(archive) is None,
        Err(PlanError::NoFileName(p)) => p@ == archive && path_parent(archive) is Some
            && path_file_name(archive) is None,
        Err(_) => false,
        Ok(plan) => {
            &&& path_parent(archive) == Some(plan.release_root@)
            &&& path_file_name(archive) is Some
            &&& plan.archive@ == archive
            &&& plan.output_dir@ == path_join(
                output_base,
                sanitize(group_prefix(path_file_name(archive)->0)),
            )
            &&& sorted_paths(path_views(plan.cleanup_files@))
            &&& path_views(plan.cleanup_files@).to_multiset() == regular_where(
                entries,
                |p: Seq<char>| group_file(p, group_prefix(path_file_name(archive)->0)),
            ).to_multiset()
        },
    }
}

/// The plan for a release directory, from its listing: the first archive
/// start, the target named after the directory (`unknown` without a name),
/// and all archive files of the directory.
pub fn create_folder_extract_plan(release_dir: &str, output_base: &str, entries: &Vec<DirEntry>) -> (r:
    Result<ExtractPlan, PlanError>)
    ensures
        folder_plan_result(r, release_dir@, output_base@, entries@),
{
    let archive = match find_archive_start_in_dir(entries) {
        None => {
            return Err(PlanError::NoArchive(crate::text::copy_str(release_dir)));
        },
        Some(a) => a,
    };
    let name = match file_name(release_dir) {
        Some(n) => n,
        None => crate::text::copy_str("unknown"),
    };
    let safe = sanitize_name(name.as_str());
    let output_dir = join(output_base, safe.as_str());
    let cleanup_files = find_cleanup_files_in_dir(entries);
    Ok(ExtractPlan {
        release_root: crate::text::copy_str(release_dir),
        archive,
        output_dir,
        cleanup_files,
    })
}

/// The plan for an archive file directly in the watch directory, from the
/// listing of that directory.
pub fn create_flat_extract_plan(archive: &str, output_base: &str, entries: &Vec<DirEntry>) -> (r:
    Result<ExtractPlan, PlanError>)
    ensures
        flat_plan_result(r, archive@, output_base@, entries@),
{
    let release_root = match parent(archive) {
        None => {
            return Err(PlanError::NoParent(crate::text::copy_str(archive)));
        },
        Some(p) => p,
    };
    let release_name = match flat_release_name(archive) {
        Err(e) => {
            return Err(e);
        },
        Ok(n) => n,
    };
    let output_dir = join(output_base, release_name.as_str());
    let cleanup_files = match find_related_flat_cleanup_files(archive, entries) {
        Err(e) => {
            return Err(e);
        },
        Ok(f) => f,
    };
    Ok(ExtractPlan {
        release_root,
        archive: crate::text::copy_str(archive),
        output_dir,
        cleanup_files,
    })
}

/// The plan for a release: a file is a flat archive, anything else a
/// release directory. `entries` is the listing of the directory that holds
/// the archive files (the parent for a flat archive).
pub fn create_extract_plan(target: &str, target_is_file: bool, output_base: &str, entries: &Vec<DirEntry>) -> (r:
    Result<ExtractPlan, PlanError>)
    ensures
        target_is_file ==> flat_plan_result(r, target@, output_base@, entries@),
        !target_is_file ==> folder_plan_result(r, target@, output_base@, entries@),
        target_is_file ==> (r is Ok <==> (path_parent(target@) is Some && path_file_name(target@) is Some)),
        !target_is_file ==> (r is Ok <==> regular_where(entries@, |p: Seq<char>| start_file(p)).len() > 0),
{
    if target_is_file {
        create_flat_extract_plan(target, output_base, entries)
    } else {
        create_folder_extract_plan(target, output_base, entries)
    }
}

/// Whether a release can be processed: a file must start an archive, a
/// directory must hold a regular file that starts one.
pub fn has_archive_start(target: &str, target_is_file: bool, entries: &Vec<DirEntry>) -> (r: bool)
    ensures
        target_is_file ==> r == start_file(target@),
        !target_is_file ==> r == (regular_where(entries@, |p: Seq<char>| start_file(p)).len() > 0),
{
    if target_is_file {
        return is_archive_start_file(target);
    }
    find_archive_start_in_dir(entries).is_some()
}

// ------------------------------------------------------------------
// Tools and cleanup
// ------------------------------------------------------------------

/// The name ends in `.rar`, ASCII case ignored.
pub fn is_rar_archive_path(path: &str) -> (r: bool)
    ensures
        r == match path_file_name(path@) {
            Some(n) => ".rar"@.is_suffix_of(lowercase(n)),
            None => false,
        },
{
    match file_name(path) {
        None => false,
        Some(n) => {
            let lower = to_lowercase(n.as_str());
            let l = chars_of(lower.as_str());
            str_has_suffix(&l, ".rar")
        },
    }
}

/// The tar family of a lower-cased name: 0 plain, 1 gzip, 2 xz, 3 bzip2.
pub open spec fn tar_kind(lower: Seq<char>) -> Option<int> {
    if ".tar"@.is_suffix_of(lower) {
        Some(0)
    } else if ".tar.gz"@.is_suffix_of(lower) || ".tgz"@.is_suffix_of(lower) {
        Some(1)
    } else if ".tar.xz"@.is_suffix_of(lower) || ".txz"@.is_suffix_of(lower) {
        Some(2)
    } else if ".tar.bz2"@.is_suffix_of(lower) || ".tbz2"@.is_suffix_of(lower) {
        Some(3)
    } else {
        None
    }
}

fn tar_kind_of(path: &str) -> (r: Result<u8, PlanError>)
    ensures
        match r {
            Ok(k) => path_file_name(path@) is Some && tar_kind(lowercase(path_file_name(path@)->0))
                == Some(k as int),
            Err(PlanError::NoFileName(p)) => p@ == path@ && path_file_name(path@) is None,
            Err(PlanError::UnsupportedTar(p)) => p@ == path@ && path_file_name(path@) is Some
                && tar_kind(lowercase(path_file_name(path@)->0)) is None,
            Err(_) => false,
        },
{
    let n = match file_name(path) {
        None => {
            return Err(PlanError::NoFileName(crate::text::copy_str(path)));
        },
        Some(n) => n,
    };
    let lower = to_lowercase(n.as_str());
    let l = chars_of(lower.as_str());
    if str_has_suffix(&l, ".tar") {
        Ok(0)
    } else if str_has_suffix(&l, ".tar.gz") || str_has_suffix(&l, ".tgz") {
        Ok(1)
    } else if str_has_suffix(&l, ".tar.xz") || str_has_suffix(&l, ".txz") {
        Ok(2)
    } else if str_has_suffix(&l, ".tar.bz2") || str_has_suffix(&l, ".tbz2") {
        Ok(3)
    } else {
        Err(PlanError::UnsupportedTar(crate::text::copy_str(path)))
    }
}

/// The option with which tar lists (tests) an archive of the kind.
pub open spec fn tar_test_text(k: int) -> Seq<char> {
    if k == 0 {
        "-tf"@
    } else if k == 1 {
        "-tzf"@
    } else if k == 2 {
        "-tJf"@
    } else {
        "-tjf"@
    }
}

/// The option with which tar extracts an archive of the kind.
pub open spec fn tar_extract_text(k: int) -> Seq<char> {
    if k == 0 {
        "-xf"@
    } else if k == 1 {
        "-xzf"@
    } else if k == 2 {
        "-xJf"@
    } else {
        "-xjf"@
    }
}

pub fn tar_test_flag(path: &str) -> (r: Result<&'static str, PlanError>)
    ensures
        match r {
            Ok(f) => path_file_name(path@) is Some && tar_kind(lowercase(path_file_name(path@)->0)) is Some
                && f@ == tar_test_text(tar_kind(lowercase(path_file_name(path@)->0))->0),
            Err(PlanError::NoFileName(p)) => p@ == path@ && path_file_name(path@) is None,
            Err(PlanError::UnsupportedTar(p)) => p@ == path@ && path_file_name(path@) is Some
                && tar_kind(lowercase(path_file_name(path@)->0)) is None,
            Err(_) => false,
        },
{
    match tar_kind_of(path) {
        Err(e) => Err(e),
        Ok(0) => Ok("-tf"),
        Ok(1) => Ok("-tzf"),
        Ok(2) => Ok("-tJf"),
        Ok(_) => Ok("-tjf"),
    }
}

pub fn tar_extract_flag(path: &str) -> (r: Result<&'static str, PlanError>)
    ensures
        match r {
            Ok(f) => path_file_name(path@) is Some && tar_kind(lowercase(path_file_name(path@)->0)) is Some
                && f@ == tar_extract_text(tar_kind(lowercase(path_file_name(path@)->0))->0),
            Err(PlanError::NoFileName(p)) => p@ == path@ && path_file_name(path@) is None,
            Err(PlanError::UnsupportedTar(p)) => p@ == path@ && path_file_name(path@) is Some
                && tar_kind(lowercase(path_file_name(path@)->0)) is None,
            Err(_) => false,
        },
{
    match tar_kind_of(path) {
        Err(e) => Err(e),
        Ok(0) => Ok("-xf"),
        Ok(1) => Ok("-xzf"),
        Ok(2) => Ok("-xJf"),
        Ok(_) => Ok("-xjf"),
    }
}

/// The name, lower-cased, ends with a tar extension.
pub open spec fn tar_path(path: Seq<char>) -> bool {
    match path_file_name(path) {
        Some(n) => is_tar_name(lowercase(n)),
        None => false,
    }
}

/// The name ends in `.rar`, ASCII case ignored.
pub open spec fn rar_path(path: Seq<char>) -> bool {
    match path_file_name(path) {
        Some(n) => ".rar"@.is_suffix_of(lowercase(n)),
        None => false,
    }
}

pub fn is_tar_archive_path(path: &str) -> (r: bool)
    ensures
        r == tar_path(path@),
{
    match file_name(path) {
        None => false,
        Some(n) => {
            let lower = to_lowercase(n.as_str());
            is_tar_archive_name(lower.as_str())
        },
    }
}

/// The program that handles an archive.
#[derive(Clone, Copy, PartialEq, Eq, Structural, Debug)]
pub enum ArchiveTool {
    Unrar,
    Tar,
    SevenZip,
}

/// RAR archives go to unrar, tar archives to tar, everything else to 7z.
pub open spec fn tool_for(archive: Seq<char>) -> ArchiveTool {
    if rar_path(archive) {
        ArchiveTool::Unrar
    } else if tar_path(archive) {
        ArchiveTool::Tar
    } else {
        ArchiveTool::SevenZip
    }
}

impl ArchiveTool {
    /// The program's name.
    pub fn program(self) -> (r: &'static str)
        ensures
            r@ == tool_program(self),
    {
        match self {
            ArchiveTool::Unrar => "unrar",
            ArchiveTool::Tar => "tar",
            ArchiveTool::SevenZip => "7z",
        }
    }

    /// What to say when the program cannot be started.
    pub fn missing_hint(self) -> (r: &'static str)
        ensures
            r@ == tool_missing_hint(self),
    {
        match self {
            ArchiveTool::Unrar => "Konnte unrar nicht starten. Ist unrar im Container installiert?",
            ArchiveTool::Tar => "Konnte tar nicht starten. Ist tar im Container installiert?",
            ArchiveTool::SevenZip => "Konnte 7z nicht starten. Ist p7zip-full installiert?",
        }
    }
}

pub open spec fn tool_program(t: ArchiveTool) -> Seq<char> {
    match t {
        ArchiveTool::Unrar => "unrar"@,
        ArchiveTool::Tar => "tar"@,
        ArchiveTool::SevenZip => "7z"@,
    }
}

pub open spec fn tool_missing_hint(t: ArchiveTool) -> Seq<char> {
    match t {
        ArchiveTool::Unrar => "Konnte unrar nicht starten. Ist unrar im Container installiert?"@,
        ArchiveTool::Tar => "Konnte tar nicht starten. Ist tar im Container installiert?"@,
        ArchiveTool::SevenZip => "Konnte 7z nicht starten. Ist p7zip-full installiert?"@,
    }
}

/// A program run: the tool and its arguments.
pub struct ToolCommand {
    pub tool: ArchiveTool,
    pub args: Vec<String>,
}

pub open spec fn command_args(c: ToolCommand) -> Seq<Seq<char>> {
    c.args@.map_values(|a: String| a@)
}

/// A tar name always has a tar kind.
proof fn lemma_tar_path_has_kind(path: Seq<char>)
    requires
        tar_path(path),
    ensures
        path_file_name(path) is Some,
        tar_kind(lowercase(path_file_name(path)->0)) is Some,
{
}

fn str_args(items: &[&str]) -> (r: Vec<String>)
    ensures
        r@.map_values(|a: String| a@) == items@.map_values(|a: &str| a@),
{
    let mut out: Vec<String> = Vec::new();
    let mut i: usize = 0;
    while i < items.len()
        invariant
            i <= items@.len(),
            out@.map_values(|a: String| a@) == items@.take(i as int).map_values(|a: &str| a@),
        decreases items.len() - i,
    {
        let ghost before = out@.map_values(|a: String| a@);
        let item = crate::text::copy_str(items[i]);
        assert(item@ == items@[i as int]@);
        out.push(item);
        assert(out@.map_values(|a: String| a@) =~= before.push(items@[i as int]@));
        assert(items@.take(i + 1).map_values(|a: &str| a@) =~= items@.take(i as int).map_values(
            |a: &str| a@,
        ).push(items@[i as int]@));
        i = i + 1;
    }
    assert(items@.take(items@.len() as int) =~= items@);
    out
}

/// The arguments that test an archive.
pub open spec fn verify_args(archive: Seq<char>) -> Seq<Seq<char>> {
    match tool_for(archive) {
        ArchiveTool::Unrar => seq!["t"@, "-idq"@, archive],
        ArchiveTool::Tar => seq![
            tar_test_text(tar_kind(lowercase(path_file_name(archive)->0))->0),
            archive,
        ],
        ArchiveTool::SevenZip => seq!["t"@, archive],
    }
}

/// The arguments that extract an archive into the output directory.
pub open spec fn extract_args(archive: Seq<char>, output_dir: Seq<char>) -> Seq<Seq<char>> {
    match tool_for(archive) {
        ArchiveTool::Unrar => seq!["x"@, "-o+"@, "-idq"@, archive, output_dir],
        ArchiveTool::Tar => seq![
            tar_extract_text(tar_kind(lowercase(path_file_name(archive)->0))->0),
            archive,
            "-C"@,
            output_dir,
        ],
        ArchiveTool::SevenZip => seq!["x"@, archive, "-o"@ + output_dir, "-y"@],
    }
}

fn choose_tool(archive: &str) -> (r: ArchiveTool)
    ensures
        r == tool_for(archive@),
{
    if is_rar_archive_path(archive) {
        ArchiveTool::Unrar
    } else if is_tar_archive_path(archive) {
        ArchiveTool::Tar
    } else {
        ArchiveTool::SevenZip
    }
}

/// The command that tests an archive before it is extracted.
pub fn verify_command(archive: &str) -> (r: ToolCommand)
    ensures
        r.tool == tool_for(archive@),
        command_args(r) == verify_args(archive@),
{
    let tool = choose_tool(archive);
    let args = match tool {
        ArchiveTool::Unrar => str_args(&["t", "-idq", archive]),
        ArchiveTool::Tar => {
            proof {
                lemma_tar_path_has_kind(archive@);
            }
            let flag = match tar_test_flag(archive) {
                Ok(f) => f,
                Err(_) => {
                    assert(false);
                    "-tf"
                },
            };
            str_args(&[flag, archive])
        },
        ArchiveTool::SevenZip => str_args(&["t", archive]),
    };
    let r = ToolCommand { tool, args };
    assert(command_args(r) =~= verify_args(archive@));
    r
}

/// The command that extracts an archive into the output directory.
pub fn extract_command(archive: &str, output_dir: &str) -> (r: ToolCommand)
    ensures
        r.tool == tool_for(archive@),
        command_args(r) == extract_args(archive@, output_dir@),
{
    let tool = choose_tool(archive);
    let args = match tool {
        ArchiveTool::Unrar => str_args(&["x", "-o+", "-idq", archive, output_dir]),
        ArchiveTool::Tar => {
            proof {
                lemma_tar_path_has_kind(archive@);
            }
            let flag = match tar_extract_flag(archive) {
                Ok(f) => f,
                Err(_) => {
                    assert(false);
                    "-xf"
                },
            };
            str_args(&[flag, archive, "-C", output_dir])
        },
        ArchiveTool::SevenZip => {
            let mut out = chars_of("-o");
            extend_str(&mut out, output_dir);
            let target = string_of(&out);
            str_args(&["x", archive, target.as_str(), "-y"])
        },
    };
    let r = ToolCommand { tool, args };
    assert(command_args(r) =~= extract_args(archive@, output_dir@));
    r
}

/// The error of a failed tool run: what was done, with which tool, on
/// which archive, and what the tool printed.
pub open spec fn command_failure_text(
    action: Seq<char>,
    tool: Seq<char>,
    archive: Seq<char>,
    stdout: Seq<char>,
    stderr: Seq<char>,
) -> Seq<char> {
    action + " fehlgeschlagen mit "@ + tool + ": "@ + archive + "\n\nSTDOUT:\n"@ + stdout
        + "\n\nSTDERR:\n"@ + stderr
}

pub fn check_command_success(
    action: &str,
    tool: &str,
    archive: &str,
    success: bool,
    stdout: &str,
    stderr: &str,
) -> (r: Result<(), String>)
    ensures
        success ==> r is Ok,
        !success ==> (r matches Err(m) && m@ == command_failure_text(
            action@,
            tool@,
            archive@,
            stdout@,
            stderr@,
        )),
{
    if success {
        return Ok(());
    }
    let mut out: Vec<char> = Vec::new();
    extend_str(&mut out, action);
    extend_str(&mut out, " fehlgeschlagen mit ");
    extend_str(&mut out, tool);
    extend_str(&mut out, ": ");
    extend_str(&mut out, archive);
    extend_str(&mut out, "\n\nSTDOUT:\n");
    extend_str(&mut out, stdout);
    extend_str(&mut out, "\n\nSTDERR:\n");
    extend_str(&mut out, stderr);
    Err(string_of(&out))
}

/// A file may be deleted by the cleanup only when it lies directly in the
/// release directory, has the name of an archive volume and is a regular
/// file.
pub open spec fn safe_cleanup(release_root: Seq<char>, file: Seq<char>, is_regular: bool) -> bool {
    match path_parent(file) {
        None => false,
        Some(p) => paths_equal(p, release_root) && match path_file_name(file) {
            None => false,
            Some(n) => is_archive_name(n) && is_regular,
        },
    }
}

pub fn is_safe_cleanup_file(release_root: &str, file: &str, is_regular: bool) -> (r: bool)
    ensures
        r == safe_cleanup(release_root@, file@, is_regular),
{
    match parent(file) {
        None => false,
        Some(p) => {
            if !same_path(p.as_str(), release_root) {
                return false;
            }
            match file_name(file) {
                None => false,
                Some(n) => crate::archive::is_archive_file_name(n.as_str()) && is_regular,
            }
        },
    }
}

/// What the cleanup after a successful extraction does.
pub enum CleanupDecision {
    /// There are no archive files.
    NothingFound,
    /// Deleting is switched off; the files are only listed.
    Disabled,
    /// A dry run: every file is safe and would be deleted.
    DryRun,
    /// The files are deleted, in order.
    Delete,
    /// The file at this index is not safe: a dry run stops before deleting
    /// anything; a real run deletes the files before it, then stops.
    Blocked(usize),
}

/// The index of the first file that is not safe.
pub open spec fn first_unsafe(safe: Seq<bool>, i: int) -> Option<int>
    decreases safe.len() - i,
{
    if i < 0 || i >= safe.len() {
        None
    } else if !safe[i] {
        Some(i)
    } else {
        first_unsafe(safe, i + 1)
    }
}

pub open spec fn cleanup_decision_of(count: nat, delete_archives: bool, safe: Seq<bool>) -> CleanupDecision {
    if count == 0 {
        CleanupDecision::NothingFound
    } else if !delete_archives {
        CleanupDecision::Disabled
    } else {
        match first_unsafe(safe, 0) {
            Some(i) => CleanupDecision::Blocked(i as usize),
            None => CleanupDecision::Delete,
        }
    }
}

/// Decides the cleanup of a plan; `safe[i]` is the safety of the plan's
/// `i`-th cleanup file (see `is_safe_cleanup_file`). A dry run decides as a
/// real run would, and deletes nothing.
pub fn cleanup_decision(plan: &ExtractPlan, delete_archives: bool, dry_run: bool, safe: &Vec<bool>) -> (r:
    CleanupDecision)
    requires
        safe@.len() == plan.cleanup_files@.len(),
    ensures
        dry_run && cleanup_decision_of(plan.cleanup_files@.len(), delete_archives, safe@)
            == CleanupDecision::Delete ==> r == CleanupDecision::DryRun,
        !(dry_run && cleanup_decision_of(plan.cleanup_files@.len(), delete_archives, safe@)
            == CleanupDecision::Delete) ==> r == cleanup_decision_of(
            plan.cleanup_files@.len(),
            delete_archives,
            safe@,
        ),
{
    if plan.cleanup_files.len() == 0 {
        return CleanupDecision::NothingFound;
    }
    if !delete_archives {
        return CleanupDecision::Disabled;
    }
    let mut i: usize = 0;
    while i < safe.len()
        invariant
            i <= safe@.len(),
            safe@.len() == plan.cleanup_files@.len(),
            plan.cleanup_files@.len() > 0,
            delete_archives,
            first_unsafe(safe@, 0) == first_unsafe(safe@, i as int),
        decreases safe.len() - i,
    {
        if !safe[i] {
            assert(first_unsafe(safe@, 0) == Some(i as int));
            assert((i as int) as usize == i);
            return CleanupDecision::Blocked(i);
        }
        i = i + 1;
    }
    if dry_run {
        CleanupDecision::DryRun
    } else {
        CleanupDecision::Delete
    }
}

/// The check after an extraction: the target exists and holds a file.
pub fn validate_extraction(output_dir: &str, exists: bool, has_files: bool) -> (r: Result<(), String>)
    ensures
        !exists ==> (r matches Err(m) && m@ == "Zielordner existiert nach Entpackung nicht"@),
        exists && !has_files ==> (r matches Err(m) && m@ == "Entpackung scheint leer zu sein: "@
            + output_dir@),
        exists && has_files ==> r is Ok,
{
    if !exists {
        return Err(crate::text::copy_str("Zielordner existiert nach Entpackung nicht"));
    }
    if !has_files {
        let mut out: Vec<char> = Vec::new();
        extend_str(&mut out, "Entpackung scheint leer zu sein: ");
        extend_str(&mut out, output_dir);
        return Err(string_of(&out));
    }
    Ok(())
}

} // verus!

verus! {

// ------------------------------------------------------------------
// The order of the steps of processing a release
// ------------------------------------------------------------------

/// The steps of processing a release, after its plan was made.
#[derive(Clone, Copy, PartialEq, Eq, Structural, Debug)]
pub enum ProcessStep {
    /// Test the archive.
    Verify,
    /// Extract it into the target directory.
    Extract,
    /// Check that the target directory holds files.
    Validate,
    /// Clean up the archive files.
    Cleanup,
    /// All steps succeeded.
    Done,
}

/// The step after `step`: the next one when it succeeded; none (the run
/// ends with that step's error) when it failed.
pub open spec fn step_after(step: ProcessStep, succeeded: bool) -> Option<ProcessStep> {
    if !succeeded {
        None
    } else {
        match step {
            ProcessStep::Verify => Some(ProcessStep::Extract),
            ProcessStep::Extract => Some(ProcessStep::Validate),
            ProcessStep::Validate => Some(ProcessStep::Cleanup),
            ProcessStep::Cleanup => Some(ProcessStep::Done),
            ProcessStep::Done => Some(ProcessStep::Done),
        }
    }
}

pub fn next_step(step: ProcessStep, succeeded: bool) -> (r: Option<ProcessStep>)
    ensures
        r == step_after(step, succeeded),
{
    if !succeeded {
        return None;
    }
    match step {
        ProcessStep::Verify => Some(ProcessStep::Extract),
        ProcessStep::Extract => Some(ProcessStep::Validate),
        ProcessStep::Validate => Some(ProcessStep::Cleanup),
        ProcessStep::Cleanup => Some(ProcessStep::Done),
        ProcessStep::Done => Some(ProcessStep::Done),
    }
}

/// The steps that run, from `step` on, when the `i`-th step that runs has
/// the outcome `outcomes[i]`.
pub open spec fn steps_run(step: ProcessStep, outcomes: Seq<bool>) -> Seq<ProcessStep>
    decreases outcomes.len(),
{
    if step == ProcessStep::Done || outcomes.len() == 0 {
        Seq::empty()
    } else {
        seq![step] + match step_after(step, outcomes[0]) {
            None => Seq::empty(),
            Some(next) => steps_run(next, outcomes.drop_first()),
        }
    }
}

/// A run that starts with the test of the archive extracts only after the
/// test succeeded, and cleans up (deletes archive files) only after the
/// test, the extraction and the check of the result all succeeded.
pub proof fn law_cleanup_only_after_success(outcomes: Seq<bool>)
    ensures
        ({
            let run = steps_run(ProcessStep::Verify, outcomes);
            &&& run.contains(ProcessStep::Extract) ==> outcomes[0]
            &&& run.contains(ProcessStep::Cleanup) ==> outcomes.len() > 3 && outcomes[0]
                && outcomes[1] && outcomes[2]
            &&& run.len() > 0 ==> run[0] == ProcessStep::Verify
        }),
{
    reveal_with_fuel(steps_run, 5);
    let run = steps_run(ProcessStep::Verify, outcomes);
    if run.contains(ProcessStep::Extract) {
        let k = choose|k: int| 0 <= k < run.len() && run[k] == ProcessStep::Extract;
    }
    if run.contains(ProcessStep::Cleanup) {
        let k = choose|k: int| 0 <= k < run.len() && run[k] == ProcessStep::Cleanup;
    }
}

/// The last character of a text with the given ending.
proof fn lemma_suffix_char(suffix: Seq<char>, s: Seq<char>, i: int)
    requires
        suffix.is_suffix_of(s),
        0 <= i < suffix.len(),
    ensures
        s[s.len() - suffix.len() + i] == suffix[i],
{
    assert(s.subrange(s.len() - suffix.len(), s.len() as int)[i] == suffix[i]);
}

/// Tar is told the compression that the name gives: a `.tar` archive is
/// read plainly (`-xf`), `.tar.gz` and `.tgz` with gzip (`-xzf`),
/// `.tar.xz` and `.txz` with xz (`-xJf`), `.tar.bz2` and `.tbz2` with bzip2
/// (`-xjf`); and the test of an archive names the same compression as its
/// extraction (the same option with `t` for `x`).
pub proof fn law_tar_flags_follow_the_extension(lower: Seq<char>)
    ensures
        ".tar"@.is_suffix_of(lower) ==> tar_kind(lower) is Some && tar_extract_text(
            tar_kind(lower)->0,
        ) == "-xf"@,
        ".tar.gz"@.is_suffix_of(lower) || ".tgz"@.is_suffix_of(lower) ==> tar_kind(lower) is Some
            && tar_extract_text(tar_kind(lower)->0) == "-xzf"@,
        ".tar.xz"@.is_suffix_of(lower) || ".txz"@.is_suffix_of(lower) ==> tar_kind(lower) is Some
            && tar_extract_text(tar_kind(lower)->0) == "-xJf"@,
        ".tar.bz2"@.is_suffix_of(lower) || ".tbz2"@.is_suffix_of(lower) ==> tar_kind(lower) is Some
            && tar_extract_text(tar_kind(lower)->0) == "-xjf"@,
        tar_kind(lower) is Some ==> {
            let t = tar_test_text(tar_kind(lower)->0);
            &&& t.len() >= 3
            &&& t[1] == 't'
            &&& tar_extract_text(tar_kind(lower)->0) == t.update(1, 'x')
        },
{
    reveal_strlit(".tar");
    reveal_strlit(".tar.gz");
    reveal_strlit(".tgz");
    reveal_strlit(".tar.xz");
    reveal_strlit(".txz");
    reveal_strlit(".tar.bz2");
    reveal_strlit(".tbz2");
    reveal_strlit("-xf");
    reveal_strlit("-xzf");
    reveal_strlit("-xJf");
    reveal_strlit("-xjf");
    reveal_strlit("-tf");
    reveal_strlit("-tzf");
    reveal_strlit("-tJf");
    reveal_strlit("-tjf");
    let n = lower.len();
    // The last character tells the endings apart.
    if ".tar"@.is_suffix_of(lower) {
        lemma_suffix_char(".tar"@, lower, 3);
    }
    if ".tar.gz"@.is_suffix_of(lower) {
        lemma_suffix_char(".tar.gz"@, lower, 6);
        lemma_suffix_char(".tar.gz"@, lower, 5);
    }
    if ".tgz"@.is_suffix_of(lower) {
        lemma_suffix_char(".tgz"@, lower, 3);
        lemma_suffix_char(".tgz"@, lower, 2);
    }
    if ".tar.xz"@.is_suffix_of(lower) {
        lemma_suffix_char(".tar.xz"@, lower, 6);
        lemma_suffix_char(".tar.xz"@, lower, 5);
    }
    if ".txz"@.is_suffix_of(lower) {
        lemma_suffix_char(".txz"@, lower, 3);
        lemma_suffix_char(".txz"@, lower, 2);
    }
    if ".tar.bz2"@.is_suffix_of(lower) {
        lemma_suffix_char(".tar.bz2"@, lower, 7);
    }
    if ".tbz2"@.is_suffix_of(lower) {
        lemma_suffix_char(".tbz2"@, lower, 4);
    }
    assert("-tf"@.update(1, 'x') =~= "-xf"@);
    assert("-tzf"@.update(1, 'x') =~= "-xzf"@);
    assert("-tJf"@.update(1, 'x') =~= "-xJf"@);
    assert("-tjf"@.update(1, 'x') =~= "-xjf"@);
}

} // verus!
