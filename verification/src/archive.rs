//! Recognising archive files by name: which names are archives, which
//! archive of a multi-part set starts it, how a set is named, and which
//! files belong to it.
use crate::paths::{path_file_name, path_join, path_parent};
use crate::text::{
    ascii_lower, chars_of, ends_with_ci, has_prefix, is_ascii_alnum, is_digit,
    lower_ascii_char, lowercase, str_has_suffix, str_has_suffix_ci, string_of, to_lowercase,
};
use crate::paths;
use vstd::prelude::*;

verus! {

/// What the pattern `\d` of the `regex` crate accepts for one character.
pub uninterp spec fn regex_digit(c: char) -> bool;

/// `regex::Regex::is_match` with the pattern `^\d$` on a one-character text.
/// The contract names the result and adds what the crate documents: the
/// class holds the ASCII digits (it is Unicode `Nd`).
#[verifier::external_body]
pub(crate) fn unicode_digit(c: char) -> (r: bool)
    ensures
        r == regex_digit(c),
        is_digit(c) ==> r,
{
    let mut buf = [0u8; 4];
    let text: &str = c.encode_utf8(&mut buf);
    match regex::Regex::new(r"^\d$") {
        Ok(re) => re.is_match(text),
        Err(_) => false,
    }
}

// ------------------------------------------------------------------
// Specifications
// ------------------------------------------------------------------

/// The plain archive extensions, compared without regard to ASCII case.
pub open spec fn has_plain_archive_ext(n: Seq<char>) -> bool {
    ||| ends_with_ci(n, ".rar"@)
    ||| ends_with_ci(n, ".zip"@)
    ||| ends_with_ci(n, ".7z"@)
    ||| ends_with_ci(n, ".tar"@)
    ||| ends_with_ci(n, ".tar.gz"@)
    ||| ends_with_ci(n, ".tgz"@)
    ||| ends_with_ci(n, ".tar.xz"@)
    ||| ends_with_ci(n, ".txz"@)
    ||| ends_with_ci(n, ".tar.bz2"@)
    ||| ends_with_ci(n, ".tbz2"@)
}

/// `\.r\d{2}$` (old-style RAR volumes `.r00`, `.r01`, ...).
pub open spec fn has_legacy_rar_suffix(n: Seq<char>) -> bool {
    &&& n.len() >= 4
    &&& n[n.len() - 4] == '.'
    &&& ascii_lower(n[n.len() - 3]) == 'r'
    &&& regex_digit(n[n.len() - 2])
    &&& regex_digit(n[n.len() - 1])
}

/// `\.\d{3}$` (split volumes `.001`, `.002`, ...).
pub open spec fn has_split_suffix(n: Seq<char>) -> bool {
    &&& n.len() >= 4
    &&& n[n.len() - 4] == '.'
    &&& regex_digit(n[n.len() - 3])
    &&& regex_digit(n[n.len() - 2])
    &&& regex_digit(n[n.len() - 1])
}

/// A file name that belongs to some archive (any volume of it).
pub open spec fn is_archive_name(n: Seq<char>) -> bool {
    has_plain_archive_ext(n) || has_legacy_rar_suffix(n) || has_split_suffix(n)
}

/// Number of trailing characters that `\d` accepts.
pub open spec fn trailing_digits(s: Seq<char>) -> nat
    decreases s.len(),
{
    if s.len() > 0 && regex_digit(s.last()) {
        1 + trailing_digits(s.drop_last())
    } else {
        0
    }
}

/// Number of trailing `0` characters.
pub open spec fn trailing_zeros(s: Seq<char>) -> nat
    decreases s.len(),
{
    if s.len() > 0 && s.last() == '0' {
        1 + trailing_zeros(s.drop_last())
    } else {
        0
    }
}

/// For `<base>.part<digits>.rar` (ASCII case ignored), the text before
/// `.part`; the split is unique since the digits run back to the `t`.
pub open spec fn rar_part_base(n: Seq<char>) -> Option<Seq<char>> {
    if ends_with_ci(n, ".rar"@) {
        let body = n.take(n.len() - 4);
        let t = trailing_digits(body);
        let head = body.take(body.len() - t);
        if t >= 1 && ends_with_ci(head, ".part"@) {
            Some(head.take(head.len() - 5))
        } else {
            None
        }
    } else {
        None
    }
}

/// `\.part0*1\.rar$`: the first volume of a `.partN.rar` set.
pub open spec fn is_first_rar_part(n: Seq<char>) -> bool {
    ends_with_ci(n, ".rar"@) && {
        let body = n.take(n.len() - 4);
        &&& body.len() >= 1
        &&& body.last() == '1'
        &&& {
            let b = body.drop_last();
            ends_with_ci(b.take(b.len() - trailing_zeros(b)), ".part"@)
        }
    }
}

/// A file name with which extraction of an archive starts.
pub open spec fn is_archive_start_name(n: Seq<char>) -> bool {
    ||| is_first_rar_part(n)
    ||| ends_with_ci(n, ".rar"@) && rar_part_base(n) is None
    ||| ends_with_ci(n, ".zip"@)
    ||| ends_with_ci(n, ".7z"@)
    ||| ends_with_ci(n, ".tar"@)
    ||| ends_with_ci(n, ".tar.gz"@)
    ||| ends_with_ci(n, ".tgz"@)
    ||| ends_with_ci(n, ".tar.xz"@)
    ||| ends_with_ci(n, ".txz"@)
    ||| ends_with_ci(n, ".tar.bz2"@)
    ||| ends_with_ci(n, ".tbz2"@)
    ||| ".001"@.is_suffix_of(n)
}

/// What `.+` accepts in the anchored patterns: at least one character and
/// no line feed.
pub open spec fn dot_plus(b: Seq<char>) -> bool {
    b.len() >= 1 && !b.contains('\n')
}

/// `^(?P<base>.+)\.part\d+\.rar$`: the base of a `.partN.rar` volume.
pub open spec fn part_set_base(n: Seq<char>) -> Option<Seq<char>> {
    match rar_part_base(n) {
        Some(b) => if dot_plus(b) {
            Some(b)
        } else {
            None
        },
        None => None,
    }
}

/// `^(?P<base>.+)\.\d{3}$`: the base of a split volume.
pub open spec fn split_set_base(n: Seq<char>) -> Option<Seq<char>> {
    if has_split_suffix(n) && dot_plus(n.take(n.len() - 4)) {
        Some(n.take(n.len() - 4))
    } else {
        None
    }
}

/// `^(?P<base>.+)\.r\d{2}$`: the base of an old-style RAR volume.
pub open spec fn legacy_set_base(n: Seq<char>) -> Option<Seq<char>> {
    if has_legacy_rar_suffix(n) && dot_plus(n.take(n.len() - 4)) {
        Some(n.take(n.len() - 4))
    } else {
        None
    }
}

/// The archive extension that `strip_archive_extension` removes, if any,
/// tried in this order.
pub open spec fn stripped_ext_len(n: Seq<char>) -> nat {
    if ends_with_ci(n, ".part01.rar"@) {
        11
    } else if ends_with_ci(n, ".tar.bz2"@) {
        8
    } else if ends_with_ci(n, ".tar.gz"@) {
        7
    } else if ends_with_ci(n, ".tar.xz"@) {
        7
    } else if ends_with_ci(n, ".tbz2"@) {
        5
    } else if ends_with_ci(n, ".tgz"@) {
        4
    } else if ends_with_ci(n, ".txz"@) {
        4
    } else if ends_with_ci(n, ".rar"@) {
        4
    } else if ends_with_ci(n, ".zip"@) {
        4
    } else if ends_with_ci(n, ".7z"@) {
        3
    } else if ends_with_ci(n, ".tar"@) {
        4
    } else if ends_with_ci(n, ".001"@) {
        4
    } else {
        0
    }
}

pub open spec fn strip_ext(n: Seq<char>) -> Seq<char> {
    n.take(n.len() - stripped_ext_len(n))
}

/// The name shared by all volumes of the archive set `n` belongs to.
pub open spec fn group_prefix(n: Seq<char>) -> Seq<char> {
    match part_set_base(n) {
        Some(b) => b,
        None => match split_set_base(n) {
            Some(b) => b,
            None => match legacy_set_base(n) {
                Some(b) => b,
                None => strip_ext(n),
            },
        },
    }
}

/// The path of the volume that starts the set `path` belongs to, for an
/// archive file directly in the watch root.
pub open spec fn root_target(path: Seq<char>) -> Option<Seq<char>> {
    match path_file_name(path) {
        None => None,
        Some(n) => if !is_archive_name(n) {
            None
        } else {
            match path_parent(path) {
                None => None,
                Some(parent) => match part_set_base(n) {
                    Some(b) => Some(path_join(parent, b + ".part01.rar"@)),
                    None => match split_set_base(n) {
                        Some(b) => Some(path_join(parent, b + ".001"@)),
                        None => match legacy_set_base(n) {
                            Some(b) => Some(path_join(parent, b + ".rar"@)),
                            None => Some(path),
                        },
                    },
                },
            }
        },
    }
}

pub open spec fn is_numbered(s: Seq<char>) -> bool {
    s.len() == 3 && forall|i: int| 0 <= i < 3 ==> is_digit(#[trigger] s[i])
}

/// `file` (lower-cased) belongs to the set named `prefix` (lower-cased).
pub open spec fn in_group(lower: Seq<char>, p: Seq<char>) -> bool {
    ||| lower == p + ".rar"@
    ||| lower == p + ".zip"@
    ||| lower == p + ".7z"@
    ||| lower == p + ".tar"@
    ||| lower == p + ".tar.gz"@
    ||| lower == p + ".tgz"@
    ||| lower == p + ".tar.xz"@
    ||| lower == p + ".txz"@
    ||| lower == p + ".tar.bz2"@
    ||| lower == p + ".tbz2"@
    ||| (p + ".part"@).is_prefix_of(lower) && ".rar"@.is_suffix_of(lower)
    ||| (p + "."@).is_prefix_of(lower) && is_numbered(lower.skip(p.len() + 1 as int))
    ||| (p + ".r"@).is_prefix_of(lower)
}

/// File-name-safe text: ASCII letters, digits, `.`, `_` and `-` stay, every
/// other character becomes `_`.
pub open spec fn sanitize(n: Seq<char>) -> Seq<char> {
    n.map_values(|c: char| if is_ascii_alnum(c) || c == '.' || c == '_' || c == '-' {
        c
    } else {
        '_'
    })
}

pub open spec fn is_tar_name(n: Seq<char>) -> bool {
    ||| ".tar"@.is_suffix_of(n)
    ||| ".tar.gz"@.is_suffix_of(n)
    ||| ".tgz"@.is_suffix_of(n)
    ||| ".tar.xz"@.is_suffix_of(n)
    ||| ".txz"@.is_suffix_of(n)
    ||| ".tar.bz2"@.is_suffix_of(n)
    ||| ".tbz2"@.is_suffix_of(n)
}


// ------------------------------------------------------------------
// Implementation
// ------------------------------------------------------------------

fn plain_archive_ext(n: &[char]) -> (r: bool)
    ensures
        r == has_plain_archive_ext(n@),
{
    str_has_suffix_ci(n, ".rar") || str_has_suffix_ci(n, ".zip") || str_has_suffix_ci(n, ".7z")
        || str_has_suffix_ci(n, ".tar") || str_has_suffix_ci(n, ".tar.gz") || str_has_suffix_ci(
        n,
        ".tgz",
    ) || str_has_suffix_ci(n, ".tar.xz") || str_has_suffix_ci(n, ".txz") || str_has_suffix_ci(
        n,
        ".tar.bz2",
    ) || str_has_suffix_ci(n, ".tbz2")
}

fn legacy_rar_suffix(n: &[char]) -> (r: bool)
    ensures
        r == has_legacy_rar_suffix(n@),
{
    let l = n.len();
    l >= 4 && n[l - 4] == '.' && lower_ascii_char(n[l - 3]) == 'r' && unicode_digit(n[l - 2])
        && unicode_digit(n[l - 1])
}

fn split_suffix(n: &[char]) -> (r: bool)
    ensures
        r == has_split_suffix(n@),
{
    let l = n.len();
    l >= 4 && n[l - 4] == '.' && unicode_digit(n[l - 3]) && unicode_digit(n[l - 2])
        && unicode_digit(n[l - 1])
}

fn archive_name(n: &[char]) -> (r: bool)
    ensures
        r == is_archive_name(n@),
{
    plain_archive_ext(n) || legacy_rar_suffix(n) || split_suffix(n)
}

/// Whether a file name belongs to an archive: `.rar`, `.zip`, `.7z`, the tar
/// family, `.rNN` and `.NNN` volumes, ignoring ASCII case.
pub fn is_archive_file_name(file_name: &str) -> (r: bool)
    ensures
        r == is_archive_name(file_name@),
{
    let n = chars_of(file_name);
    archive_name(&n)
}

fn count_trailing_digits(s: &[char], end: usize) -> (t: usize)
    requires
        end <= s@.len(),
    ensures
        t == trailing_digits(s@.take(end as int)),
        t <= end,
{
    let mut j = end;
    while j > 0 && unicode_digit(s[j - 1])
        invariant
            j <= end <= s@.len(),
            trailing_digits(s@.take(end as int)) == (end - j) + trailing_digits(
                s@.take(j as int),
            ),
        decreases j,
    {
        assert(s@.take(j as int).drop_last() =~= s@.take(j - 1));
        j = j - 1;
    }
    end - j
}

fn count_trailing_zeros(s: &[char], end: usize) -> (t: usize)
    requires
        end <= s@.len(),
    ensures
        t == trailing_zeros(s@.take(end as int)),
        t <= end,
{
    let mut j = end;
    while j > 0 && s[j - 1] == '0'
        invariant
            j <= end <= s@.len(),
            trailing_zeros(s@.take(end as int)) == (end - j) + trailing_zeros(s@.take(j as int)),
        decreases j,
    {
        assert(s@.take(j as int).drop_last() =~= s@.take(j - 1));
        j = j - 1;
    }
    end - j
}

/// Whether the first `end` characters of `s` end with `p`, ASCII case ignored.
fn prefix_ends_with_ci(s: &[char], end: usize, p: &str) -> (r: bool)
    requires
        end <= s@.len(),
    ensures
        r == ends_with_ci(s@.take(end as int), p@),
{
    let head = crate::text::slice_chars(s, 0, end);
    assert(head@ =~= s@.take(end as int));
    str_has_suffix_ci(&head, p)
}

/// Length of the base of `<base>.part<digits>.rar`, if `n` has that form.
fn rar_part_base_len(n: &[char]) -> (r: Option<usize>)
    ensures
        match r {
            Some(k) => k <= n@.len() && rar_part_base(n@) == Some(n@.take(k as int)),
            None => rar_part_base(n@) is None,
        },
{
    if !str_has_suffix_ci(n, ".rar") {
        return None;
    }
    proof {
        reveal_strlit(".rar");
    }
    let body_len = n.len() - 4;
    let ghost body = n@.take(n@.len() - 4);
    let t = count_trailing_digits(n, body_len);
    let head_len = body_len - t;
    assert(body.take(body.len() - t) =~= n@.take(head_len as int));
    if t >= 1 && prefix_ends_with_ci(n, head_len, ".part") {
        assert(".part"@.len() == 5) by {
            reveal_strlit(".part");
        }
        assert(n@.take(head_len as int).take(head_len - 5) =~= n@.take(head_len - 5));
        Some(head_len - 5)
    } else {
        None
    }
}

fn first_rar_part(n: &[char]) -> (r: bool)
    ensures
        r == is_first_rar_part(n@),
{
    if !str_has_suffix_ci(n, ".rar") {
        return false;
    }
    proof {
        reveal_strlit(".rar");
    }
    let body_len = n.len() - 4;
    let ghost body = n@.take(n@.len() - 4);
    if body_len < 1 || n[body_len - 1] != '1' {
        return false;
    }
    let b_len = body_len - 1;
    assert(body.drop_last() =~= n@.take(b_len as int));
    let z = count_trailing_zeros(n, b_len);
    assert(n@.take(b_len as int).take(b_len - z) =~= n@.take(b_len - z));
    prefix_ends_with_ci(n, b_len - z, ".part")
}

fn archive_start_name(n: &[char]) -> (r: bool)
    ensures
        r == is_archive_start_name(n@),
{
    first_rar_part(n) || (str_has_suffix_ci(n, ".rar") && rar_part_base_len(n).is_none())
        || str_has_suffix_ci(n, ".zip") || str_has_suffix_ci(n, ".7z") || str_has_suffix_ci(
        n,
        ".tar",
    ) || str_has_suffix_ci(n, ".tar.gz") || str_has_suffix_ci(n, ".tgz") || str_has_suffix_ci(
        n,
        ".tar.xz",
    ) || str_has_suffix_ci(n, ".txz") || str_has_suffix_ci(n, ".tar.bz2") || str_has_suffix_ci(
        n,
        ".tbz2",
    ) || str_has_suffix(n, ".001")
}

/// Whether the file at `path` starts an archive: the first `.partN.rar`
/// volume, a `.rar` that is no `.partN.rar` volume, a `.zip`, `.7z` or tar
/// file, or a `.001` volume.
pub fn is_archive_start_file(path: &str) -> (r: bool)
    ensures
        r == match path_file_name(path@) {
            Some(n) => is_archive_start_name(n),
            None => false,
        },
{
    match paths::file_name(path) {
        Some(name) => {
            let n = chars_of(name.as_str());
            archive_start_name(&n)
        },
        None => false,
    }
}

/// Whether the file at `path` has the name of an archive volume.
pub fn is_archive_related_file(path: &str) -> (r: bool)
    ensures
        r == match path_file_name(path@) {
            Some(n) => is_archive_name(n),
            None => false,
        },
{
    match paths::file_name(path) {
        Some(name) => is_archive_file_name(name.as_str()),
        None => false,
    }
}

fn no_line_feed(s: &[char], end: usize) -> (r: bool)
    requires
        end <= s@.len(),
    ensures
        r == !s@.take(end as int).contains('\n'),
{
    let mut i: usize = 0;
    while i < end
        invariant
            i <= end <= s@.len(),
            forall|k: int| 0 <= k < i ==> s@[k] != '\n',
        decreases end - i,
    {
        if s[i] == '\n' {
            assert(s@.take(end as int)[i as int] == '\n');
            return false;
        }
        i = i + 1;
    }
    true
}

fn part_set_base_len(n: &[char]) -> (r: Option<usize>)
    ensures
        match r {
            Some(k) => k <= n@.len() && part_set_base(n@) == Some(n@.take(k as int)),
            None => part_set_base(n@) is None,
        },
{
    match rar_part_base_len(n) {
        Some(k) => if k >= 1 && no_line_feed(n, k) {
            Some(k)
        } else {
            None
        },
        None => None,
    }
}

fn split_set_base_len(n: &[char]) -> (r: Option<usize>)
    ensures
        match r {
            Some(k) => k <= n@.len() && split_set_base(n@) == Some(n@.take(k as int)),
            None => split_set_base(n@) is None,
        },
{
    if split_suffix(n) && n.len() - 4 >= 1 && no_line_feed(n, n.len() - 4) {
        Some(n.len() - 4)
    } else {
        None
    }
}

fn legacy_set_base_len(n: &[char]) -> (r: Option<usize>)
    ensures
        match r {
            Some(k) => k <= n@.len() && legacy_set_base(n@) == Some(n@.take(k as int)),
            None => legacy_set_base(n@) is None,
        },
{
    if legacy_rar_suffix(n) && n.len() - 4 >= 1 && no_line_feed(n, n.len() - 4) {
        Some(n.len() - 4)
    } else {
        None
    }
}

fn stripped_len(n: &[char]) -> (k: usize)
    ensures
        k == stripped_ext_len(n@),
        k <= n@.len(),
{
    proof {
        reveal_strlit(".part01.rar");
        reveal_strlit(".tar.bz2");
        reveal_strlit(".tar.gz");
        reveal_strlit(".tar.xz");
        reveal_strlit(".tbz2");
        reveal_strlit(".tgz");
        reveal_strlit(".txz");
        reveal_strlit(".rar");
        reveal_strlit(".zip");
        reveal_strlit(".7z");
        reveal_strlit(".tar");
        reveal_strlit(".001");
    }
    if str_has_suffix_ci(n, ".part01.rar") {
        11
    } else if str_has_suffix_ci(n, ".tar.bz2") {
        8
    } else if str_has_suffix_ci(n, ".tar.gz") {
        7
    } else if str_has_suffix_ci(n, ".tar.xz") {
        7
    } else if str_has_suffix_ci(n, ".tbz2") {
        5
    } else if str_has_suffix_ci(n, ".tgz") {
        4
    } else if str_has_suffix_ci(n, ".txz") {
        4
    } else if str_has_suffix_ci(n, ".rar") {
        4
    } else if str_has_suffix_ci(n, ".zip") {
        4
    } else if str_has_suffix_ci(n, ".7z") {
        3
    } else if str_has_suffix_ci(n, ".tar") {
        4
    } else if str_has_suffix_ci(n, ".001") {
        4
    } else {
        0
    }
}

/// The file name without its archive extension (`.part01.rar`, tar
/// extensions, `.rar`, `.zip`, `.7z`, `.001`), ASCII case ignored.
pub fn strip_archive_extension(file_name: &str) -> (r: String)
    ensures
        r@ == strip_ext(file_name@),
{
    let n = chars_of(file_name);
    let k = stripped_len(&n);
    let head = crate::text::slice_chars(&n, 0, n.len() - k);
    assert(head@ =~= strip_ext(file_name@));
    string_of(&head)
}

/// The name shared by all volumes of the archive set of `file_name`.
pub fn cleanup_group_prefix(file_name: &str) -> (r: String)
    ensures
        r@ == group_prefix(file_name@),
{
    let n = chars_of(file_name);
    let k = match part_set_base_len(&n) {
        Some(k) => k,
        None => match split_set_base_len(&n) {
            Some(k) => k,
            None => match legacy_set_base_len(&n) {
                Some(k) => k,
                None => n.len() - stripped_len(&n),
            },
        },
    };
    let head = crate::text::slice_chars(&n, 0, k);
    assert(head@ =~= n@.take(k as int));
    string_of(&head)
}

/// For an archive file in the watch root, the volume that starts its set:
/// `X.partN.rar` maps to `X.part01.rar`, `X.NNN` to `X.001`, `X.rNN` to
/// `X.rar`; any other archive maps to itself. `None` for other files.
pub fn root_archive_target(path: &str) -> (r: Option<String>)
    ensures
        match r {
            Some(t) => root_target(path@) == Some(t@),
            None => root_target(path@) is None,
        },
{
    let name = match paths::file_name(path) {
        Some(name) => name,
        None => return None,
    };
    if !is_archive_file_name(name.as_str()) {
        return None;
    }
    let parent = match paths::parent(path) {
        Some(p) => p,
        None => return None,
    };
    let n = chars_of(name.as_str());
    let (k, ext) = match part_set_base_len(&n) {
        Some(k) => (k, ".part01.rar"),
        None => match split_set_base_len(&n) {
            Some(k) => (k, ".001"),
            None => match legacy_set_base_len(&n) {
                Some(k) => (k, ".rar"),
                None => {
                    return Some(crate::text::copy_str(path));
                },
            },
        },
    };
    let mut base = crate::text::slice_chars(&n, 0, k);
    crate::text::extend_str(&mut base, ext);
    let base_s = string_of(&base);
    Some(paths::join(parent.as_str(), base_s.as_str()))
}

fn is_numbered_suffix(s: &[char]) -> (r: bool)
    ensures
        r == is_numbered(s@),
{
    s.len() == 3 && '0' <= s[0] && s[0] <= '9' && '0' <= s[1] && s[1] <= '9' && '0' <= s[2]
        && s[2] <= '9'
}

fn eq_with_ext(lower: &[char], p: &[char], ext: &str) -> (r: bool)
    ensures
        r == (lower@ == p@ + ext@),
{
    let mut q: Vec<char> = Vec::new();
    crate::text::extend_chars(&mut q, p);
    crate::text::extend_str(&mut q, ext);
    crate::text::chars_eq(lower, &q)
}

fn starts_with_ext(lower: &[char], p: &[char], ext: &str) -> (r: bool)
    ensures
        r == (p@ + ext@).is_prefix_of(lower@),
{
    let mut q: Vec<char> = Vec::new();
    crate::text::extend_chars(&mut q, p);
    crate::text::extend_str(&mut q, ext);
    has_prefix(lower, &q)
}

/// Whether `file_name` is a volume of the archive set named `group_prefix`;
/// both are compared lower-cased.
pub fn belongs_to_cleanup_group(file_name: &str, group_prefix: &str) -> (r: bool)
    ensures
        r == in_group(lowercase(file_name@), lowercase(group_prefix@)),
{
    let lower_s = to_lowercase(file_name);
    let prefix_s = to_lowercase(group_prefix);
    let l = chars_of(lower_s.as_str());
    let p = chars_of(prefix_s.as_str());
    if eq_with_ext(&l, &p, ".rar") || eq_with_ext(&l, &p, ".zip") || eq_with_ext(&l, &p, ".7z")
        || eq_with_ext(&l, &p, ".tar") || eq_with_ext(&l, &p, ".tar.gz") || eq_with_ext(
        &l,
        &p,
        ".tgz",
    ) || eq_with_ext(&l, &p, ".tar.xz") || eq_with_ext(&l, &p, ".txz") || eq_with_ext(
        &l,
        &p,
        ".tar.bz2",
    ) || eq_with_ext(&l, &p, ".tbz2") {
        return true;
    }
    if starts_with_ext(&l, &p, ".part") && crate::text::str_has_suffix(&l, ".rar") {
        return true;
    }
    let dot = starts_with_ext(&l, &p, ".");
    if dot {
        assert((p@ + "."@).is_prefix_of(l@));
        proof {
            reveal_strlit(".");
        }
        assert((p@ + "."@).len() == p@.len() + 1);
        assert(l@.len() >= p@.len() + 1);
        let pl = p.len();
        let ll = l.len();
        assert(ll >= pl + 1);
        let rest = crate::text::slice_chars(&l, pl + 1, ll);
        assert(rest@ =~= l@.skip(p@.len() + 1 as int));
        if is_numbered_suffix(&rest) {
            return true;
        }
    }
    starts_with_ext(&l, &p, ".r")
}

/// Replaces every character except ASCII letters, digits, `.`, `_` and `-`
/// by `_`.
pub fn sanitize_name(name: &str) -> (r: String)
    ensures
        r@ == sanitize(name@),
{
    let n = chars_of(name);
    let mut out: Vec<char> = Vec::new();
    let mut i: usize = 0;
    while i < n.len()
        invariant
            i <= n@.len(),
            out@ == sanitize(n@.take(i as int)),
        decreases n.len() - i,
    {
        let c = n[i];
        let keep = ('0' <= c && c <= '9') || ('a' <= c && c <= 'z') || ('A' <= c && c <= 'Z')
            || c == '.' || c == '_' || c == '-';
        if keep {
            out.push(c);
        } else {
            out.push('_');
        }
        assert(sanitize(n@.take(i + 1)) =~= sanitize(n@.take(i as int)).push(
            sanitize(n@.take(i + 1))[i as int],
        ));
        i = i + 1;
    }
    assert(n@.take(n@.len() as int) =~= n@);
    string_of(&out)
}

/// Whether a (lower-cased) file name ends with a tar extension.
pub fn is_tar_archive_name(file_name: &str) -> (r: bool)
    ensures
        r == is_tar_name(file_name@),
{
    let n = chars_of(file_name);
    str_has_suffix(&n, ".tar") || str_has_suffix(&n, ".tar.gz") || str_has_suffix(&n, ".tgz")
        || str_has_suffix(&n, ".tar.xz") || str_has_suffix(&n, ".txz") || str_has_suffix(
        &n,
        ".tar.bz2",
    ) || str_has_suffix(&n, ".tbz2")
}

/// Every split volume belongs to its set: for any set name `p` and any
/// three digits, `p.ddd` (`.001`, `.002`, ...) is in the cleanup group of
/// `p`, so all volumes of a split archive are cleaned up with it.
pub proof fn law_split_volumes_in_group(p: Seq<char>, d1: char, d2: char, d3: char)
    requires
        is_digit(d1),
        is_digit(d2),
        is_digit(d3),
    ensures
        in_group(p + "."@ + seq![d1, d2, d3], p),
{
    reveal_strlit(".");
    let name = p + "."@ + seq![d1, d2, d3];
    assert((p + "."@).is_prefix_of(name)) by {
        assert(name.subrange(0, (p + "."@).len() as int) =~= p + "."@);
    }
    assert(name.skip(p.len() + 1 as int) =~= seq![d1, d2, d3]);
}

} // verus!
