//! Editing single values of a TOML configuration text in place, keeping
//! every other line as it was.
use crate::text::{
    chars_eq, extend_chars, has_prefix, lines, split_lines, trim, trim_chars,
    trim_start, trim_start_chars,
};
use vstd::prelude::*;

verus! {

/// Lines joined with `\n` between them (`[String]::join("\n")`).
pub open spec fn join_lines(ls: Seq<Seq<char>>) -> Seq<char>
    decreases ls.len(),
{
    if ls.len() == 0 {
        Seq::empty()
    } else if ls.len() == 1 {
        ls[0]
    } else {
        join_lines(ls.drop_last()) + "\n"@ + ls.last()
    }
}

/// The joined lines, with a final line feed when the input text had one.
pub open spec fn finish_lines(ls: Seq<Seq<char>>, trailing_newline: bool) -> Seq<char> {
    if trailing_newline {
        join_lines(ls) + "\n"@
    } else {
        join_lines(ls)
    }
}

/// A section header: a trimmed line of the form `[...]`.
pub open spec fn is_header(t: Seq<char>) -> bool {
    t.len() > 0 && t[0] == '[' && t.last() == ']'
}

/// `i` is the position of the first `c` in `s`, or `s.len()` when there is none.
pub open spec fn is_first_pos(s: Seq<char>, c: char, i: int) -> bool {
    &&& 0 <= i <= s.len()
    &&& (i == s.len() || s[i] == c)
    &&& forall|k: int| 0 <= k < i ==> s[k] != c
}

/// Position of the first `c` in `s`, or `s.len()` when there is none.
pub open spec fn first_pos(s: Seq<char>, c: char) -> int {
    choose|i: int| is_first_pos(s, c, i)
}

/// The part of a line before its first `#`.
pub open spec fn before_hash(line: Seq<char>) -> Seq<char> {
    line.take(first_pos(line, '#'))
}

/// A line that assigns `key`: after the key (ignoring leading whitespace and
/// anything after `#`) comes, after optional whitespace, an `=`.
pub open spec fn assigns_key(line: Seq<char>, key: Seq<char>) -> bool {
    let cand = trim_start(before_hash(line));
    key.is_prefix_of(cand) && {
        let rest = trim_start(cand.skip(key.len() as int));
        rest.len() > 0 && rest[0] == '='
    }
}

/// The replacement for an assignment line: its indentation, `key=value`,
/// and its comment (from the first `#`) after one space.
pub open spec fn replaced_line(line: Seq<char>, key: Seq<char>, value: Seq<char>) -> Seq<char> {
    let indent = line.take(line.len() - trim_start(line).len());
    let comment = if line.contains('#') {
        " "@ + line.skip(first_pos(line, '#'))
    } else {
        Seq::empty()
    };
    indent + key + "="@ + value + comment
}

pub enum ScanOutcome {
    /// The assignment of the key at this line is replaced.
    Replace(int),
    /// No assignment found; whether the section exists, and the index of the
    /// header that follows it, if any.
    Missing { found: bool, insert_at: Option<int> },
}

/// The scan of `set_toml_value` from line `i` on, in the given state.
pub open spec fn scan(
    ls: Seq<Seq<char>>,
    section: Seq<char>,
    key: Seq<char>,
    i: int,
    in_target: bool,
    found: bool,
    insert_at: Option<int>,
) -> ScanOutcome
    decreases ls.len() - i,
{
    if i < 0 || i >= ls.len() {
        ScanOutcome::Missing { found, insert_at }
    } else {
        let t = trim(ls[i]);
        if is_header(t) {
            let next_insert = if in_target && insert_at is None {
                Some(i)
            } else {
                insert_at
            };
            let now_target = t.subrange(1, t.len() - 1) == section;
            scan(ls, section, key, i + 1, now_target, found || now_target, next_insert)
        } else if !in_target {
            scan(ls, section, key, i + 1, in_target, found, insert_at)
        } else if assigns_key(ls[i], key) {
            ScanOutcome::Replace(i)
        } else {
            scan(ls, section, key, i + 1, in_target, found, insert_at)
        }
    }
}

/// The new lines after setting `key` in `[section]` to `value`.
pub open spec fn set_lines(
    ls: Seq<Seq<char>>,
    section: Seq<char>,
    key: Seq<char>,
    value: Seq<char>,
) -> Seq<Seq<char>> {
    let assignment = key + "="@ + value;
    match scan(ls, section, key, 0, false, false, None) {
        ScanOutcome::Replace(i) => ls.update(i, replaced_line(ls[i], key, value)),
        ScanOutcome::Missing { found, insert_at } => if found {
            let at = match insert_at {
                Some(k) => k,
                None => ls.len() as int,
            };
            ls.insert(at, assignment)
        } else {
            let sep = if ls.len() == 0 {
                Seq::<Seq<char>>::empty()
            } else {
                seq![Seq::<char>::empty()]
            };
            ls + sep + seq!["["@ + section + "]"@, assignment]
        },
    }
}

/// The configuration text after `key` in `[section]` has been set to the
/// (already TOML-encoded) `value`.
pub open spec fn set_toml(
    content: Seq<char>,
    section: Seq<char>,
    key: Seq<char>,
    value: Seq<char>,
) -> Seq<char> {
    finish_lines(
        set_lines(lines(content), section, key, value),
        "\n"@.is_suffix_of(content),
    )
}

// ------------------------------------------------------------------
// Implementation
// ------------------------------------------------------------------

pub fn first_index_of(s: &[char], c: char) -> (i: usize)
    ensures
        i == first_pos(s@, c),
        is_first_pos(s@, c, i as int),
{
    let mut i: usize = 0;
    while i < s.len() && s[i] != c
        invariant
            i <= s@.len(),
            forall|k: int| 0 <= k < i ==> s@[k] != c,
        decreases s.len() - i,
    {
        i = i + 1;
    }
    assert(is_first_pos(s@, c, i as int));
    let ghost p = first_pos(s@, c);
    proof {
        assert(is_first_pos(s@, c, p));
        if p < i {
            assert(s@[p] != c);
        }
        if i < p {
            assert(s@[i as int] != c);
        }
    }
    i
}

pub fn join_vec_lines(ls: &Vec<Vec<char>>) -> (r: Vec<char>)
    ensures
        r@ == join_lines(ls@.map_values(|l: Vec<char>| l@)),
{
    let ghost v = ls@.map_values(|l: Vec<char>| l@);
    let mut out: Vec<char> = Vec::new();
    let mut i: usize = 0;
    while i < ls.len()
        invariant
            i <= ls@.len(),
            v == ls@.map_values(|l: Vec<char>| l@),
            out@ == join_lines(v.take(i as int)),
        decreases ls.len() - i,
    {
        assert(v.take(i + 1).drop_last() =~= v.take(i as int));
        assert(v.take(i + 1).last() == ls@[i as int]@);
        if i > 0 {
            out.push('\n');
        }
        extend_chars(&mut out, &ls[i]);
        proof {
            reveal_strlit("\n");
            if i == 0 {
                assert(v.take(1) =~= seq![ls@[0]@]);
            } else {
                assert(out@ =~= join_lines(v.take(i as int)) + "\n"@ + ls@[i as int]@);
            }
        }
        i = i + 1;
    }
    assert(v.take(ls@.len() as int) =~= v);
    out
}

fn key_assigned(line: &[char], key: &[char]) -> (r: bool)
    ensures
        r == assigns_key(line@, key@),
{
    let h = first_index_of(line, '#');
    let before = crate::text::slice_chars(line, 0, h);
    assert(before@ =~= before_hash(line@));
    let cand = trim_start_chars(&before);
    if !has_prefix(&cand, key) {
        return false;
    }
    let after = crate::text::slice_chars(&cand, key.len(), cand.len());
    assert(after@ =~= cand@.skip(key@.len() as int));
    let rest = trim_start_chars(&after);
    rest.len() > 0 && rest[0] == '='
}

fn replacement_line(line: &[char], key: &[char], value: &[char]) -> (r: Vec<char>)
    ensures
        r@ == replaced_line(line@, key@, value@),
{
    let start = crate::text::trim_start_index(line);
    let indent = crate::text::slice_chars(line, 0, start);
    let mut out = indent;
    extend_chars(&mut out, key);
    out.push('=');
    extend_chars(&mut out, value);
    let h = first_index_of(line, '#');
    if h < line.len() {
        assert(line@.contains('#'));
        out.push(' ');
        let c = crate::text::slice_chars(line, h, line.len());
        extend_chars(&mut out, &c);
        proof {
            reveal_strlit(" ");
            reveal_strlit("=");
            assert(c@ =~= line@.skip(h as int));
        }
        assert(out@ =~= replaced_line(line@, key@, value@));
    } else {
        assert(!line@.contains('#'));
        proof {
            reveal_strlit("=");
        }
        assert(out@ =~= replaced_line(line@, key@, value@));
    }
    out
}

fn section_name_matches(t: &[char], section: &[char]) -> (r: bool)
    requires
        is_header(t@),
    ensures
        r == (t@.subrange(1, t@.len() - 1) == section@),
{
    if t.len() < 2 {
        assert(t@.subrange(1, t@.len() - 1).len() == 0 || t@.len() < 2);
        // a header has at least its two brackets
        assert(t@.len() == 1 ==> t@[0] == '[' && t@.last() == ']');
        return false;
    }
    let inner = crate::text::slice_chars(t, 1, t.len() - 1);
    chars_eq(&inner, section)
}

/// Sets `key` in `[section]` of a TOML text to `value` (already encoded):
/// an existing assignment in that section is replaced in place (keeping its
/// indentation and comment), otherwise the assignment is added at the end
/// of the section, or a new section is appended.
pub fn set_toml_value(content: &str, section: &str, key: &str, value: &str) -> (r: String)
    ensures
        r@ == set_toml(content@, section@, key@, value@),
{
    let text = crate::text::chars_of(content);
    let sec = crate::text::chars_of(section);
    let k = crate::text::chars_of(key);
    let val = crate::text::chars_of(value);
    let mut ls = split_lines(&text);
    let ghost lv = lines(content@);
    assert(ls@.map_values(|l: Vec<char>| l@) =~= lv);
    let trailing = crate::text::str_has_suffix(&text, "\n");
    let mut in_target = false;
    let mut found = false;
    let mut insert_at: Option<usize> = None;
    let mut i: usize = 0;
    let ghost start = scan(lv, sec@, k@, 0, false, false, None);
    while i < ls.len()
        invariant
            i <= ls@.len(),
            lv == ls@.map_values(|l: Vec<char>| l@),
            lv == lines(content@),
            trailing == "\n"@.is_suffix_of(content@),
            sec@ == section@,
            k@ == key@,
            val@ == value@,
            start == scan(lv, sec@, k@, 0, false, false, None),
            start == scan(
                lv,
                sec@,
                k@,
                i as int,
                in_target,
                found,
                match insert_at {
                    Some(x) => Some(x as int),
                    None => None,
                },
            ),
            match insert_at {
                Some(x) => x < i,
                None => true,
            },
        decreases ls.len() - i,
    {
        let t = trim_chars(&ls[i]);
        assert(t@ == trim(lv[i as int]));
        let header = t.len() > 0 && t[0] == '[' && t[t.len() - 1] == ']';
        if header {
            if in_target && insert_at.is_none() {
                insert_at = Some(i);
            }
            in_target = section_name_matches(&t, &sec);
            if in_target {
                found = true;
            }
        } else if in_target && key_assigned(&ls[i], &k) {
            assert(ls@[i as int]@ == lv[i as int]);
            assert(scan(lv, sec@, k@, i as int, in_target, found, match insert_at {
                Some(x) => Some(x as int),
                None => None,
            }) == ScanOutcome::Replace(i as int));
            let new_line = replacement_line(&ls[i], &k, &val);
            ls[i] = new_line;
            assert(ls@.map_values(|l: Vec<char>| l@) =~= lv.update(
                i as int,
                replaced_line(lv[i as int], k@, val@),
            ));
            assert(start == ScanOutcome::Replace(i as int));
            assert(set_lines(lv, sec@, k@, val@) == lv.update(
                i as int,
                replaced_line(lv[i as int], k@, val@),
            ));
            assert(trailing == "\n"@.is_suffix_of(content@));
            let joined = finish_vec(&ls, trailing);
            assert(joined@ == set_toml(content@, section@, key@, value@));
            return crate::text::string_of(&joined);
        }
        i = i + 1;
    }
    if found {
        let at = match insert_at {
            Some(x) => x,
            None => ls.len(),
        };
        let mut assignment = k.clone();
        assignment.push('=');
        extend_chars(&mut assignment, &val);
        proof {
            reveal_strlit("=");
        }
        assert(assignment@ =~= k@ + "="@ + val@);
        ls.insert(at, assignment);
        assert(ls@.map_values(|l: Vec<char>| l@) =~= lv.insert(at as int, k@ + "="@ + val@));
    } else {
        let ghost was_empty = ls@.len() == 0;
        if ls.len() > 0 {
            ls.push(Vec::new());
        }
        let mut header: Vec<char> = Vec::new();
        header.push('[');
        extend_chars(&mut header, &sec);
        header.push(']');
        let mut assignment = k.clone();
        assignment.push('=');
        extend_chars(&mut assignment, &val);
        proof {
            reveal_strlit("=");
            reveal_strlit("[");
            reveal_strlit("]");
        }
        assert(header@ =~= "["@ + sec@ + "]"@);
        assert(assignment@ =~= k@ + "="@ + val@);
        ls.push(header);
        ls.push(assignment);
        let ghost sep = if was_empty {
            Seq::<Seq<char>>::empty()
        } else {
            seq![Seq::<char>::empty()]
        };
        assert(ls@.map_values(|l: Vec<char>| l@) =~= lv + sep + seq![
            "["@ + sec@ + "]"@,
            k@ + "="@ + val@,
        ]);
    }
    let joined = finish_vec(&ls, trailing);
    crate::text::string_of(&joined)
}

fn finish_vec(ls: &Vec<Vec<char>>, trailing: bool) -> (r: Vec<char>)
    ensures
        r@ == finish_lines(ls@.map_values(|l: Vec<char>| l@), trailing),
{
    let mut out = join_vec_lines(ls);
    if trailing {
        out.push('\n');
        proof {
            reveal_strlit("\n");
        }
        assert(out@ =~= join_lines(ls@.map_values(|l: Vec<char>| l@)) + "\n"@);
    }
    out
}

} // verus!
