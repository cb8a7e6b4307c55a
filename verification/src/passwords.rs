//! The password list: one password per line, `#` starts a comment line.
use crate::paths::{is_absolute, path_is_absolute, path_starts_with, starts_with_path};
use crate::text::{
    chars_of, contains_char, extend_chars, extend_str, lemma_split_nl_nonempty,
    lemma_trim_idempotent, lines, split_lines, split_nl, str_has_suffix, string_of, strip_cr, trim,
    trim_chars, trim_str,
};
use crate::toml_edit::join_lines;
use vstd::prelude::*;

verus! {

/// A line that holds a password: not empty once trimmed, not a comment.
pub open spec fn is_password_line(t: Seq<char>) -> bool {
    t.len() > 0 && t[0] != '#'
}

/// The passwords of a list: its lines trimmed, empty and comment lines
/// left out.
pub open spec fn password_entries(ls: Seq<Seq<char>>) -> Seq<Seq<char>>
    decreases ls.len(),
{
    if ls.len() == 0 {
        Seq::empty()
    } else {
        let prev = password_entries(ls.drop_last());
        let t = trim(ls.last());
        if is_password_line(t) {
            prev.push(t)
        } else {
            prev
        }
    }
}

/// The passwords in the text of a password list.
pub fn parse_passwords(content: &str) -> (r: Vec<String>)
    ensures
        r@.map_values(|s: String| s@) == password_entries(lines(content@)),
{
    let text = chars_of(content);
    let ls = split_lines(&text);
    let ghost lv = lines(content@);
    let mut out: Vec<String> = Vec::new();
    let mut i: usize = 0;
    assert(out@.map_values(|s: String| s@) =~= password_entries(lv.take(0)));
    while i < ls.len()
        invariant
            i <= ls@.len(),
            ls@.len() == lv.len(),
            lv == lines(content@),
            forall|k: int| 0 <= k < ls@.len() ==> #[trigger] ls@[k]@ == lv[k],
            out@.map_values(|s: String| s@) == password_entries(lv.take(i as int)),
        decreases ls.len() - i,
    {
        assert(lv.take(i + 1).drop_last() =~= lv.take(i as int));
        assert(lv.take(i + 1).last() == ls@[i as int]@);
        let t = trim_chars(&ls[i]);
        if t.len() > 0 && t[0] != '#' {
            let ghost before = out@.map_values(|s: String| s@);
            out.push(string_of(&t));
            assert(out@.map_values(|s: String| s@) =~= before.push(t@));
        }
        i = i + 1;
    }
    assert(lv.take(lv.len() as int) =~= lv);
    out
}

/// How many passwords the list holds.
pub fn count_passwords(content: &str) -> (r: usize)
    ensures
        r == password_entries(lines(content@)).len(),
{
    let p = parse_passwords(content);
    p.len()
}

/// Why a change of the password list is refused.
#[derive(Clone, Copy, PartialEq, Eq, Structural, Debug)]
pub enum PasswordError {
    Empty,
    LineBreak,
    NoPasswordFile,
    NotAbsolute,
    OutsideConfig,
    Duplicate,
    EmptyList,
}

impl PasswordError {
    pub fn message(&self) -> (r: &'static str)
        ensures
            r@ == password_error_message(*self),
    {
        match self {
            PasswordError::Empty => "Passwort darf nicht leer sein",
            PasswordError::LineBreak => "Ein einzelnes Passwort darf keinen Zeilenumbruch enthalten",
            PasswordError::NoPasswordFile => "Keine Passwortdatei konfiguriert",
            PasswordError::NotAbsolute => "Passwortdatei muss ein absoluter Pfad im Container sein",
            PasswordError::OutsideConfig => "Aus Sicherheitsgründen kann die WebUI nur Passwortdateien unter /config bearbeiten",
            PasswordError::Duplicate => "Dieses Passwort ist bereits in der Liste",
            PasswordError::EmptyList => "Die neue Passwortliste darf nicht leer sein",
        }
    }
}

pub open spec fn password_error_message(e: PasswordError) -> Seq<char> {
    match e {
        PasswordError::Empty => "Passwort darf nicht leer sein"@,
        PasswordError::LineBreak => "Ein einzelnes Passwort darf keinen Zeilenumbruch enthalten"@,
        PasswordError::NoPasswordFile => "Keine Passwortdatei konfiguriert"@,
        PasswordError::NotAbsolute => "Passwortdatei muss ein absoluter Pfad im Container sein"@,
        PasswordError::OutsideConfig => "Aus Sicherheitsgründen kann die WebUI nur Passwortdateien unter /config bearbeiten"@,
        PasswordError::Duplicate => "Dieses Passwort ist bereits in der Liste"@,
        PasswordError::EmptyList => "Die neue Passwortliste darf nicht leer sein"@,
    }
}

/// A password to add: trimmed, not empty, on one line.
pub open spec fn new_password_result(password: Seq<char>) -> Result<Seq<char>, PasswordError> {
    let p = trim(password);
    if p.len() == 0 {
        Err(PasswordError::Empty)
    } else if p.contains('\n') || p.contains('\r') {
        Err(PasswordError::LineBreak)
    } else {
        Ok(p)
    }
}

pub fn check_new_password(password: &str) -> (r: Result<String, PasswordError>)
    ensures
        match r {
            Ok(p) => new_password_result(password@) == Ok::<Seq<char>, PasswordError>(p@),
            Err(e) => new_password_result(password@) == Err::<Seq<char>, PasswordError>(e),
        },
{
    let p = trim_str(password);
    if p.len() == 0 {
        return Err(PasswordError::Empty);
    }
    if contains_char(&p, '\n') || contains_char(&p, '\r') {
        return Err(PasswordError::LineBreak);
    }
    Ok(string_of(&p))
}

/// The configured password file, when one is configured.
pub fn password_file_path(password_file: &str) -> (r: Result<String, PasswordError>)
    ensures
        match r {
            Ok(p) => trim(password_file@).len() > 0 && p@ == password_file@,
            Err(e) => trim(password_file@).len() == 0 && e == PasswordError::NoPasswordFile,
        },
{
    if crate::text::is_blank(password_file) {
        return Err(PasswordError::NoPasswordFile);
    }
    Ok(crate::text::copy_str(password_file))
}

/// The web interface edits only absolute password files under `/config`.
pub open spec fn password_path_fault(path: Seq<char>) -> Option<PasswordError> {
    if !is_absolute(path) {
        Some(PasswordError::NotAbsolute)
    } else if !path_starts_with(path, "/config"@) {
        Some(PasswordError::OutsideConfig)
    } else {
        None
    }
}

pub fn ensure_password_path_is_safe(path: &str) -> (r: Result<(), PasswordError>)
    ensures
        match r {
            Ok(()) => password_path_fault(path@) is None,
            Err(e) => password_path_fault(path@) == Some(e),
        },
{
    if !path_is_absolute(path) {
        return Err(PasswordError::NotAbsolute);
    }
    if !starts_with_path(path, "/config") {
        return Err(PasswordError::OutsideConfig);
    }
    Ok(())
}

/// Whether some non-empty line of the list, trimmed, is the password.
pub open spec fn listed(ls: Seq<Seq<char>>, password: Seq<char>) -> bool {
    exists|i: int| 0 <= i < ls.len() && trim(#[trigger] ls[i]).len() > 0 && trim(ls[i]) == password
}

/// The list after a password was added at its end, on a line of its own.
pub open spec fn appended_text(content: Seq<char>, password: Seq<char>) -> Seq<char> {
    let sep = if content.len() > 0 && !"\n"@.is_suffix_of(content) {
        "\n"@
    } else {
        Seq::empty()
    };
    content + sep + password + "\n"@
}

/// Adds a (checked) password to the text of the list; a password that is
/// already listed is refused.
pub fn append_password_to_content(content: &str, password: &str) -> (r: Result<String, PasswordError>)
    ensures
        match r {
            Ok(t) => !listed(lines(content@), password@) && t@ == appended_text(content@, password@),
            Err(e) => listed(lines(content@), password@) && e == PasswordError::Duplicate,
        },
{
    let text = chars_of(content);
    let pw = chars_of(password);
    let ls = split_lines(&text);
    let ghost lv = lines(content@);
    let mut i: usize = 0;
    while i < ls.len()
        invariant
            i <= ls@.len(),
            ls@.len() == lv.len(),
            lv == lines(content@),
            pw@ == password@,
            forall|k: int| 0 <= k < ls@.len() ==> #[trigger] ls@[k]@ == lv[k],
            forall|k: int| 0 <= k < i ==> trim(#[trigger] lv[k]).len() == 0 || trim(lv[k]) != password@,
        decreases ls.len() - i,
    {
        let t = trim_chars(&ls[i]);
        if t.len() > 0 && crate::text::chars_eq(&t, &pw) {
            assert(trim(lv[i as int]) == password@);
            return Err(PasswordError::Duplicate);
        }
        i = i + 1;
    }
    let mut out = text;
    let needs_break = out.len() > 0 && !str_has_suffix(&out, "\n");
    if needs_break {
        extend_str(&mut out, "\n");
    }
    extend_chars(&mut out, &pw);
    extend_str(&mut out, "\n");
    assert(out@ =~= appended_text(content@, password@));
    Ok(string_of(&out))
}

/// The new list that replaces the old one: the passwords of the entered
/// text, one per line; an entry without passwords is refused.
pub open spec fn replacement_result(passwords: Seq<char>) -> Result<(Seq<char>, nat), PasswordError> {
    let entries = password_entries(lines(passwords));
    if entries.len() == 0 {
        Err(PasswordError::EmptyList)
    } else {
        Ok((join_lines(entries) + "\n"@, entries.len()))
    }
}

pub fn replace_password_content(passwords: &str) -> (r: Result<(String, usize), PasswordError>)
    ensures
        match r {
            Ok((t, n)) => replacement_result(passwords@) == Ok::<(Seq<char>, nat), PasswordError>(
                (t@, n as nat),
            ),
            Err(e) => replacement_result(passwords@) == Err::<(Seq<char>, nat), PasswordError>(e),
        },
{
    let cleaned = parse_passwords(passwords);
    let ghost entries = password_entries(lines(passwords@));
    if cleaned.len() == 0 {
        return Err(PasswordError::EmptyList);
    }
    let mut out: Vec<char> = Vec::new();
    let mut i: usize = 0;
    while i < cleaned.len()
        invariant
            i <= cleaned@.len(),
            cleaned@.map_values(|s: String| s@) == entries,
            out@ == join_lines(entries.take(i as int)),
        decreases cleaned.len() - i,
    {
        assert(entries.take(i + 1).drop_last() =~= entries.take(i as int));
        assert(entries.take(i + 1).last() == cleaned@[i as int]@);
        if i > 0 {
            extend_str(&mut out, "\n");
        }
        extend_str(&mut out, cleaned[i].as_str());
        proof {
            if i == 0 {
                assert(entries.take(1) =~= seq![entries[0]]);
            }
        }
        assert(out@ =~= join_lines(entries.take(i + 1)));
        i = i + 1;
    }
    assert(entries.take(entries.len() as int) =~= entries);
    extend_str(&mut out, "\n");
    Ok((string_of(&out), cleaned.len()))
}

} // verus!

verus! {

/// Characters without a line feed appended to a text extend its last piece.
proof fn lemma_split_nl_extend(x: Seq<char>, q: Seq<char>)
    requires
        !q.contains('\n'),
    ensures
        split_nl(x + q) == split_nl(x).update(
            split_nl(x).len() - 1,
            split_nl(x).last() + q,
        ),
        split_nl(x + q).len() == split_nl(x).len(),
    decreases q.len(),
{
    lemma_split_nl_nonempty(x);
    if q.len() == 0 {
        assert(x + q =~= x);
        assert(split_nl(x).last() + q =~= split_nl(x).last());
        assert(split_nl(x).update(split_nl(x).len() - 1, split_nl(x).last()) =~= split_nl(x));
    } else {
        let q0 = q.drop_last();
        assert(!q0.contains('\n')) by {
            if q0.contains('\n') {
                let k = choose|k: int| 0 <= k < q0.len() && q0[k] == '\n';
                assert(q[k] == '\n');
            }
        }
        lemma_split_nl_extend(x, q0);
        let s = x + q;
        assert(s.drop_last() =~= x + q0);
        assert(s.last() == q.last());
        assert(q.last() != '\n') by {
            assert(q[q.len() - 1] == q.last());
        }
        let p = split_nl(x + q0);
        assert(split_nl(s) == p.update(p.len() - 1, p.last().push(s.last())));
        assert(p.last() == split_nl(x).last() + q0);
        assert(p.last().push(s.last()) =~= split_nl(x).last() + q);
        assert(split_nl(s) =~= split_nl(x).update(split_nl(x).len() - 1, split_nl(x).last() + q));
    }
}

/// The last line of a text that ends with a line of its own.
proof fn lemma_last_line(x: Seq<char>, p: Seq<char>)
    requires
        x.len() == 0 || x.last() == '\n',
        !p.contains('\n'),
        p.len() > 0,
        p.last() != '\r',
    ensures
        lines(x + p + "\n"@).len() > 0,
        lines(x + p + "\n"@).last() == p,
{
    reveal_strlit("\n");
    lemma_split_nl_nonempty(x);
    assert(split_nl(x).last().len() == 0) by {
        if x.len() == 0 {
            assert(split_nl(x) == seq![Seq::<char>::empty()]);
        } else {
            assert(split_nl(x) == split_nl(x.drop_last()).push(Seq::<char>::empty()));
        }
    }
    lemma_split_nl_extend(x, p);
    let y = x + p + "\n"@;
    assert(y.drop_last() =~= x + p);
    assert(y.last() == '\n');
    let s = split_nl(x + p);
    assert(split_nl(y) == s.push(Seq::<char>::empty()));
    assert(s.last() =~= p);
    let all = split_nl(y);
    assert(all.take(all.len() - 1) =~= s);
    assert(lines(y) == s.map_values(|l: Seq<char>| strip_cr(l)));
    assert(strip_cr(p) == p);
}

/// A password added through the settings form (accepted by the check of
/// a new password) is the last entry of the list read back, unless it
/// starts with `#`, which marks a comment line.
pub proof fn law_added_password_is_read_back(content: Seq<char>, password: Seq<char>)
    requires
        new_password_result(password) is Ok,
        trim(password)[0] != '#',
    ensures
        ({
            let p = trim(password);
            let entries = password_entries(lines(appended_text(content, p)));
            &&& entries.len() > 0
            &&& entries.last() == p
            &&& listed(lines(appended_text(content, p)), p)
        }),
{
    reveal_strlit("\n");
    let p = trim(password);
    lemma_trim_idempotent(password);
    assert(p.len() > 0);
    assert(!p.contains('\n') && !p.contains('\r'));
    assert(p.last() != '\r') by {
        assert(p[p.len() - 1] == p.last());
    }
    let sep = if content.len() > 0 && !"\n"@.is_suffix_of(content) {
        "\n"@
    } else {
        Seq::empty()
    };
    let x = content + sep;
    assert(x.len() == 0 || x.last() == '\n') by {
        if content.len() > 0 && !"\n"@.is_suffix_of(content) {
            assert(x.last() == '\n');
        } else if content.len() > 0 {
            assert(content.subrange(content.len() - 1, content.len() as int) == "\n"@);
            assert(content.subrange(content.len() - 1, content.len() as int)[0] == content.last());
            assert(x =~= content);
        } else {
            assert(x =~= Seq::<char>::empty());
        }
    }
    assert(appended_text(content, p) =~= x + p + "\n"@);
    lemma_last_line(x, p);
    let ls = lines(appended_text(content, p));
    assert(trim(ls.last()) == p);
    assert(is_password_line(p));
    assert(password_entries(ls) == password_entries(ls.drop_last()).push(p));
    assert(trim(ls[ls.len() - 1]) == p);
}

} // verus!
