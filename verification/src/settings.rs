//! The settings form of the web interface: its checks, and the edits it
//! makes to the configuration text.
use crate::config::{bool_text, views};
use crate::paths::is_absolute;
use crate::text::{chars_of, dec, extend_str, lines, split_lines, string_of, trim, trim_chars};
use crate::toml_edit::{set_toml, set_toml_value};
use vstd::prelude::*;

verus! {

// ------------------------------------------------------------------
// TOML values
// ------------------------------------------------------------------

/// One character inside a TOML basic string: backslash, quote, line feed
/// and carriage return are escaped.
pub open spec fn toml_escape_char(c: char) -> Seq<char> {
    if c == '\\' {
        seq!['\\', '\\']
    } else if c == '"' {
        seq!['\\', '"']
    } else if c == '\n' {
        seq!['\\', 'n']
    } else if c == '\r' {
        seq!['\\', 'r']
    } else {
        seq![c]
    }
}

pub open spec fn toml_escaped(s: Seq<char>) -> Seq<char>
    decreases s.len(),
{
    if s.len() == 0 {
        Seq::empty()
    } else {
        toml_escaped(s.drop_last()) + toml_escape_char(s.last())
    }
}

/// A TOML basic string holding `s`.
pub open spec fn toml_quoted(s: Seq<char>) -> Seq<char> {
    seq!['"'] + toml_escaped(s) + seq!['"']
}

/// The quoted strings, separated by `, `.
pub open spec fn quoted_list(vs: Seq<Seq<char>>) -> Seq<char>
    decreases vs.len(),
{
    if vs.len() == 0 {
        Seq::empty()
    } else if vs.len() == 1 {
        toml_quoted(vs[0])
    } else {
        quoted_list(vs.drop_last()) + ", "@ + toml_quoted(vs.last())
    }
}

/// A TOML array of strings.
pub open spec fn toml_array(vs: Seq<Seq<char>>) -> Seq<char> {
    "["@ + quoted_list(vs) + "]"@
}

fn push_quoted(out: &mut Vec<char>, value: &str)
    ensures
        final(out)@ == old(out)@ + toml_quoted(value@),
{
    let v = chars_of(value);
    let ghost start = out@;
    out.push('"');
    let mut i: usize = 0;
    while i < v.len()
        invariant
            i <= v@.len(),
            out@ == start + seq!['"'] + toml_escaped(v@.take(i as int)),
        decreases v.len() - i,
    {
        assert(v@.take(i + 1).drop_last() =~= v@.take(i as int));
        assert(v@.take(i + 1).last() == v@[i as int]);
        let c = v[i];
        if c == '\\' {
            out.push('\\');
            out.push('\\');
        } else if c == '"' {
            out.push('\\');
            out.push('"');
        } else if c == '\n' {
            out.push('\\');
            out.push('n');
        } else if c == '\r' {
            out.push('\\');
            out.push('r');
        } else {
            out.push(c);
        }
        assert(out@ =~= start + seq!['"'] + toml_escaped(v@.take(i + 1)));
        i = i + 1;
    }
    assert(v@.take(v@.len() as int) =~= v@);
    out.push('"');
    assert(out@ =~= start + toml_quoted(value@));
}

/// `value` as a TOML basic string.
pub fn toml_string(value: &str) -> (r: String)
    ensures
        r@ == toml_quoted(value@),
{
    let mut out: Vec<char> = Vec::new();
    push_quoted(&mut out, value);
    assert(out@ =~= toml_quoted(value@));
    string_of(&out)
}

/// The strings as a TOML array, on one line.
pub fn toml_string_array(values: &[String]) -> (r: String)
    ensures
        r@ == toml_array(views(values@)),
{
    let ghost vs = views(values@);
    let mut out: Vec<char> = Vec::new();
    extend_str(&mut out, "[");
    let mut i: usize = 0;
    while i < values.len()
        invariant
            i <= values@.len(),
            vs == views(values@),
            out@ == "["@ + quoted_list(vs.take(i as int)),
        decreases values.len() - i,
    {
        assert(vs.take(i + 1).drop_last() =~= vs.take(i as int));
        assert(vs.take(i + 1).last() == values@[i as int]@);
        if i > 0 {
            extend_str(&mut out, ", ");
        }
        push_quoted(&mut out, values[i].as_str());
        proof {
            if i == 0 {
                assert(vs.take(1) =~= seq![vs[0]]);
            }
        }
        assert(out@ =~= "["@ + quoted_list(vs.take(i + 1)));
        i = i + 1;
    }
    assert(vs.take(values@.len() as int) =~= vs);
    extend_str(&mut out, "]");
    string_of(&out)
}

/// `true` or `false`.
pub fn toml_bool(value: bool) -> (r: &'static str)
    ensures
        r@ == bool_text(value),
{
    if value {
        "true"
    } else {
        "false"
    }
}

// ------------------------------------------------------------------
// The form and its checks
// ------------------------------------------------------------------

/// The fields of the settings form; a checkbox is `Some` when ticked.
pub struct SettingsForm {
    pub watch_directories: String,
    pub stable_after: u64,
    pub allow_root_archives: Option<String>,
    pub delete_archives: Option<String>,
    pub keep_failed: Option<String>,
    pub retry_base_delay: u64,
    pub retry_max_delay: u64,
    pub startup_scan_existing: Option<String>,
    pub notifications_enabled: Option<String>,
    pub ntfy_server: String,
    pub ntfy_topic: String,
    pub ntfy_token: String,
    pub ntfy_priority_success: u8,
    pub ntfy_priority_error: u8,
    pub ntfy_notify_on_worker_start: Option<String>,
    pub ntfy_notify_on_processing_start: Option<String>,
    pub ntfy_notify_on_success: Option<String>,
    pub ntfy_notify_on_error: Option<String>,
    pub ntfy_notify_on_every_error: Option<String>,
    pub ntfy_notify_after_attempts: u64,
}

/// Why the settings form is refused.
#[derive(Debug)]
pub enum SettingsError {
    NoWatchDirectory,
    RelativeWatchDirectory(String),
    StableAfterZero,
    RetryBaseDelayZero,
    RetryMaxBelowBase,
    AttemptsZero,
}

/// The refusals in the terms of the specification: a relative directory
/// carries its text.
pub enum SettingsFault {
    NoWatchDirectory,
    RelativeWatchDirectory(Seq<char>),
    StableAfterZero,
    RetryBaseDelayZero,
    RetryMaxBelowBase,
    AttemptsZero,
}

impl SettingsError {
    pub open spec fn fault(&self) -> SettingsFault {
        match self {
            SettingsError::NoWatchDirectory => SettingsFault::NoWatchDirectory,
            SettingsError::RelativeWatchDirectory(d) => SettingsFault::RelativeWatchDirectory(d@),
            SettingsError::StableAfterZero => SettingsFault::StableAfterZero,
            SettingsError::RetryBaseDelayZero => SettingsFault::RetryBaseDelayZero,
            SettingsError::RetryMaxBelowBase => SettingsFault::RetryMaxBelowBase,
            SettingsError::AttemptsZero => SettingsFault::AttemptsZero,
        }
    }

    /// The message shown above the form.
    pub fn message(&self) -> (r: String)
        ensures
            r@ == settings_error_message(self.fault()),
    {
        let mut out: Vec<char> = Vec::new();
        match self {
            SettingsError::NoWatchDirectory => {
                extend_str(&mut out, "Mindestens ein überwachter Ordner muss eingetragen sein");
            },
            SettingsError::RelativeWatchDirectory(d) => {
                extend_str(&mut out, "Watch-Ordner müssen absolute Pfade sein: ");
                extend_str(&mut out, d.as_str());
            },
            SettingsError::StableAfterZero => {
                extend_str(&mut out, "Die Wartezeit bis zur Verarbeitung muss größer als 0 sein");
            },
            SettingsError::RetryBaseDelayZero => {
                extend_str(&mut out, "Die erste Wiederholungs-Wartezeit muss größer als 0 sein");
            },
            SettingsError::RetryMaxBelowBase => {
                extend_str(
                    &mut out,
                    "Die maximale Wiederholungs-Wartezeit muss mindestens so groß sein wie die erste Wartezeit",
                );
            },
            SettingsError::AttemptsZero => {
                extend_str(
                    &mut out,
                    "Die Anzahl der Versuche vor einer Fehlermeldung muss größer als 0 sein",
                );
            },
        }
        string_of(&out)
    }
}

pub open spec fn settings_error_message(f: SettingsFault) -> Seq<char> {
    match f {
        SettingsFault::NoWatchDirectory => "Mindestens ein überwachter Ordner muss eingetragen sein"@,
        SettingsFault::RelativeWatchDirectory(d) => "Watch-Ordner müssen absolute Pfade sein: "@ + d,
        SettingsFault::StableAfterZero => "Die Wartezeit bis zur Verarbeitung muss größer als 0 sein"@,
        SettingsFault::RetryBaseDelayZero => "Die erste Wiederholungs-Wartezeit muss größer als 0 sein"@,
        SettingsFault::RetryMaxBelowBase => "Die maximale Wiederholungs-Wartezeit muss mindestens so groß sein wie die erste Wartezeit"@,
        SettingsFault::AttemptsZero => "Die Anzahl der Versuche vor einer Fehlermeldung muss größer als 0 sein"@,
    }
}

/// The watch directories entered one per line: each line trimmed, empty
/// lines skipped, repetitions dropped; the first line that is not an
/// absolute path stops the parse.
pub open spec fn parse_dirs(ls: Seq<Seq<char>>) -> Result<Seq<Seq<char>>, Seq<char>>
    decreases ls.len(),
{
    if ls.len() == 0 {
        Ok(Seq::empty())
    } else {
        match parse_dirs(ls.drop_last()) {
            Err(d) => Err(d),
            Ok(acc) => {
                let d = trim(ls.last());
                if d.len() == 0 {
                    Ok(acc)
                } else if !is_absolute(d) {
                    Err(d)
                } else if acc.contains(d) {
                    Ok(acc)
                } else {
                    Ok(acc.push(d))
                }
            },
        }
    }
}

/// What the form's watch directory field yields: the directories, or the
/// reason it is refused.
pub open spec fn watch_directories_result(value: Seq<char>) -> Result<Seq<Seq<char>>, SettingsFault> {
    match parse_dirs(lines(value)) {
        Err(d) => Err(SettingsFault::RelativeWatchDirectory(d)),
        Ok(ds) => if ds.len() == 0 {
            Err(SettingsFault::NoWatchDirectory)
        } else {
            Ok(ds)
        },
    }
}

pub open spec fn result_matches(
    r: Result<Vec<String>, SettingsError>,
    spec_r: Result<Seq<Seq<char>>, SettingsFault>,
) -> bool {
    match r {
        Ok(v) => spec_r == Ok::<Seq<Seq<char>>, SettingsFault>(views(v@)),
        Err(e) => spec_r == Err::<Seq<Seq<char>>, SettingsFault>(e.fault()),
    }
}

/// Parses the watch directory field of the form.
pub fn parse_watch_directories(value: &str) -> (r: Result<Vec<String>, SettingsError>)
    ensures
        result_matches(r, watch_directories_result(value@)),
{
    let text = chars_of(value);
    let ls = split_lines(&text);
    let ghost lv = lines(value@);
    assert(ls@.len() == lv.len());
    let mut out: Vec<String> = Vec::new();
    let mut seen: Vec<Vec<char>> = Vec::new();
    let mut i: usize = 0;
    assert(lv.take(0) =~= Seq::<Seq<char>>::empty());
    assert(views(out@) =~= Seq::<Seq<char>>::empty());
    while i < ls.len()
        invariant
            i <= ls@.len(),
            ls@.len() == lv.len(),
            lv == lines(value@),
            forall|k: int| 0 <= k < ls@.len() ==> #[trigger] ls@[k]@ == lv[k],
            parse_dirs(lv.take(i as int)) == Ok::<Seq<Seq<char>>, Seq<char>>(views(out@)),
            seen@.len() == out@.len(),
            forall|k: int| 0 <= k < seen@.len() ==> #[trigger] seen@[k]@ == out@[k]@,
        decreases ls.len() - i,
    {
        assert(lv.take(i + 1).drop_last() =~= lv.take(i as int));
        assert(lv.take(i + 1).last() == ls@[i as int]@);
        let d = trim_chars(&ls[i]);
        if d.len() > 0 {
            if d[0] != '/' {
                let s = string_of(&d);
                assert(parse_dirs(lv.take(i + 1)) == Err::<Seq<Seq<char>>, Seq<char>>(d@));
                proof {
                    lemma_parse_dirs_err_sticks(lv, i + 1, d@);
                }
                assert(lv.take(lv.len() as int) =~= lv);
                return Err(SettingsError::RelativeWatchDirectory(s));
            }
            let dup = crate::config::contains_chars(&seen, &d);
            assert(dup == views(out@).contains(d@)) by {
                if dup {
                    let k = choose|k: int| 0 <= k < seen@.len() && seen@[k]@ == d@;
                    assert(views(out@)[k] == d@);
                }
                if views(out@).contains(d@) {
                    let k = choose|k: int| 0 <= k < views(out@).len() && views(out@)[k] == d@;
                    assert(seen@[k]@ == d@);
                }
            }
            if !dup {
                let ghost before = views(out@);
                let s = string_of(&d);
                out.push(s);
                seen.push(d);
                assert(views(out@) =~= before.push(d@));
            }
        }
        i = i + 1;
    }
    assert(lv.take(lv.len() as int) =~= lv);
    if out.len() == 0 {
        return Err(SettingsError::NoWatchDirectory);
    }
    Ok(out)
}

proof fn lemma_parse_dirs_err_sticks(ls: Seq<Seq<char>>, n: int, d: Seq<char>)
    requires
        0 <= n <= ls.len(),
        parse_dirs(ls.take(n)) == Err::<Seq<Seq<char>>, Seq<char>>(d),
    ensures
        parse_dirs(ls) == Err::<Seq<Seq<char>>, Seq<char>>(d),
    decreases ls.len() - n,
{
    if n < ls.len() {
        assert(ls.take(n + 1).drop_last() =~= ls.take(n));
        lemma_parse_dirs_err_sticks(ls, n + 1, d);
    } else {
        assert(ls.take(n) =~= ls);
    }
}

/// The first check of the form that fails, in the order in which they are
/// made, or the watch directories when none does.
pub open spec fn settings_form_result(form: SettingsForm) -> Result<Seq<Seq<char>>, SettingsFault> {
    match watch_directories_result(form.watch_directories@) {
        Err(f) => Err(f),
        Ok(ds) => if form.stable_after == 0 {
            Err(SettingsFault::StableAfterZero)
        } else if form.retry_base_delay == 0 {
            Err(SettingsFault::RetryBaseDelayZero)
        } else if form.retry_max_delay < form.retry_base_delay {
            Err(SettingsFault::RetryMaxBelowBase)
        } else if form.ntfy_notify_after_attempts == 0 {
            Err(SettingsFault::AttemptsZero)
        } else {
            Ok(ds)
        },
    }
}

/// Checks the form; on success, the watch directories it names.
pub fn validate_settings_form(form: &SettingsForm) -> (r: Result<Vec<String>, SettingsError>)
    ensures
        result_matches(r, settings_form_result(*form)),
{
    let dirs = parse_watch_directories(form.watch_directories.as_str());
    let dirs = match dirs {
        Err(e) => {
            return Err(e);
        },
        Ok(d) => d,
    };
    if form.stable_after == 0 {
        return Err(SettingsError::StableAfterZero);
    }
    if form.retry_base_delay == 0 {
        return Err(SettingsError::RetryBaseDelayZero);
    }
    if form.retry_max_delay < form.retry_base_delay {
        return Err(SettingsError::RetryMaxBelowBase);
    }
    if form.ntfy_notify_after_attempts == 0 {
        return Err(SettingsError::AttemptsZero);
    }
    Ok(dirs)
}

// ------------------------------------------------------------------
// The edits
// ------------------------------------------------------------------

/// One value to set: section, key and encoded value.
pub type Edit = (Seq<char>, Seq<char>, Seq<char>);

/// The text after the edits, made in order.
#[verifier::opaque]
pub open spec fn apply_edits(content: Seq<char>, edits: Seq<Edit>) -> Seq<char>
    decreases edits.len(),
{
    if edits.len() == 0 {
        content
    } else {
        let e = edits.last();
        set_toml(apply_edits(content, edits.drop_last()), e.0, e.1, e.2)
    }
}

pub open spec fn checkbox(v: Option<String>) -> Seq<char> {
    bool_text(v is Some)
}

/// An edit of `[notifications.ntfy]` that is made only when the trimmed
/// field is not empty.
pub open spec fn optional_ntfy_edit(key: Seq<char>, field: Seq<char>) -> Seq<Edit> {
    if trim(field).len() > 0 {
        seq![("notifications.ntfy"@, key, toml_quoted(trim(field)))]
    } else {
        Seq::empty()
    }
}

/// The edits of the watch, extract, retry, startup and notification
/// switches, in the order in which they are made.
pub open spec fn general_edits(form: SettingsForm, dirs: Seq<Seq<char>>) -> Seq<Edit> {
    seq![
        ("watch"@, "directory"@, toml_quoted(dirs[0])),
        ("watch"@, "directories"@, toml_array(dirs.skip(1))),
        ("watch"@, "stable_after"@, dec(form.stable_after as nat)),
        ("watch"@, "allow_root_archives"@, checkbox(form.allow_root_archives)),
        ("extract"@, "delete_archives"@, checkbox(form.delete_archives)),
        ("extract"@, "keep_failed"@, checkbox(form.keep_failed)),
        ("retry"@, "base_delay"@, dec(form.retry_base_delay as nat)),
        ("retry"@, "max_delay"@, dec(form.retry_max_delay as nat)),
        ("startup"@, "scan_existing"@, checkbox(form.startup_scan_existing)),
        ("notifications"@, "enabled"@, checkbox(form.notifications_enabled)),
        ("notifications"@, "provider"@, toml_quoted("ntfy"@)),
    ]
}

/// The edits of the ntfy server, topic and token, each only when given.
pub open spec fn ntfy_connection_edits(form: SettingsForm) -> Seq<Edit> {
    optional_ntfy_edit("server"@, form.ntfy_server@) + optional_ntfy_edit(
        "topic"@,
        form.ntfy_topic@,
    ) + optional_ntfy_edit("token"@, form.ntfy_token@)
}

/// The edits of the ntfy priorities and switches.
pub open spec fn ntfy_switch_edits(form: SettingsForm) -> Seq<Edit> {
    seq![
        ("notifications.ntfy"@, "priority_success"@, dec(form.ntfy_priority_success as nat)),
        ("notifications.ntfy"@, "priority_error"@, dec(form.ntfy_priority_error as nat)),
        (
            "notifications.ntfy"@,
            "notify_on_worker_start"@,
            checkbox(form.ntfy_notify_on_worker_start),
        ),
        (
            "notifications.ntfy"@,
            "notify_on_processing_start"@,
            checkbox(form.ntfy_notify_on_processing_start),
        ),
        ("notifications.ntfy"@, "notify_on_success"@, checkbox(form.ntfy_notify_on_success)),
        ("notifications.ntfy"@, "notify_on_error"@, checkbox(form.ntfy_notify_on_error)),
        (
            "notifications.ntfy"@,
            "notify_on_every_error"@,
            checkbox(form.ntfy_notify_on_every_error),
        ),
        (
            "notifications.ntfy"@,
            "notify_after_attempts"@,
            dec(form.ntfy_notify_after_attempts as nat),
        ),
    ]
}

/// The edits that the form makes, in the order in which they are made.
pub open spec fn settings_edits(form: SettingsForm, dirs: Seq<Seq<char>>) -> Seq<Edit> {
    general_edits(form, dirs) + ntfy_connection_edits(form) + ntfy_switch_edits(form)
}

/// What the form makes of a configuration text: the refusal, or the text
/// with all its values set.
pub open spec fn settings_text_result(content: Seq<char>, form: SettingsForm) -> Result<
    Seq<char>,
    SettingsFault,
> {
    match settings_form_result(form) {
        Err(f) => Err(f),
        Ok(dirs) => Ok(apply_edits(content, settings_edits(form, dirs))),
    }
}

proof fn lemma_apply_push(content: Seq<char>, edits: Seq<Edit>, e: Edit)
    ensures
        apply_edits(content, edits.push(e)) == set_toml(apply_edits(content, edits), e.0, e.1, e.2),
{
    reveal(apply_edits);
    assert(edits.push(e).drop_last() =~= edits);
}

/// One edit made on the text, with the ghost list of edits made so far.
fn edit_step(
    content: String,
    section: &str,
    key: &str,
    value: &str,
    Ghost(orig): Ghost<Seq<char>>,
    Ghost(done): Ghost<Seq<Edit>>,
) -> (r: String)
    requires
        content@ == apply_edits(orig, done),
    ensures
        r@ == apply_edits(orig, done.push((section@, key@, value@))),
{
    proof {
        lemma_apply_push(orig, done, (section@, key@, value@));
    }
    set_toml_value(content.as_str(), section, key, value)
}

fn dec_string(n: u64) -> (r: String)
    ensures
        r@ == dec(n as nat),
{
    let v = crate::text::u64_to_chars(n);
    string_of(&v)
}

/// The optional ntfy edit, made when the trimmed field is not empty.
fn optional_ntfy_step(
    content: String,
    key: &str,
    field: &str,
    Ghost(orig): Ghost<Seq<char>>,
    Ghost(done): Ghost<Seq<Edit>>,
) -> (r: String)
    requires
        content@ == apply_edits(orig, done),
    ensures
        r@ == apply_edits(orig, done + optional_ntfy_edit(key@, field@)),
{
    let t = crate::text::trim_str(field);
    if t.len() > 0 {
        let ts = string_of(&t);
        let q = toml_string(ts.as_str());
        let r = edit_step(content, "notifications.ntfy", key, q.as_str(), Ghost(orig), Ghost(done));
        assert(done + optional_ntfy_edit(key@, field@) =~= done.push(
            ("notifications.ntfy"@, key@, q@),
        ));
        r
    } else {
        assert(done + optional_ntfy_edit(key@, field@) =~= done);
        content
    }
}

fn general_steps(
    content: String,
    form: &SettingsForm,
    dirs: &Vec<String>,
    Ghost(orig): Ghost<Seq<char>>,
    Ghost(start): Ghost<Seq<Edit>>,
) -> (r: String)
    requires
        dirs@.len() > 0,
        content@ == apply_edits(orig, start),
    ensures
        r@ == apply_edits(orig, start + general_edits(*form, views(dirs@))),
{
    let ghost ds = views(dirs@);
    let ghost mut done = start;
    let c = content;
    let v = toml_string(dirs[0].as_str());
    let c = edit_step(c, "watch", "directory", v.as_str(), Ghost(orig), Ghost(done));
    proof { done = done.push(("watch"@, "directory"@, v@)); }

    let rest = crate::text::strings_from(&dirs, 1);
    let v = toml_string_array(&rest);
    assert(views(rest@) =~= ds.skip(1));
    let c = edit_step(c, "watch", "directories", v.as_str(), Ghost(orig), Ghost(done));
    proof { done = done.push(("watch"@, "directories"@, v@)); }

    let v = dec_string(form.stable_after);
    let c = edit_step(c, "watch", "stable_after", v.as_str(), Ghost(orig), Ghost(done));
    proof { done = done.push(("watch"@, "stable_after"@, v@)); }

    let v = toml_bool(form.allow_root_archives.is_some());
    let c = edit_step(c, "watch", "allow_root_archives", v, Ghost(orig), Ghost(done));
    proof { done = done.push(("watch"@, "allow_root_archives"@, v@)); }

    let v = toml_bool(form.delete_archives.is_some());
    let c = edit_step(c, "extract", "delete_archives", v, Ghost(orig), Ghost(done));
    proof { done = done.push(("extract"@, "delete_archives"@, v@)); }

    let v = toml_bool(form.keep_failed.is_some());
    let c = edit_step(c, "extract", "keep_failed", v, Ghost(orig), Ghost(done));
    proof { done = done.push(("extract"@, "keep_failed"@, v@)); }

    let v = dec_string(form.retry_base_delay);
    let c = edit_step(c, "retry", "base_delay", v.as_str(), Ghost(orig), Ghost(done));
    proof { done = done.push(("retry"@, "base_delay"@, v@)); }

    let v = dec_string(form.retry_max_delay);
    let c = edit_step(c, "retry", "max_delay", v.as_str(), Ghost(orig), Ghost(done));
    proof { done = done.push(("retry"@, "max_delay"@, v@)); }

    let v = toml_bool(form.startup_scan_existing.is_some());
    let c = edit_step(c, "startup", "scan_existing", v, Ghost(orig), Ghost(done));
    proof { done = done.push(("startup"@, "scan_existing"@, v@)); }

    let v = toml_bool(form.notifications_enabled.is_some());
    let c = edit_step(c, "notifications", "enabled", v, Ghost(orig), Ghost(done));
    proof { done = done.push(("notifications"@, "enabled"@, v@)); }

    let v = toml_string("ntfy");
    let c = edit_step(c, "notifications", "provider", v.as_str(), Ghost(orig), Ghost(done));
    proof { done = done.push(("notifications"@, "provider"@, v@)); }

    proof {
        reveal_strlit("ntfy");
        assert(done =~= start + general_edits(*form, ds));
    }
    c
}

fn ntfy_connection_steps(
    content: String,
    form: &SettingsForm,
    Ghost(orig): Ghost<Seq<char>>,
    Ghost(start): Ghost<Seq<Edit>>,
) -> (r: String)
    requires
        content@ == apply_edits(orig, start),
    ensures
        r@ == apply_edits(orig, start + ntfy_connection_edits(*form)),
{
    let ghost mut done = start;
    let c = content;
    let c = optional_ntfy_step(c, "server", form.ntfy_server.as_str(), Ghost(orig), Ghost(done));
    proof { done = done + optional_ntfy_edit("server"@, form.ntfy_server@); }
    let c = optional_ntfy_step(c, "topic", form.ntfy_topic.as_str(), Ghost(orig), Ghost(done));
    proof { done = done + optional_ntfy_edit("topic"@, form.ntfy_topic@); }
    let c = optional_ntfy_step(c, "token", form.ntfy_token.as_str(), Ghost(orig), Ghost(done));
    proof { done = done + optional_ntfy_edit("token"@, form.ntfy_token@); }
    assert(done =~= start + ntfy_connection_edits(*form));
    c
}

fn ntfy_switch_steps(
    content: String,
    form: &SettingsForm,
    Ghost(orig): Ghost<Seq<char>>,
    Ghost(start): Ghost<Seq<Edit>>,
) -> (r: String)
    requires
        content@ == apply_edits(orig, start),
    ensures
        r@ == apply_edits(orig, start + ntfy_switch_edits(*form)),
{
    let ghost mut done = start;
    let c = content;

    let v = dec_string(form.ntfy_priority_success as u64);
    let c = edit_step(c, "notifications.ntfy", "priority_success", v.as_str(), Ghost(orig), Ghost(done));
    proof { done = done.push(("notifications.ntfy"@, "priority_success"@, v@)); }

    let v = dec_string(form.ntfy_priority_error as u64);
    let c = edit_step(c, "notifications.ntfy", "priority_error", v.as_str(), Ghost(orig), Ghost(done));
    proof { done = done.push(("notifications.ntfy"@, "priority_error"@, v@)); }

    let v = toml_bool(form.ntfy_notify_on_worker_start.is_some());
    let c = edit_step(c, "notifications.ntfy", "notify_on_worker_start", v, Ghost(orig), Ghost(done));
    proof { done = done.push(("notifications.ntfy"@, "notify_on_worker_start"@, v@)); }

    let v = toml_bool(form.ntfy_notify_on_processing_start.is_some());
    let c = edit_step(c, "notifications.ntfy", "notify_on_processing_start", v, Ghost(orig), Ghost(done));
    proof { done = done.push(("notifications.ntfy"@, "notify_on_processing_start"@, v@)); }

    let v = toml_bool(form.ntfy_notify_on_success.is_some());
    let c = edit_step(c, "notifications.ntfy", "notify_on_success", v, Ghost(orig), Ghost(done));
    proof { done = done.push(("notifications.ntfy"@, "notify_on_success"@, v@)); }

    let v = toml_bool(form.ntfy_notify_on_error.is_some());
    let c = edit_step(c, "notifications.ntfy", "notify_on_error", v, Ghost(orig), Ghost(done));
    proof { done = done.push(("notifications.ntfy"@, "notify_on_error"@, v@)); }

    let v = toml_bool(form.ntfy_notify_on_every_error.is_some());
    let c = edit_step(c, "notifications.ntfy", "notify_on_every_error", v, Ghost(orig), Ghost(done));
    proof { done = done.push(("notifications.ntfy"@, "notify_on_every_error"@, v@)); }

    let v = dec_string(form.ntfy_notify_after_attempts);
    let c = edit_step(c, "notifications.ntfy", "notify_after_attempts", v.as_str(), Ghost(orig), Ghost(done));
    proof { done = done.push(("notifications.ntfy"@, "notify_after_attempts"@, v@)); }

    assert(done =~= start + ntfy_switch_edits(*form));
    c
}

/// Applies the settings form to a configuration text: the form is checked
/// first, then each value is set in place (see `set_toml_value`).
pub fn apply_settings_to_config_text(content: &str, form: &SettingsForm) -> (r: Result<
    String,
    SettingsError,
>)
    ensures
        match r {
            Ok(t) => settings_text_result(content@, *form) == Ok::<Seq<char>, SettingsFault>(t@),
            Err(e) => settings_text_result(content@, *form) == Err::<Seq<char>, SettingsFault>(
                e.fault(),
            ),
        },
{
    let dirs = match validate_settings_form(form) {
        Err(e) => {
            return Err(e);
        },
        Ok(d) => d,
    };
    let ghost ds = views(dirs@);
    let ghost orig = content@;
    let ghost e0: Seq<Edit> = Seq::empty();
    let c = crate::text::copy_str(content);
    assert(c@ == apply_edits(orig, e0)) by {
        reveal(apply_edits);
    }
    let c = general_steps(c, form, &dirs, Ghost(orig), Ghost(e0));
    let ghost e1 = e0 + general_edits(*form, ds);
    let c = ntfy_connection_steps(c, form, Ghost(orig), Ghost(e1));
    let ghost e2 = e1 + ntfy_connection_edits(*form);
    let c = ntfy_switch_steps(c, form, Ghost(orig), Ghost(e2));
    assert(e2 + ntfy_switch_edits(*form) =~= settings_edits(*form, ds));
    Ok(c)
}

// ------------------------------------------------------------------
// The watch directories round trip
// ------------------------------------------------------------------

/// The parsed directories are trimmed, not empty, and each occurs once.
proof fn lemma_parse_dirs_shape(ls: Seq<Seq<char>>)
    ensures
        parse_dirs(ls) matches Ok(ds) ==> (ds.no_duplicates() && forall|k: int|
            0 <= k < ds.len() ==> trim(#[trigger] ds[k]) == ds[k] && ds[k].len() > 0),
    decreases ls.len(),
{
    if ls.len() > 0 {
        lemma_parse_dirs_shape(ls.drop_last());
        crate::text::lemma_trim_idempotent(ls.last());
    }
}

proof fn lemma_resolve_clean(ds: Seq<Seq<char>>, n: int)
    requires
        0 <= n <= ds.len(),
        ds.no_duplicates(),
        forall|k: int| 0 <= k < ds.len() ==> trim(#[trigger] ds[k]) == ds[k] && ds[k].len() > 0,
    ensures
        crate::config::resolve_dirs(ds.take(n)) == ds.take(n),
    decreases n,
{
    if n > 0 {
        lemma_resolve_clean(ds, n - 1);
        assert(ds.take(n).drop_last() =~= ds.take(n - 1));
        assert(ds.take(n).last() == ds[n - 1]);
        let prefix = ds.take(n - 1);
        assert(!prefix.contains(ds[n - 1])) by {
            if prefix.contains(ds[n - 1]) {
                let j = choose|j: int| 0 <= j < prefix.len() && prefix[j] == ds[n - 1];
                assert(ds[j] == ds[n - 1]);
            }
        }
        assert(ds.take(n - 1).push(ds[n - 1]) =~= ds.take(n));
    }
}

/// What the settings form stores is what the worker watches: the entered
/// directories, stored as `watch.directory` (the first) and
/// `watch.directories` (the others), resolve to the same list in the same
/// order.
pub proof fn law_watch_directories_round_trip(value: Seq<char>, w: crate::config::WatchConfig)
    requires
        watch_directories_result(value) is Ok,
        w.directory@ == watch_directories_result(value)->Ok_0[0],
        views(w.directories@) == watch_directories_result(value)->Ok_0.skip(1),
    ensures
        crate::config::resolve_dirs(crate::config::watch_entries(w)) == watch_directories_result(
            value,
        )->Ok_0,
{
    let ds = watch_directories_result(value)->Ok_0;
    lemma_parse_dirs_shape(lines(value));
    assert(crate::config::watch_entries(w) =~= ds);
    lemma_resolve_clean(ds, ds.len() as int);
    assert(ds.take(ds.len() as int) =~= ds);
}

/// The edits that a valid form makes (the empty list for a refused form).
pub open spec fn edits_of(form: SettingsForm) -> Seq<Edit> {
    match settings_form_result(form) {
        Ok(dirs) => settings_edits(form, dirs),
        Err(_) => Seq::empty(),
    }
}

/// Some edit sets `key` of `[section]`.
pub open spec fn edits_key(edits: Seq<Edit>, section: Seq<char>, key: Seq<char>) -> bool {
    exists|i: int| 0 <= i < edits.len() && #[trigger] edits[i].0 == section && edits[i].1 == key
}

/// The edits set `key` of `[section]` to `value`: one of them does, and
/// every edit of that key does.
pub open spec fn sets_key(edits: Seq<Edit>, section: Seq<char>, key: Seq<char>, value: Seq<char>) -> bool {
    &&& exists|i: int| 0 <= i < edits.len() && #[trigger] edits[i] == (section, key, value)
    &&& forall|i: int|
        0 <= i < edits.len() && #[trigger] edits[i].0 == section && edits[i].1 == key ==> edits[i].2
            == value
}

/// Tells the keys that the settings form sets apart: lengths of section
/// and key and three characters of the key.
spec fn key_code(e: Edit) -> (int, int, char, char, char) {
    (e.0.len() as int, e.1.len() as int, e.1[0], e.1[2], e.1[7])
}

proof fn lemma_sets_key(e: Seq<Edit>, j: int, section: Seq<char>, key: Seq<char>, value: Seq<char>)
    requires
        0 <= j < e.len(),
        e[j] == (section, key, value),
        forall|i: int| 0 <= i < e.len() && i != j ==> key_code(#[trigger] e[i]) != key_code(e[j]),
    ensures
        sets_key(e, section, key, value),
{
    assert forall|i: int| 0 <= i < e.len() && #[trigger] e[i].0 == section && e[i].1 == key implies e[i].2 == value by {
        if i != j {
            assert(key_code(e[i]) == key_code(e[j]));
        }
    }
}

/// The keys of the edits of a valid form are told apart by `key_code`.
proof fn lemma_codes_distinct(form: SettingsForm)
    requires
        settings_form_result(form) is Ok,
    ensures
        forall|i: int, j: int|
            0 <= i < edits_of(form).len() && 0 <= j < edits_of(form).len() && i != j ==> key_code(
                #[trigger] edits_of(form)[i],
            ) != key_code(#[trigger] edits_of(form)[j]),
{
    reveal_strlit("allow_root_archives");
    reveal_strlit("base_delay");
    reveal_strlit("delete_archives");
    reveal_strlit("directories");
    reveal_strlit("directory");
    reveal_strlit("enabled");
    reveal_strlit("extract");
    reveal_strlit("keep_failed");
    reveal_strlit("max_delay");
    reveal_strlit("notifications");
    reveal_strlit("notifications.ntfy");
    reveal_strlit("notify_after_attempts");
    reveal_strlit("notify_on_error");
    reveal_strlit("notify_on_every_error");
    reveal_strlit("notify_on_processing_start");
    reveal_strlit("notify_on_success");
    reveal_strlit("notify_on_worker_start");
    reveal_strlit("priority_error");
    reveal_strlit("priority_success");
    reveal_strlit("provider");
    reveal_strlit("retry");
    reveal_strlit("scan_existing");
    reveal_strlit("server");
    reveal_strlit("stable_after");
    reveal_strlit("startup");
    reveal_strlit("token");
    reveal_strlit("topic");
    reveal_strlit("watch");
    let dirs = settings_form_result(form)->Ok_0;
    let g = general_edits(form, dirs);
    let os = optional_ntfy_edit("server"@, form.ntfy_server@);
    let ot = optional_ntfy_edit("topic"@, form.ntfy_topic@);
    let ok = optional_ntfy_edit("token"@, form.ntfy_token@);
    let w = ntfy_switch_edits(form);
    let e = edits_of(form);
    let c = os + ot + ok;
    assert(e =~= g + c + w);
    let codes = g.map_values(|x: Edit| key_code(x)) + c.map_values(|x: Edit| key_code(x)) + w.map_values(
        |x: Edit| key_code(x),
    );
    assert forall|i: int| 0 <= i < e.len() implies #[trigger] key_code(e[i]) == codes[i] by {
        if i < g.len() {
            assert(e[i] == g[i]);
        } else if i < g.len() + c.len() {
            assert(e[i] == c[i - g.len()]);
        } else {
            assert(e[i] == w[i - g.len() - c.len()]);
        }
    }
    assert(codes.no_duplicates());
}

proof fn lemma_optional_keys(form: SettingsForm)
    requires
        settings_form_result(form) is Ok,
    ensures
        trim(form.ntfy_server@).len() > 0 ==> sets_key(edits_of(form), "notifications.ntfy"@, "server"@, toml_quoted(trim(form.ntfy_server@))),
        trim(form.ntfy_server@).len() == 0 ==> !edits_key(edits_of(form), "notifications.ntfy"@, "server"@),
        trim(form.ntfy_topic@).len() > 0 ==> sets_key(edits_of(form), "notifications.ntfy"@, "topic"@, toml_quoted(trim(form.ntfy_topic@))),
        trim(form.ntfy_topic@).len() == 0 ==> !edits_key(edits_of(form), "notifications.ntfy"@, "topic"@),
        trim(form.ntfy_token@).len() > 0 ==> sets_key(edits_of(form), "notifications.ntfy"@, "token"@, toml_quoted(trim(form.ntfy_token@))),
        trim(form.ntfy_token@).len() == 0 ==> !edits_key(edits_of(form), "notifications.ntfy"@, "token"@),
{
    reveal_strlit("allow_root_archives");
    reveal_strlit("base_delay");
    reveal_strlit("delete_archives");
    reveal_strlit("directories");
    reveal_strlit("directory");
    reveal_strlit("enabled");
    reveal_strlit("extract");
    reveal_strlit("keep_failed");
    reveal_strlit("max_delay");
    reveal_strlit("notifications");
    reveal_strlit("notifications.ntfy");
    reveal_strlit("notify_after_attempts");
    reveal_strlit("notify_on_error");
    reveal_strlit("notify_on_every_error");
    reveal_strlit("notify_on_processing_start");
    reveal_strlit("notify_on_success");
    reveal_strlit("notify_on_worker_start");
    reveal_strlit("priority_error");
    reveal_strlit("priority_success");
    reveal_strlit("provider");
    reveal_strlit("retry");
    reveal_strlit("scan_existing");
    reveal_strlit("server");
    reveal_strlit("stable_after");
    reveal_strlit("startup");
    reveal_strlit("token");
    reveal_strlit("topic");
    reveal_strlit("watch");
    let dirs = settings_form_result(form)->Ok_0;
    let g = general_edits(form, dirs);
    let os = optional_ntfy_edit("server"@, form.ntfy_server@);
    let ot = optional_ntfy_edit("topic"@, form.ntfy_topic@);
    let ok = optional_ntfy_edit("token"@, form.ntfy_token@);
    let w = ntfy_switch_edits(form);
    let e = edits_of(form);
    lemma_codes_distinct(form);
    assert(e =~= g + os + ot + ok + w);
    let a = 11 + os.len();
    let b = a + ot.len();
    if trim(form.ntfy_server@).len() > 0 {
        assert(e[11] == os[0]);
        lemma_sets_key(e, 11, "notifications.ntfy"@, "server"@, toml_quoted(trim(form.ntfy_server@)));
    }
    if trim(form.ntfy_topic@).len() > 0 {
        assert(e[a as int] == ot[0]);
        lemma_sets_key(e, a as int, "notifications.ntfy"@, "topic"@, toml_quoted(trim(form.ntfy_topic@)));
    }
    assert forall|i: int| 0 <= i < e.len() implies {
        let k = #[trigger] e[i].1;
        &&& (trim(form.ntfy_server@).len() == 0 ==> k != "server"@)
        &&& (trim(form.ntfy_topic@).len() == 0 ==> k != "topic"@)
        &&& (trim(form.ntfy_token@).len() == 0 ==> k != "token"@)
    } by {
        if i < 11 {
            assert(e[i] == g[i]);
            assert(e[i].1.len() != 5 && e[i].1.len() != 6);
        } else if i < a {
            assert(e[i] == os[i - 11]);
            assert(e[i].1 == "server"@);
        } else if i < b {
            assert(e[i] == ot[i - a]);
            assert(e[i].1 == "topic"@);
            assert("topic"@[2] != "token"@[2]);
        } else if i < b + ok.len() {
            assert(e[i] == ok[i - b]);
            assert(e[i].1 == "token"@);
            assert("topic"@[2] != "token"@[2]);
        } else {
            assert(e[i] == w[i - b - ok.len()]);
            assert(e[i].1.len() > 6);
        }
    }
    if trim(form.ntfy_token@).len() > 0 {
        assert(e[b as int] == ok[0]);
        lemma_sets_key(e, b as int, "notifications.ntfy"@, "token"@, toml_quoted(trim(form.ntfy_token@)));
    }
}

/// Each value that the settings form writes is the encoding of the form
/// field of the same name: the entered directories (the first as
/// `watch.directory`, the others as `watch.directories`), the numbers in
/// decimal, a ticked checkbox as `true` and an unticked one as `false`,
/// the provider `ntfy`, and the ntfy server, topic and token, trimmed and
/// quoted, only when they are given.
proof fn lemma_general_keys(form: SettingsForm)
    requires
        settings_form_result(form) is Ok,
    ensures
        ({
            let dirs = settings_form_result(form)->Ok_0;
            &&& sets_key(edits_of(form), "watch"@, "directory"@, toml_quoted(dirs[0]))
            &&& sets_key(edits_of(form), "watch"@, "directories"@, toml_array(dirs.skip(1)))
        }),
        sets_key(edits_of(form), "watch"@, "stable_after"@, dec(form.stable_after as nat)),
        sets_key(edits_of(form), "watch"@, "allow_root_archives"@, bool_text(form.allow_root_archives is Some)),
        sets_key(edits_of(form), "extract"@, "delete_archives"@, bool_text(form.delete_archives is Some)),
        sets_key(edits_of(form), "extract"@, "keep_failed"@, bool_text(form.keep_failed is Some)),
        sets_key(edits_of(form), "retry"@, "base_delay"@, dec(form.retry_base_delay as nat)),
        sets_key(edits_of(form), "retry"@, "max_delay"@, dec(form.retry_max_delay as nat)),
        sets_key(edits_of(form), "startup"@, "scan_existing"@, bool_text(form.startup_scan_existing is Some)),
        sets_key(edits_of(form), "notifications"@, "enabled"@, bool_text(form.notifications_enabled is Some)),
        sets_key(edits_of(form), "notifications"@, "provider"@, toml_quoted("ntfy"@)),
{
    let dirs = settings_form_result(form)->Ok_0;
    let g = general_edits(form, dirs);
    let c = ntfy_connection_edits(form);
    let w = ntfy_switch_edits(form);
    let e = edits_of(form);
    lemma_codes_distinct(form);
    assert(e == g + c + w);
    lemma_sets_key(e, 0, "watch"@, "directory"@, toml_quoted(dirs[0]));
    lemma_sets_key(e, 1, "watch"@, "directories"@, toml_array(dirs.skip(1)));
    lemma_sets_key(e, 2, "watch"@, "stable_after"@, dec(form.stable_after as nat));
    lemma_sets_key(e, 3, "watch"@, "allow_root_archives"@, bool_text(form.allow_root_archives is Some));
    lemma_sets_key(e, 4, "extract"@, "delete_archives"@, bool_text(form.delete_archives is Some));
    lemma_sets_key(e, 5, "extract"@, "keep_failed"@, bool_text(form.keep_failed is Some));
    lemma_sets_key(e, 6, "retry"@, "base_delay"@, dec(form.retry_base_delay as nat));
    lemma_sets_key(e, 7, "retry"@, "max_delay"@, dec(form.retry_max_delay as nat));
    lemma_sets_key(e, 8, "startup"@, "scan_existing"@, bool_text(form.startup_scan_existing is Some));
    lemma_sets_key(e, 9, "notifications"@, "enabled"@, bool_text(form.notifications_enabled is Some));
    lemma_sets_key(e, 10, "notifications"@, "provider"@, toml_quoted("ntfy"@));
}

proof fn lemma_switch_keys(form: SettingsForm)
    requires
        settings_form_result(form) is Ok,
    ensures
        sets_key(edits_of(form), "notifications.ntfy"@, "priority_success"@, dec(form.ntfy_priority_success as nat)),
        sets_key(edits_of(form), "notifications.ntfy"@, "priority_error"@, dec(form.ntfy_priority_error as nat)),
        sets_key(edits_of(form), "notifications.ntfy"@, "notify_on_worker_start"@, bool_text(form.ntfy_notify_on_worker_start is Some)),
        sets_key(edits_of(form), "notifications.ntfy"@, "notify_on_processing_start"@, bool_text(form.ntfy_notify_on_processing_start is Some)),
        sets_key(edits_of(form), "notifications.ntfy"@, "notify_on_success"@, bool_text(form.ntfy_notify_on_success is Some)),
        sets_key(edits_of(form), "notifications.ntfy"@, "notify_on_error"@, bool_text(form.ntfy_notify_on_error is Some)),
        sets_key(edits_of(form), "notifications.ntfy"@, "notify_on_every_error"@, bool_text(form.ntfy_notify_on_every_error is Some)),
        sets_key(edits_of(form), "notifications.ntfy"@, "notify_after_attempts"@, dec(form.ntfy_notify_after_attempts as nat)),
{
    let dirs = settings_form_result(form)->Ok_0;
    let g = general_edits(form, dirs);
    let c = ntfy_connection_edits(form);
    let w = ntfy_switch_edits(form);
    let e = edits_of(form);
    lemma_codes_distinct(form);
    assert(e == g + c + w);
    lemma_sets_key(e, (11 + c.len() + 0) as int, "notifications.ntfy"@, "priority_success"@, dec(form.ntfy_priority_success as nat));
    lemma_sets_key(e, (11 + c.len() + 1) as int, "notifications.ntfy"@, "priority_error"@, dec(form.ntfy_priority_error as nat));
    lemma_sets_key(e, (11 + c.len() + 2) as int, "notifications.ntfy"@, "notify_on_worker_start"@, bool_text(form.ntfy_notify_on_worker_start is Some));
    lemma_sets_key(e, (11 + c.len() + 3) as int, "notifications.ntfy"@, "notify_on_processing_start"@, bool_text(form.ntfy_notify_on_processing_start is Some));
    lemma_sets_key(e, (11 + c.len() + 4) as int, "notifications.ntfy"@, "notify_on_success"@, bool_text(form.ntfy_notify_on_success is Some));
    lemma_sets_key(e, (11 + c.len() + 5) as int, "notifications.ntfy"@, "notify_on_error"@, bool_text(form.ntfy_notify_on_error is Some));
    lemma_sets_key(e, (11 + c.len() + 6) as int, "notifications.ntfy"@, "notify_on_every_error"@, bool_text(form.ntfy_notify_on_every_error is Some));
    lemma_sets_key(e, (11 + c.len() + 7) as int, "notifications.ntfy"@, "notify_after_attempts"@, dec(form.ntfy_notify_after_attempts as nat));
}

pub proof fn law_settings_write_their_fields(content: Seq<char>, form: SettingsForm)
    requires
        settings_form_result(form) is Ok,
    ensures
        settings_text_result(content, form) == Ok::<Seq<char>, SettingsFault>(apply_edits(content, edits_of(form))),
        ({
            let dirs = settings_form_result(form)->Ok_0;
            &&& sets_key(edits_of(form), "watch"@, "directory"@, toml_quoted(dirs[0]))
            &&& sets_key(edits_of(form), "watch"@, "directories"@, toml_array(dirs.skip(1)))
        }),
        sets_key(edits_of(form), "watch"@, "stable_after"@, dec(form.stable_after as nat)),
        sets_key(edits_of(form), "watch"@, "allow_root_archives"@, bool_text(form.allow_root_archives is Some)),
        sets_key(edits_of(form), "extract"@, "delete_archives"@, bool_text(form.delete_archives is Some)),
        sets_key(edits_of(form), "extract"@, "keep_failed"@, bool_text(form.keep_failed is Some)),
        sets_key(edits_of(form), "retry"@, "base_delay"@, dec(form.retry_base_delay as nat)),
        sets_key(edits_of(form), "retry"@, "max_delay"@, dec(form.retry_max_delay as nat)),
        sets_key(edits_of(form), "startup"@, "scan_existing"@, bool_text(form.startup_scan_existing is Some)),
        sets_key(edits_of(form), "notifications"@, "enabled"@, bool_text(form.notifications_enabled is Some)),
        sets_key(edits_of(form), "notifications"@, "provider"@, toml_quoted("ntfy"@)),
        sets_key(edits_of(form), "notifications.ntfy"@, "priority_success"@, dec(form.ntfy_priority_success as nat)),
        sets_key(edits_of(form), "notifications.ntfy"@, "priority_error"@, dec(form.ntfy_priority_error as nat)),
        sets_key(edits_of(form), "notifications.ntfy"@, "notify_on_worker_start"@, bool_text(form.ntfy_notify_on_worker_start is Some)),
        sets_key(edits_of(form), "notifications.ntfy"@, "notify_on_processing_start"@, bool_text(form.ntfy_notify_on_processing_start is Some)),
        sets_key(edits_of(form), "notifications.ntfy"@, "notify_on_success"@, bool_text(form.ntfy_notify_on_success is Some)),
        sets_key(edits_of(form), "notifications.ntfy"@, "notify_on_error"@, bool_text(form.ntfy_notify_on_error is Some)),
        sets_key(edits_of(form), "notifications.ntfy"@, "notify_on_every_error"@, bool_text(form.ntfy_notify_on_every_error is Some)),
        sets_key(edits_of(form), "notifications.ntfy"@, "notify_after_attempts"@, dec(form.ntfy_notify_after_attempts as nat)),
        trim(form.ntfy_server@).len() > 0 ==> sets_key(edits_of(form), "notifications.ntfy"@, "server"@, toml_quoted(trim(form.ntfy_server@))),
        trim(form.ntfy_server@).len() == 0 ==> !edits_key(edits_of(form), "notifications.ntfy"@, "server"@),
        trim(form.ntfy_topic@).len() > 0 ==> sets_key(edits_of(form), "notifications.ntfy"@, "topic"@, toml_quoted(trim(form.ntfy_topic@))),
        trim(form.ntfy_topic@).len() == 0 ==> !edits_key(edits_of(form), "notifications.ntfy"@, "topic"@),
        trim(form.ntfy_token@).len() > 0 ==> sets_key(edits_of(form), "notifications.ntfy"@, "token"@, toml_quoted(trim(form.ntfy_token@))),
        trim(form.ntfy_token@).len() == 0 ==> !edits_key(edits_of(form), "notifications.ntfy"@, "token"@),
{
    lemma_general_keys(form);
    lemma_switch_keys(form);
    lemma_optional_keys(form);
}

} // verus!
