//! The `--status` report: what it says about the configuration file, the
//! configured directories, the password list, the history and Gotify.
use crate::config::views;
use crate::history::{count_suffix, first_error_line, history_counts, status_error_line};
use crate::pages::{bool_text, filled, VERSION};
use crate::passwords::{count_passwords, password_entries};
use crate::text::{chars_of, dec, extend_str, is_blank, lines, push_dec, string_of};
use vstd::prelude::*;

verus! {

/// What the report reads from the configuration file; each value is
/// `None` when its key is missing or holds another kind of value.
pub struct StatusFields {
    pub watch_directory: Option<String>,
    pub output_directory: Option<String>,
    pub history_directory: Option<String>,
    pub password_file: Option<String>,
    pub gotify_enabled: Option<bool>,
    pub gotify_url: Option<String>,
    pub gotify_token: Option<String>,
}

/// A failure marker of the history: its file name, and its text when it
/// could be read.
pub struct FailureNote {
    pub file_name: String,
    pub content: Option<String>,
}

/// The history directory: the names of its entries, and its failure
/// markers newest first.
pub struct HistoryFacts {
    pub names: Vec<String>,
    pub latest: Vec<FailureNote>,
}

/// What the report finds on disk: whether the configured directories
/// exist, the password list's text when the password file is a regular
/// file, and the history when its directory is a directory.
pub struct StatusFacts {
    pub watch_exists: bool,
    pub output_exists: bool,
    pub history_exists: bool,
    pub password_content: Option<String>,
    pub history: Option<HistoryFacts>,
}

/// How many failures the report lists.
pub const LATEST_FAILURES: usize = 5;

/// The first lines, before the configuration file is read.
pub open spec fn status_head(config_path: Seq<char>) -> Seq<Seq<char>> {
    seq![
        "== XDCC Extractor Status =="@,
        ""@,
        "Version:"@,
        "  "@ + VERSION@,
        ""@,
        "Binary:"@,
        "  OK"@,
        ""@,
        "Config:"@,
        "  Pfad: "@ + config_path,
    ]
}

/// A configured path: where it is and whether it exists.
pub open spec fn path_status(label: Seq<char>, value: Option<Seq<char>>, exists: bool) -> Seq<Seq<char>> {
    let body = match value {
        Some(p) => if filled(p) {
            seq![
                "  Pfad: "@ + p,
                if exists {
                    "  Status: OK"@
                } else {
                    "  Status: FEHLT"@
                },
            ]
        } else {
            seq!["  Status: nicht konfiguriert"@]
        },
        None => seq!["  Status: nicht konfiguriert"@],
    };
    seq![label + ":"@] + body + seq![""@]
}

/// The password list: where it is and how many passwords it holds.
pub open spec fn password_status_lines(file: Option<Seq<char>>, content: Option<String>) -> Seq<Seq<char>> {
    match file {
        None => Seq::empty(),
        Some(f) => {
            let body = if !filled(f) {
                seq!["  nicht konfiguriert"@]
            } else {
                seq!["  Pfad: "@ + f] + match content {
                    Some(c) => seq![
                        "  Status: OK"@,
                        "  Einträge: "@ + dec(password_entries(lines(c@)).len()),
                    ],
                    None => seq!["  Status: FEHLT"@],
                }
            };
            seq!["Password file:"@] + body + seq![""@]
        },
    }
}

/// One listed failure: its file name, then the line that explains it.
pub open spec fn note_lines(n: FailureNote) -> Seq<Seq<char>> {
    seq!["    - "@ + n.file_name@] + match n.content {
        Some(c) => match status_error_line(c@) {
            Some(reason) => seq!["      "@ + reason],
            None => Seq::empty(),
        },
        None => Seq::empty(),
    }
}

pub open spec fn notes_lines(ns: Seq<FailureNote>) -> Seq<Seq<char>>
    decreases ns.len(),
{
    if ns.len() == 0 {
        Seq::empty()
    } else {
        notes_lines(ns.drop_last()) + note_lines(ns.last())
    }
}

/// The history: missing, or its counts and its latest five failures.
pub open spec fn history_status_lines(h: Option<HistoryFacts>) -> Seq<Seq<char>> {
    seq!["History:"@] + match h {
        None => seq!["  Status: FEHLT"@],
        Some(hf) => {
            let names = views(hf.names@);
            let shown = if hf.latest@.len() > LATEST_FAILURES {
                hf.latest@.take(LATEST_FAILURES as int)
            } else {
                hf.latest@
            };
            seq![
                "  Status: OK"@,
                "  done: "@ + dec(count_suffix(names, ".done"@)),
                "  failed: "@ + dec(count_suffix(names, ".failed"@)),
            ] + if hf.latest@.len() == 0 {
                Seq::empty()
            } else {
                seq!["  letzte Fehler:"@] + notes_lines(shown)
            }
        },
    }
}

/// Gotify: whether it is enabled, its URL, whether a token is set.
pub open spec fn gotify_status_lines(enabled: Option<bool>, url: Option<Seq<char>>, token: Option<Seq<char>>) -> Seq<Seq<char>> {
    let on = match enabled {
        Some(b) => b,
        None => false,
    };
    let token_set = match token {
        Some(t) => filled(t),
        None => false,
    };
    seq!["Gotify:"@, "  enabled: "@ + bool_text(on)] + match url {
        Some(u) => seq![
            "  url: "@ + if filled(u) {
                u
            } else {
                "<leer>"@
            },
        ],
        None => Seq::empty(),
    } + seq!["  token gesetzt: "@ + bool_text(token_set), ""@, "Status-Prüfung abgeschlossen."@]
}

/// The values that the report reads from the configuration file, as plain
/// values: the watch, output and history directories, the password file,
/// Gotify's enabled flag, its URL and its token.
pub type StatusValues = (
    Option<Seq<char>>,
    Option<Seq<char>>,
    Option<Seq<char>>,
    Option<Seq<char>>,
    Option<bool>,
    Option<Seq<char>>,
    Option<Seq<char>>,
);

pub open spec fn opt_view(o: Option<String>) -> Option<Seq<char>> {
    match o {
        Some(s) => Some(s@),
        None => None,
    }
}

pub open spec fn status_values(f: StatusFields) -> StatusValues {
    (
        opt_view(f.watch_directory),
        opt_view(f.output_directory),
        opt_view(f.history_directory),
        opt_view(f.password_file),
        f.gotify_enabled,
        opt_view(f.gotify_url),
        opt_view(f.gotify_token),
    )
}

/// The lines after the configuration file was read.
pub open spec fn status_body(v: StatusValues, facts: StatusFacts) -> Seq<Seq<char>> {
    seq!["  Status: OK"@, ""@] + path_status("Watch directory"@, v.0, facts.watch_exists)
        + path_status("Output directory"@, v.1, facts.output_exists) + path_status(
        "History directory"@,
        v.2,
        facts.history_exists,
    ) + seq![""@] + password_status_lines(v.3, facts.password_content) + match v.2 {
        Some(_) => history_status_lines(facts.history) + seq![""@],
        None => Seq::empty(),
    } + gotify_status_lines(v.4, v.5, v.6)
}

/// What `toml::from_str::<toml::Value>` on a text, then `Value::get` along
/// a path of keys and `Value::as_str`, gives: `None` when the text is not
/// TOML, `Some(None)` when the path leads nowhere or to a value that is not
/// a string.
pub uninterp spec fn toml_text_at(text: Seq<char>, path: Seq<Seq<char>>) -> Option<Option<Seq<char>>>;

/// The same with `Value::as_bool` in place of `Value::as_str`.
pub uninterp spec fn toml_bool_at(text: Seq<char>, path: Seq<Seq<char>>) -> Option<Option<bool>>;

/// `toml::from_str::<toml::Value>` on `text`, then `Value::get` along
/// `path` and `Value::as_str`. The contract names the outcome and says
/// when the parse failed.
#[verifier::external_body]
fn toml_text_lookup(text: &str, path: &Vec<String>) -> (r: Result<Option<String>, toml::de::Error>)
    ensures
        match r {
            Ok(v) => toml_text_at(text@, views(path@)) == Some(opt_view(v)),
            Err(_) => toml_text_at(text@, views(path@)) is None,
        },
{
    let value: toml::Value = toml::from_str(text)?;
    let found = path.iter().try_fold(&value, |v, key| v.get(key.as_str()));
    Ok(found.and_then(|v| v.as_str()).map(String::from))
}

/// `toml::from_str::<toml::Value>` on `text`, then `Value::get` along
/// `path` and `Value::as_bool`. The contract names the outcome and says
/// when the parse failed.
#[verifier::external_body]
fn toml_bool_lookup(text: &str, path: &Vec<String>) -> (r: Result<Option<bool>, toml::de::Error>)
    ensures
        match r {
            Ok(v) => toml_bool_at(text@, views(path@)) == Some(v),
            Err(_) => toml_bool_at(text@, views(path@)) is None,
        },
{
    let value: toml::Value = toml::from_str(text)?;
    let found = path.iter().try_fold(&value, |v, key| v.get(key.as_str()));
    Ok(found.and_then(|v| v.as_bool()))
}

/// The report's values read from a configuration text, `None` when it is
/// not TOML.
pub open spec fn status_values_of(text: Seq<char>) -> Option<StatusValues> {
    let watch = toml_text_at(text, seq!["watch"@, "directory"@]);
    let output = toml_text_at(text, seq!["output"@, "directory"@]);
    let history = toml_text_at(text, seq!["history"@, "directory"@]);
    let password = toml_text_at(text, seq!["extract"@, "password_file"@]);
    let enabled = toml_bool_at(text, seq!["notifications"@, "gotify"@, "enabled"@]);
    let url = toml_text_at(text, seq!["notifications"@, "gotify"@, "url"@]);
    let token = toml_text_at(text, seq!["notifications"@, "gotify"@, "token"@]);
    if watch is Some && output is Some && history is Some && password is Some && enabled is Some
        && url is Some && token is Some {
        Some((watch->0, output->0, history->0, password->0, enabled->0, url->0, token->0))
    } else {
        None
    }
}

fn key_path(keys: &[&str]) -> (r: Vec<String>)
    ensures
        views(r@) == keys@.map_values(|k: &str| k@),
{
    let mut r: Vec<String> = Vec::new();
    let mut i: usize = 0;
    while i < keys.len()
        invariant
            i <= keys@.len(),
            views(r@) == keys@.take(i as int).map_values(|k: &str| k@),
        decreases keys.len() - i,
    {
        let ghost before = views(r@);
        r.push(string_of(&chars_of(keys[i])));
        assert(keys@.take(i + 1) =~= keys@.take(i as int).push(keys@[i as int]));
        assert(views(r@) =~= before.push(keys@[i as int]@));
        assert(keys@.take(i + 1).map_values(|k: &str| k@) =~= keys@.take(i as int).map_values(|k: &str| k@).push(keys@[i as int]@));
        i = i + 1;
    }
    assert(keys@.take(keys@.len() as int) =~= keys@);
    r
}

/// The error of `toml::from_str`, carried through to the caller.
#[verifier::external_type_specification]
#[verifier::external_body]
pub struct ExTomlDeError(toml::de::Error);

/// Why the report could not be made: the configuration text is not TOML.
pub enum StatusError {
    Parse(toml::de::Error),
}

fn text_at(text: &str, keys: &[&str]) -> (r: Result<Option<String>, StatusError>)
    ensures
        match r {
            Ok(v) => toml_text_at(text@, keys@.map_values(|k: &str| k@)) == Some(opt_view(v)),
            Err(_) => toml_text_at(text@, keys@.map_values(|k: &str| k@)) is None,
        },
{
    match toml_text_lookup(text, &key_path(keys)) {
        Ok(v) => Ok(v),
        Err(e) => Err(StatusError::Parse(e)),
    }
}

fn bool_at(text: &str, keys: &[&str]) -> (r: Result<Option<bool>, StatusError>)
    ensures
        match r {
            Ok(v) => toml_bool_at(text@, keys@.map_values(|k: &str| k@)) == Some(v),
            Err(_) => toml_bool_at(text@, keys@.map_values(|k: &str| k@)) is None,
        },
{
    match toml_bool_lookup(text, &key_path(keys)) {
        Ok(v) => Ok(v),
        Err(e) => Err(StatusError::Parse(e)),
    }
}

/// The values that the report reads from the configuration text.
pub fn read_status_fields(config_text: &str) -> (r: Result<StatusFields, StatusError>)
    ensures
        match r {
            Ok(f) => status_values_of(config_text@) == Some(status_values(f)),
            Err(_) => status_values_of(config_text@) is None,
        },
{
    proof {
        reveal_strlit("watch");
        reveal_strlit("directory");
        reveal_strlit("output");
        reveal_strlit("history");
        reveal_strlit("extract");
        reveal_strlit("password_file");
        reveal_strlit("notifications");
        reveal_strlit("gotify");
        reveal_strlit("enabled");
        reveal_strlit("url");
        reveal_strlit("token");
    }
    let watch_keys = ["watch", "directory"];
    assert(watch_keys@.map_values(|k: &str| k@) =~= seq!["watch"@, "directory"@]);
    let watch_directory = text_at(config_text, &watch_keys)?;
    let output_keys = ["output", "directory"];
    assert(output_keys@.map_values(|k: &str| k@) =~= seq!["output"@, "directory"@]);
    let output_directory = text_at(config_text, &output_keys)?;
    let history_keys = ["history", "directory"];
    assert(history_keys@.map_values(|k: &str| k@) =~= seq!["history"@, "directory"@]);
    let history_directory = text_at(config_text, &history_keys)?;
    let password_keys = ["extract", "password_file"];
    assert(password_keys@.map_values(|k: &str| k@) =~= seq!["extract"@, "password_file"@]);
    let password_file = text_at(config_text, &password_keys)?;
    let enabled_keys = ["notifications", "gotify", "enabled"];
    assert(enabled_keys@.map_values(|k: &str| k@) =~= seq!["notifications"@, "gotify"@, "enabled"@]);
    let gotify_enabled = bool_at(config_text, &enabled_keys)?;
    let url_keys = ["notifications", "gotify", "url"];
    assert(url_keys@.map_values(|k: &str| k@) =~= seq!["notifications"@, "gotify"@, "url"@]);
    let gotify_url = text_at(config_text, &url_keys)?;
    let token_keys = ["notifications", "gotify", "token"];
    assert(token_keys@.map_values(|k: &str| k@) =~= seq!["notifications"@, "gotify"@, "token"@]);
    let gotify_token = text_at(config_text, &token_keys)?;
    Ok(StatusFields {
        watch_directory,
        output_directory,
        history_directory,
        password_file,
        gotify_enabled,
        gotify_url,
        gotify_token,
    })
}

/// The report after the configuration file was read, from its text and
/// what was found on disk: `Err` exactly when the text is not TOML.
pub fn status_report(config_text: &str, facts: &StatusFacts) -> (r: Result<Vec<String>, StatusError>)
    ensures
        match r {
            Ok(lines) => status_values_of(config_text@) is Some && views(lines@) == status_body(
                status_values_of(config_text@)->0,
                *facts,
            ),
            Err(_) => status_values_of(config_text@) is None,
        },
{
    match read_status_fields(config_text) {
        Ok(f) => Ok(status_lines(&f, facts)),
        Err(e) => Err(e),
    }
}

fn push_line(out: &mut Vec<String>, head: &str, tail: &str)
    ensures
        views(final(out)@) == views(old(out)@).push(head@ + tail@),
{
    let mut v = chars_of(head);
    extend_str(&mut v, tail);
    let ghost before = views(out@);
    out.push(string_of(&v));
    assert(views(out@) =~= before.push(head@ + tail@));
}

fn push_text(out: &mut Vec<String>, text: &str)
    ensures
        views(final(out)@) == views(old(out)@).push(text@),
{
    let ghost before = views(out@);
    out.push(string_of(&chars_of(text)));
    assert(views(out@) =~= before.push(text@));
}

fn push_count(out: &mut Vec<String>, head: &str, n: usize)
    ensures
        views(final(out)@) == views(old(out)@).push(head@ + dec(n as nat)),
{
    let mut v = chars_of(head);
    push_dec(&mut v, n as u64);
    let ghost before = views(out@);
    out.push(string_of(&v));
    assert(views(out@) =~= before.push(head@ + dec(n as nat)));
}

fn bool_word(b: bool) -> (r: &'static str)
    ensures
        r@ == bool_text(b),
{
    if b {
        "true"
    } else {
        "false"
    }
}

pub fn status_head_lines(config_path: &str) -> (r: Vec<String>)
    ensures
        views(r@) == status_head(config_path@),
{
    let mut out: Vec<String> = Vec::new();
    push_text(&mut out, "== XDCC Extractor Status ==");
    push_text(&mut out, "");
    push_text(&mut out, "Version:");
    push_line(&mut out, "  ", VERSION);
    push_text(&mut out, "");
    push_text(&mut out, "Binary:");
    push_text(&mut out, "  OK");
    push_text(&mut out, "");
    push_text(&mut out, "Config:");
    push_line(&mut out, "  Pfad: ", config_path);
    assert(views(out@) =~= status_head(config_path@));
    out
}

fn push_path_status(out: &mut Vec<String>, label: &str, value: &Option<String>, exists: bool)
    ensures
        views(final(out)@) == views(old(out)@) + path_status(label@, opt_view(*value), exists),
{
    let ghost start = views(out@);
    push_line(out, label, ":");
    match value {
        Some(p) if !is_blank(p.as_str()) => {
            push_line(out, "  Pfad: ", p.as_str());
            if exists {
                push_text(out, "  Status: OK");
            } else {
                push_text(out, "  Status: FEHLT");
            }
        },
        _ => {
            push_text(out, "  Status: nicht konfiguriert");
        },
    }
    push_text(out, "");
    assert(views(out@) =~= start + path_status(label@, opt_view(*value), exists));
}

fn push_password_status(out: &mut Vec<String>, file: &Option<String>, content: &Option<String>)
    ensures
        views(final(out)@) == views(old(out)@) + password_status_lines(opt_view(*file), *content),
{
    let ghost start = views(out@);
    match file {
        None => {
            assert(views(out@) =~= start + password_status_lines(opt_view(*file), *content));
        },
        Some(f) => {
            push_text(out, "Password file:");
            if is_blank(f.as_str()) {
                push_text(out, "  nicht konfiguriert");
            } else {
                push_line(out, "  Pfad: ", f.as_str());
                match content {
                    Some(c) => {
                        push_text(out, "  Status: OK");
                        push_count(out, "  Einträge: ", count_passwords(c.as_str()));
                    },
                    None => {
                        push_text(out, "  Status: FEHLT");
                    },
                }
            }
            push_text(out, "");
            assert(views(out@) =~= start + password_status_lines(opt_view(*file), *content));
        },
    }
}

fn push_note(out: &mut Vec<String>, n: &FailureNote)
    ensures
        views(final(out)@) == views(old(out)@) + note_lines(*n),
{
    let ghost start = views(out@);
    push_line(out, "    - ", n.file_name.as_str());
    match &n.content {
        Some(c) => match first_error_line(c.as_str()) {
            Some(reason) => {
                push_line(out, "      ", reason.as_str());
            },
            None => {},
        },
        None => {},
    }
    assert(views(out@) =~= start + note_lines(*n));
}

fn push_history_status(out: &mut Vec<String>, h: &Option<HistoryFacts>)
    ensures
        views(final(out)@) == views(old(out)@) + history_status_lines(*h),
{
    let ghost start = views(out@);
    push_text(out, "History:");
    match h {
        None => {
            push_text(out, "  Status: FEHLT");
        },
        Some(hf) => {
            let (done, failed) = history_counts(&hf.names);
            push_text(out, "  Status: OK");
            push_count(out, "  done: ", done);
            push_count(out, "  failed: ", failed);
            let ghost mid = views(out@);
            if hf.latest.len() > 0 {
                push_text(out, "  letzte Fehler:");
                let ghost listed = views(out@);
                let n = if hf.latest.len() > LATEST_FAILURES {
                    LATEST_FAILURES
                } else {
                    hf.latest.len()
                };
                let ghost shown = hf.latest@.take(n as int);
                let mut i: usize = 0;
                while i < n
                    invariant
                        i <= n,
                        n <= hf.latest@.len(),
                        shown == hf.latest@.take(n as int),
                        views(out@) == listed + notes_lines(shown.take(i as int)),
                    decreases n - i,
                {
                    assert(shown.take(i + 1).drop_last() =~= shown.take(i as int));
                    assert(shown.take(i + 1).last() == hf.latest@[i as int]);
                    push_note(out, &hf.latest[i]);
                    i = i + 1;
                }
                assert(shown.take(n as int) =~= shown);
                assert(hf.latest@.len() <= LATEST_FAILURES ==> shown =~= hf.latest@);
            }
        },
    }
    assert(views(out@) =~= start + history_status_lines(*h));
}

fn push_gotify_status(out: &mut Vec<String>, f: &StatusFields)
    ensures
        views(final(out)@) == views(old(out)@) + gotify_status_lines(
            f.gotify_enabled,
            opt_view(f.gotify_url),
            opt_view(f.gotify_token),
        ),
{
    let ghost start = views(out@);
    let enabled = match f.gotify_enabled {
        Some(b) => b,
        None => false,
    };
    push_text(out, "Gotify:");
    push_line(out, "  enabled: ", bool_word(enabled));
    match &f.gotify_url {
        Some(u) => {
            if is_blank(u.as_str()) {
                push_line(out, "  url: ", "<leer>");
            } else {
                push_line(out, "  url: ", u.as_str());
            }
        },
        None => {},
    }
    let token_set = match &f.gotify_token {
        Some(t) => !is_blank(t.as_str()),
        None => false,
    };
    push_line(out, "  token gesetzt: ", bool_word(token_set));
    push_text(out, "");
    push_text(out, "Status-Prüfung abgeschlossen.");
    assert(views(out@) =~= start + gotify_status_lines(
        f.gotify_enabled,
        opt_view(f.gotify_url),
        opt_view(f.gotify_token),
    ));
}

/// The report after the configuration file was read, one entry per line.
pub fn status_lines(fields: &StatusFields, facts: &StatusFacts) -> (r: Vec<String>)
    ensures
        views(r@) == status_body(status_values(*fields), *facts),
{
    let mut out: Vec<String> = Vec::new();
    push_text(&mut out, "  Status: OK");
    push_text(&mut out, "");
    push_path_status(&mut out, "Watch directory", &fields.watch_directory, facts.watch_exists);
    push_path_status(&mut out, "Output directory", &fields.output_directory, facts.output_exists);
    push_path_status(&mut out, "History directory", &fields.history_directory, facts.history_exists);
    push_text(&mut out, "");
    push_password_status(&mut out, &fields.password_file, &facts.password_content);
    let ghost before_history = views(out@);
    match &fields.history_directory {
        Some(_) => {
            push_history_status(&mut out, &facts.history);
            push_text(&mut out, "");
        },
        None => {},
    }
    assert(views(out@) =~= before_history + match fields.history_directory {
        Some(_) => history_status_lines(facts.history) + seq![""@],
        None => Seq::empty(),
    });
    push_gotify_status(&mut out, fields);
    assert(views(out@) =~= status_body(status_values(*fields), *facts));
    out
}

} // verus!
