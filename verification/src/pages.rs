//! The pages of the web interface, as text. Each page is stated as the
//! concatenation of its fixed parts and the values it shows; the values
//! that need the file system (history counts, the scan, disk space) are
//! handed in.
use crate::backups::BackupSummary;
use crate::config::{resolve_dirs, views, watch_entries, Config, GotifyConfig, WatchConfig};
use crate::disk::{bytes_text, format_bytes, DiskUsageLevel};
use crate::history::FailureEntry;
use crate::html::{
    candidates_view, checked, escaped, failures_html, failures_text, notice_class, notice_class_of,
    push_escaped, scan_summary_html, scan_summary_text, watch_directory_list_html, watch_items,
    ScanCandidate,
};
use crate::text::{
    chars_of, dec, dec_int, extend_str, is_blank, push_dec, push_dec_i64, string_of, trim,
};
use crate::toml_edit::join_lines;
use vstd::prelude::*;

verus! {

/// The version shown on the pages.
pub const VERSION: &'static str = "1.1.0";

/// The navigation bar, without its closing tag.
pub const NAV: &'static str = r#"<div class="actions nav" style="margin-top: 22px; margin-bottom: 30px;">
    <a class="button" href="/">Dashboard</a>
    <a class="button" href="/settings">Einstellungen</a>
    <a class="button" href="/settings/edit">Bearbeiten</a>
    <a class="button" href="/logs">Logs</a>
    <a class="button" href="/diagnostics">Diagnose</a>"#;

/// The watch directories as the configuration resolves them.
pub open spec fn watched(w: WatchConfig) -> Seq<Seq<char>> {
    resolve_dirs(watch_entries(w))
}

/// Not empty after trimming.
pub open spec fn filled(s: Seq<char>) -> bool {
    trim(s).len() > 0
}

pub open spec fn badge_text(class: Seq<char>, text: Seq<char>) -> Seq<char> {
    "<span class=\"badge "@ + class + "\">"@ + text + "</span>"@
}

/// One of two badges, by a flag.
pub open spec fn flag_badge(
    on: bool,
    on_class: Seq<char>,
    on_text: Seq<char>,
    off_class: Seq<char>,
    off_text: Seq<char>,
) -> Seq<char> {
    if on {
        badge_text(on_class, on_text)
    } else {
        badge_text(off_class, off_text)
    }
}

fn push_badge_of(out: &mut Vec<char>, class: &str, text: &str)
    ensures
        final(out)@ == old(out)@ + badge_text(class@, text@),
{
    let ghost start = out@;
    extend_str(out, "<span class=\"badge ");
    extend_str(out, class);
    extend_str(out, "\">");
    extend_str(out, text);
    extend_str(out, "</span>");
    assert(out@ =~= start + badge_text(class@, text@));
}

fn push_badge(out: &mut Vec<char>, on: bool, on_class: &str, on_text: &str, off_class: &str, off_text: &str)
    ensures
        final(out)@ == old(out)@ + flag_badge(on, on_class@, on_text@, off_class@, off_text@),
{
    if on {
        push_badge_of(out, on_class, on_text);
    } else {
        push_badge_of(out, off_class, off_text);
    }
}

pub open spec fn checked_text(value: bool) -> Seq<char> {
    if value {
        "checked"@
    } else {
        ""@
    }
}

/// A flag as Rust prints it.
pub open spec fn bool_text(b: bool) -> Seq<char> {
    if b {
        "true"@
    } else {
        "false"@
    }
}

fn bool_str(b: bool) -> (r: &'static str)
    ensures
        r@ == bool_text(b),
{
    if b {
        "true"
    } else {
        "false"
    }
}

pub open spec fn opt_view(m: Option<&str>) -> Option<Seq<char>> {
    match m {
        Some(s) => Some(s@),
        None => None,
    }
}

fn push_watch_rows(out: &mut Vec<char>, w: &WatchConfig)
    ensures
        final(out)@ == old(out)@ + watch_items(watched(*w)),
{
    let dirs = w.resolved_directories();
    let rows = watch_directory_list_html(&dirs);
    assert(dirs@.map_values(|s: String| s@) =~= views(dirs@));
    extend_str(out, rows.as_str());
}

/// Appends the strings joined by line feeds.
fn push_joined(out: &mut Vec<char>, items: &Vec<String>)
    ensures
        final(out)@ == old(out)@ + join_lines(views(items@)),
{
    let ghost start = out@;
    let ghost v = views(items@);
    let mut i: usize = 0;
    while i < items.len()
        invariant
            i <= items@.len(),
            v == views(items@),
            out@ == start + join_lines(v.take(i as int)),
        decreases items.len() - i,
    {
        assert(v.take(i + 1).drop_last() =~= v.take(i as int));
        assert(v.take(i + 1).last() == items@[i as int]@);
        if i > 0 {
            extend_str(out, "\n");
        }
        extend_str(out, items[i].as_str());
        proof {
            if i == 0 {
                assert(v.take(1) =~= seq![v[0]]);
                assert(join_lines(v.take(0)) =~= Seq::<char>::empty());
            }
        }
        assert(out@ =~= start + join_lines(v.take(i + 1)));
        i = i + 1;
    }
    assert(v.take(v.len() as int) =~= v);
}

fn push_watch_lines(out: &mut Vec<char>, w: &WatchConfig)
    ensures
        final(out)@ == old(out)@ + escaped(join_lines(watched(*w))),
{
    let dirs = w.resolved_directories();
    let mut joined: Vec<char> = Vec::new();
    push_joined(&mut joined, &dirs);
    assert(joined@ =~= join_lines(watched(*w)));
    let text = string_of(&joined);
    push_escaped(out, text.as_str());
}

/// The notice after a form was sent.
pub open spec fn notice_html(message: Option<Seq<char>>) -> Seq<char> {
    match message {
        None => Seq::empty(),
        Some(m) => "<section class=\""@ + notice_class_of(m) + "\" role=\"status\">"@ + escaped(m)
            + "</section>"@,
    }
}

fn push_notice(out: &mut Vec<char>, message: Option<&str>)
    ensures
        final(out)@ == old(out)@ + notice_html(opt_view(message)),
{
    let ghost start = out@;
    match message {
        None => {
            assert(out@ =~= start + notice_html(opt_view(message)));
        },
        Some(m) => {
            extend_str(out, "<section class=\"");
            extend_str(out, notice_class(m));
            extend_str(out, "\" role=\"status\">");
            push_escaped(out, m);
            extend_str(out, "</section>");
            assert(out@ =~= start + notice_html(opt_view(message)));
        },
    }
}

// ------------------------------------------------------------------
// The dashboard's lists
// ------------------------------------------------------------------

pub open spec fn scan_view(s: Result<Vec<ScanCandidate>, String>) -> Result<Seq<ScanCandidate>, Seq<char>> {
    match s {
        Ok(cs) => Ok(cs@),
        Err(m) => Err(m@),
    }
}

pub open spec fn failures_view(s: Result<Vec<FailureEntry>, String>) -> Result<Seq<FailureEntry>, Seq<char>> {
    match s {
        Ok(es) => Ok(es@),
        Err(m) => Err(m@),
    }
}

/// The release list, or the error that stopped the scan.
pub open spec fn scan_section_text(scan: Result<Seq<ScanCandidate>, Seq<char>>) -> Seq<char> {
    match scan {
        Ok(cs) => scan_summary_text(candidates_view(cs)),
        Err(m) => "<div class=\"error\">Releases konnten nicht geprüft werden: "@ + escaped(m)
            + "</div>"@,
    }
}

/// The failure list, or the error that stopped reading it.
pub open spec fn failures_section_text(failures: Result<Seq<FailureEntry>, Seq<char>>) -> Seq<char> {
    match failures {
        Ok(es) => failures_text(es),
        Err(m) => "<div class=\"error\">Fehlerliste konnte nicht geladen werden: "@ + escaped(m)
            + "</div>"@,
    }
}

fn push_scan_section(out: &mut Vec<char>, scan: &Result<Vec<ScanCandidate>, String>)
    ensures
        final(out)@ == old(out)@ + scan_section_text(scan_view(*scan)),
{
    let ghost start = out@;
    match scan {
        Ok(cs) => {
            let html = scan_summary_html(cs);
            extend_str(out, html.as_str());
        },
        Err(m) => {
            extend_str(out, "<div class=\"error\">Releases konnten nicht geprüft werden: ");
            push_escaped(out, m.as_str());
            extend_str(out, "</div>");
            assert(out@ =~= start + scan_section_text(scan_view(*scan)));
        },
    }
}

fn push_failures_section(out: &mut Vec<char>, failures: &Result<Vec<FailureEntry>, String>)
    ensures
        final(out)@ == old(out)@ + failures_section_text(failures_view(*failures)),
{
    let ghost start = out@;
    match failures {
        Ok(es) => {
            let html = failures_html(es);
            extend_str(out, html.as_str());
        },
        Err(m) => {
            extend_str(out, "<div class=\"error\">Fehlerliste konnte nicht geladen werden: ");
            push_escaped(out, m.as_str());
            extend_str(out, "</div>");
            assert(out@ =~= start + failures_section_text(failures_view(*failures)));
        },
    }
}

// ------------------------------------------------------------------
// The diagnostics page's parts
// ------------------------------------------------------------------

/// The figures of one file system; the percentages are already formatted
/// with one decimal.
pub struct DiskFigures {
    pub total_bytes: u64,
    pub used_bytes: u64,
    pub available_bytes: u64,
    pub level: DiskUsageLevel,
    pub used_percent: String,
    pub meter_percent: String,
}

/// A file system's figures, or the text of the error that prevented them.
pub enum DiskReading {
    Available(DiskFigures),
    Unavailable(String),
}

/// What the diagnostics page shows besides the configuration.
/// `watch_disks[i]` belongs to the `i`-th resolved watch directory.
pub struct DiagnosticsFacts {
    pub history_dir_exists: bool,
    pub password_file_exists: bool,
    pub done: usize,
    pub failed: usize,
    pub watch_disks: Vec<DiskReading>,
    pub output_disk: DiskReading,
    pub history_disk: DiskReading,
    pub config_backups: BackupSummary,
    pub history_backups: BackupSummary,
    pub password_backups: BackupSummary,
}

pub open spec fn level_class(level: DiskUsageLevel) -> Seq<char> {
    match level {
        DiskUsageLevel::Normal => "ok"@,
        DiskUsageLevel::Warning => "warn"@,
        DiskUsageLevel::Critical => "bad"@,
    }
}

pub open spec fn level_label(level: DiskUsageLevel) -> Seq<char> {
    match level {
        DiskUsageLevel::Normal => "ausreichend"@,
        DiskUsageLevel::Warning => "beobachten"@,
        DiskUsageLevel::Critical => "kritisch"@,
    }
}

pub open spec fn backup_status(s: BackupSummary) -> Seq<char> {
    if !s.directory_exists {
        badge_text("muted"@, "noch nicht angelegt"@)
    } else if !s.readable {
        badge_text("bad"@, "nicht lesbar"@)
    } else {
        badge_text("ok"@, "bereit"@)
    }
}

fn push_backup_status(out: &mut Vec<char>, s: &BackupSummary)
    ensures
        final(out)@ == old(out)@ + backup_status(*s),
{
    if !s.directory_exists {
        push_badge_of(out, "muted", "noch nicht angelegt");
    } else if !s.readable {
        push_badge_of(out, "bad", "nicht lesbar");
    } else {
        push_badge_of(out, "ok", "bereit");
    }
}

pub open spec fn backup_count(n: usize) -> Seq<char> {
    if n == 0 {
        badge_text("muted"@, "0"@)
    } else {
        badge_text("ok"@, dec(n as nat))
    }
}

fn push_backup_count(out: &mut Vec<char>, n: usize)
    ensures
        final(out)@ == old(out)@ + backup_count(n),
{
    if n == 0 {
        push_badge_of(out, "muted", "0");
    } else {
        let ghost start = out@;
        extend_str(out, "<span class=\"badge ");
        extend_str(out, "ok");
        extend_str(out, "\">");
        push_dec(out, n as u64);
        extend_str(out, "</span>");
        assert(out@ =~= start + backup_count(n));
    }
}

pub open spec fn backup_latest(s: BackupSummary) -> Seq<char> {
    match (s.latest_name, s.latest_age) {
        (Some(name), Some(age)) => escaped(age@) + "<br><code>"@ + escaped(name@) + "</code>"@,
        _ => "noch keine Sicherung"@,
    }
}

fn push_backup_latest(out: &mut Vec<char>, s: &BackupSummary)
    ensures
        final(out)@ == old(out)@ + backup_latest(*s),
{
    let ghost start = out@;
    match (&s.latest_name, &s.latest_age) {
        (Some(name), Some(age)) => {
            push_escaped(out, age.as_str());
            extend_str(out, "<br><code>");
            push_escaped(out, name.as_str());
            extend_str(out, "</code>");
            assert(out@ =~= start + backup_latest(*s));
        },
        _ => {
            extend_str(out, "noch keine Sicherung");
        },
    }
}

pub open spec fn password_status(file: Seq<char>, exists: bool) -> Seq<char> {
    if !filled(file) {
        badge_text("muted"@, "nicht konfiguriert"@)
    } else if exists {
        badge_text("ok"@, "vorhanden"@)
    } else {
        badge_text("bad"@, "nicht gefunden"@)
    }
}

fn push_password_status(out: &mut Vec<char>, file: &str, exists: bool)
    ensures
        final(out)@ == old(out)@ + password_status(file@, exists),
{
    if is_blank(file) {
        push_badge_of(out, "muted", "nicht konfiguriert");
    } else if exists {
        push_badge_of(out, "ok", "vorhanden");
    } else {
        push_badge_of(out, "bad", "nicht gefunden");
    }
}

pub open spec fn password_path_text(file: Seq<char>) -> Seq<char> {
    if filled(file) {
        escaped(file)
    } else {
        "—"@
    }
}

fn push_password_path(out: &mut Vec<char>, file: &str)
    ensures
        final(out)@ == old(out)@ + password_path_text(file@),
{
    if is_blank(file) {
        extend_str(out, "—");
    } else {
        push_escaped(out, file);
    }
}

pub open spec fn gotify_status(g: GotifyConfig) -> Seq<char> {
    if !g.enabled {
        badge_text("muted"@, "aus"@)
    } else if filled(g.url@) && filled(g.token@) {
        badge_text("ok"@, "bereit"@)
    } else {
        badge_text("bad"@, "unvollständig"@)
    }
}

fn push_gotify_status(out: &mut Vec<char>, g: &GotifyConfig)
    ensures
        final(out)@ == old(out)@ + gotify_status(*g),
{
    if !g.enabled {
        push_badge_of(out, "muted", "aus");
    } else if !is_blank(&g.url) && !is_blank(&g.token) {
        push_badge_of(out, "ok", "bereit");
    } else {
        push_badge_of(out, "bad", "unvollständig");
    }
}

} // verus!

verus! {

pub const LOGS_PAGE_1: &'static str = r#"<!doctype html>
<html lang="de">
<head>
<meta charset="utf-8">
<meta name="viewport" content="width=device-width, initial-scale=1">
<title>XDCC Extractor Logs</title>
<link rel="stylesheet" href="/assets/common.css">
<link rel="stylesheet" href="/assets/logs.css">
</head>
<body>
<main>
  <h1>Logs</h1>
  <div class="sub">XDCC Extractor Version "#;
pub const LOGS_PAGE_2: &'static str = r#"</div>

    <div class="actions nav" style="margin-top: 22px; margin-bottom: 30px;">
    <a class="button" href="/">Dashboard</a>
    <a class="button" href="/settings">Einstellungen</a>
    <a class="button" href="/settings/edit">Bearbeiten</a>
    <a class="button" href="/logs">Logs</a>
    <a class="button" href="/diagnostics">Diagnose</a>
    <button id="refresh-logs" class="button" type="button">Logs aktualisieren</button>
  </div>

  <section class="card">
    <pre id="log-output" class="logbox">Logs werden geladen...</pre>
    <div class="small">Zeigt die letzten 300 Logzeilen des laufenden Workers. Vertrauliche Daten werden nicht aus der Konfigurationsdatei oder der Passwortliste gelesen.</div>
  </section>
</main>

<script>
async function refreshLogs() {
  const output = document.getElementById('log-output');
  const button = document.getElementById('refresh-logs');

  if (button) {
    button.disabled = true;
    button.textContent = 'Lade...';
  }

  try {
    const response = await fetch('/api/logs', { cache: 'no-store' });

    if (!response.ok) {
      throw new Error('HTTP ' + response.status);
    }

    const data = await response.json();
    const lines = Array.isArray(data.lines) ? data.lines : [];

    output.textContent = lines.length
      ? lines.join('\n')
      : 'Noch keine Logs im WebUI-Puffer.';
    output.scrollTop = output.scrollHeight;
  } catch (error) {
    output.textContent = 'Logs konnten nicht geladen werden: ' + error.message;
  } finally {
    if (button) {
      button.disabled = false;
      button.textContent = 'Logs aktualisieren';
    }
  }
}

document.addEventListener('DOMContentLoaded', () => {
  const button = document.getElementById('refresh-logs');

  if (button) {
    button.addEventListener('click', refreshLogs);
  }

  refreshLogs();
  setInterval(refreshLogs, 5000);
});
</script>
</body>
</html>"#;

/// The page with the latest log lines.
pub open spec fn logs_page_html_text() -> Seq<char> {
    LOGS_PAGE_1@
        + VERSION@
        + LOGS_PAGE_2@
}

pub fn logs_page_html() -> (r: String)
    ensures
        r@ == logs_page_html_text(),
{
    let mut out = chars_of(LOGS_PAGE_1);
    extend_str(&mut out, VERSION);
    extend_str(&mut out, LOGS_PAGE_2);
    string_of(&out)
}

pub const SETTINGS_PAGE_1: &'static str = r#"<!doctype html>
<html lang="de">
<head>
<meta charset="utf-8">
<meta name="viewport" content="width=device-width, initial-scale=1">
<title>XDCC Extractor Einstellungen</title>
<link rel="stylesheet" href="/assets/common.css">
<link rel="stylesheet" href="/assets/settings.css">
</head>
<body>
<main>
  <h1>Einstellungen</h1>
  <div class="sub">XDCC Extractor Version "#;
pub const SETTINGS_PAGE_2: &'static str = r#"</div>

    <div class="actions nav" style="margin-top: 22px; margin-bottom: 30px;">
    <a class="button" href="/">Dashboard</a>
    <a class="button" href="/settings">Einstellungen</a>
    <a class="button" href="/settings/edit">Bearbeiten</a>
    <a class="button" href="/logs">Logs</a>
    <a class="button" href="/diagnostics">Diagnose</a>
  </div>

  <div class="grid">
    <section class="card">
      <h2>Überwachung</h2>
      <div class="row">
        <div class="key">
          Überwachte Ordner
        </div>

        <div class="value">
          <div class="watch-directory-list">
            "#;
pub const SETTINGS_PAGE_3: &'static str = r#"</code></div></div>
    </section>

    <section class="card wide">
      <h2>Vertrauliche Daten</h2>
      <div class="row"><div class="key">Gotify Token</div><div class="value"><span class="badge muted">nicht sichtbar</span></div></div>
      <div class="row"><div class="key">Passwortliste</div><div class="value"><span class="badge muted">Inhalt bleibt verborgen</span></div></div>
    </section>
  </div>

  <footer>
    Diese Seite zeigt die aktuell geladene Konfiguration. Änderungen können im Bereich Bearbeiten vorgenommen werden und werden nach einem Neustart des Workers aktiv.
  </footer>
</main>
</body>
</html>"#;

/// The page with the loaded configuration; secrets are only reported as set or not.
pub open spec fn settings_page_html_text(c: Config) -> Seq<char> {
    SETTINGS_PAGE_1@
        + VERSION@
        + SETTINGS_PAGE_2@
        + watch_items(watched(c.watch))
        + r#"
          </div>
        </div>
      </div>
      <div class="row"><div class="key">Wartezeit bis Verarbeitung</div><div class="value">"#@
        + dec(c.watch.stable_after as nat)
        + r#"s</div></div>
      <div class="row"><div class="key">Root-Archive erlauben</div><div class="value">"#@
        + flag_badge(c.watch.allow_root_archives, "ok"@, "aktiv"@, "muted"@, "aus"@)
        + r#"</div></div>
    </section>

    <section class="card">
      <h2>Entpacken</h2>
      <div class="row"><div class="key">Testmodus</div><div class="value">"#@
        + flag_badge(c.extract.dry_run, "ok"@, "aktiv"@, "warn"@, "aus"@)
        + r#"</div></div>
      <div class="row"><div class="key">Archive nach Erfolg löschen</div><div class="value">"#@
        + flag_badge(c.extract.delete_archives, "warn"@, "aktiv"@, "muted"@, "aus"@)
        + r#"</div></div>
      <div class="row"><div class="key">Fehlerhafte Archive behalten</div><div class="value">"#@
        + flag_badge(c.extract.keep_failed, "ok"@, "aktiv"@, "muted"@, "aus"@)
        + r#"</div></div>
      <div class="row"><div class="key">Passwortliste konfiguriert</div><div class="value">"#@
        + flag_badge(filled(c.extract.password_file@), "ok"@, "ja"@, "muted"@, "nein"@)
        + r#" <span class="key">Inhalt bleibt verborgen</span></div></div>
      <div class="row"><div class="key">Pfad zur Passwortliste</div><div class="value"><code>"#@
        + escaped(c.extract.password_file@)
        + r#"</code></div></div>
    </section>

    <section class="card">
      <h2>Ausgabe / Verlauf</h2>
      <div class="row"><div class="key">Ausgabeordner</div><div class="value"><code>"#@
        + escaped(c.output.directory@)
        + r#"</code></div></div>
      <div class="row"><div class="key">Verlaufsordner</div><div class="value"><code>"#@
        + escaped(c.history.directory@)
        + r#"</code></div></div>
    </section>

    <section class="card">
      <h2>Wiederholung / Start</h2>
      <div class="row"><div class="key">Erste Wiederholung nach</div><div class="value">"#@
        + dec(c.retry.base_delay as nat)
        + r#"s</div></div>
      <div class="row"><div class="key">Maximale Wiederholungs-Wartezeit</div><div class="value">"#@
        + dec(c.retry.max_delay as nat)
        + r#"s</div></div>
      <div class="row"><div class="key">Vorhandene Releases beim Start scannen</div><div class="value">"#@
        + flag_badge(c.startup.scan_existing, "warn"@, "aktiv"@, "muted"@, "aus"@)
        + r#"</div></div>
    </section>

    <section class="card">
      <h2>Gotify</h2>
      <div class="row"><div class="key">Gotify aktiv</div><div class="value">"#@
        + flag_badge(c.notifications.gotify.enabled, "ok"@, "aktiv"@, "muted"@, "aus"@)
        + r#"</div></div>
      <div class="row"><div class="key">Gotify-URL konfiguriert</div><div class="value">"#@
        + flag_badge(filled(c.notifications.gotify.url@), "ok"@, "ja"@, "bad"@, "nein"@)
        + r#"</div></div>
      <div class="row"><div class="key">Token konfiguriert</div><div class="value">"#@
        + flag_badge(filled(c.notifications.gotify.token@), "ok"@, "ja"@, "bad"@, "nein"@)
        + r#"</div></div>
      <div class="row"><div class="key">Priorität bei Erfolg</div><div class="value">"#@
        + dec_int(c.notifications.gotify.priority_success as int)
        + r#"</div></div>
      <div class="row"><div class="key">Priorität bei Fehler</div><div class="value">"#@
        + dec_int(c.notifications.gotify.priority_error as int)
        + r#"</div></div>
      <div class="row"><div class="key">Erfolg melden</div><div class="value">"#@
        + flag_badge(c.notifications.gotify.notify_on_success, "ok"@, "aktiv"@, "muted"@, "aus"@)
        + r#"</div></div>
      <div class="row"><div class="key">Fehler melden</div><div class="value">"#@
        + flag_badge(c.notifications.gotify.notify_on_error, "ok"@, "aktiv"@, "muted"@, "aus"@)
        + r#"</div></div>
      <div class="row"><div class="key">Jeden Fehler melden</div><div class="value">"#@
        + flag_badge(c.notifications.gotify.notify_on_every_error, "warn"@, "aktiv"@, "muted"@, "aus"@)
        + r#"</div></div>
      <div class="row"><div class="key">Fehler melden nach Versuchen</div><div class="value">"#@
        + dec(c.notifications.gotify.notify_after_attempts as nat)
        + r#"</div></div>
    </section>

    <section class="card">
      <h2>WebUI</h2>
      <div class="row"><div class="key">WebUI aktiv</div><div class="value">"#@
        + flag_badge(c.web.enabled, "ok"@, "aktiv"@, "muted"@, "aus"@)
        + r#"</div></div>
      <div class="row"><div class="key">Adresse / Port</div><div class="value"><code>"#@
        + escaped(c.web.bind@)
        + SETTINGS_PAGE_3@
}

pub fn settings_page_html(c: &Config) -> (r: String)
    ensures
        r@ == settings_page_html_text(*c),
{
    let mut out = chars_of(SETTINGS_PAGE_1);
    extend_str(&mut out, VERSION);
    extend_str(&mut out, SETTINGS_PAGE_2);
    push_watch_rows(&mut out, &c.watch);
    extend_str(&mut out, r#"
          </div>
        </div>
      </div>
      <div class="row"><div class="key">Wartezeit bis Verarbeitung</div><div class="value">"#);
    push_dec(&mut out, c.watch.stable_after);
    extend_str(&mut out, r#"s</div></div>
      <div class="row"><div class="key">Root-Archive erlauben</div><div class="value">"#);
    push_badge(&mut out, c.watch.allow_root_archives, "ok", "aktiv", "muted", "aus");
    extend_str(&mut out, r#"</div></div>
    </section>

    <section class="card">
      <h2>Entpacken</h2>
      <div class="row"><div class="key">Testmodus</div><div class="value">"#);
    push_badge(&mut out, c.extract.dry_run, "ok", "aktiv", "warn", "aus");
    extend_str(&mut out, r#"</div></div>
      <div class="row"><div class="key">Archive nach Erfolg löschen</div><div class="value">"#);
    push_badge(&mut out, c.extract.delete_archives, "warn", "aktiv", "muted", "aus");
    extend_str(&mut out, r#"</div></div>
      <div class="row"><div class="key">Fehlerhafte Archive behalten</div><div class="value">"#);
    push_badge(&mut out, c.extract.keep_failed, "ok", "aktiv", "muted", "aus");
    extend_str(&mut out, r#"</div></div>
      <div class="row"><div class="key">Passwortliste konfiguriert</div><div class="value">"#);
    push_badge(&mut out, !is_blank(&c.extract.password_file), "ok", "ja", "muted", "nein");
    extend_str(&mut out, r#" <span class="key">Inhalt bleibt verborgen</span></div></div>
      <div class="row"><div class="key">Pfad zur Passwortliste</div><div class="value"><code>"#);
    push_escaped(&mut out, &c.extract.password_file);
    extend_str(&mut out, r#"</code></div></div>
    </section>

    <section class="card">
      <h2>Ausgabe / Verlauf</h2>
      <div class="row"><div class="key">Ausgabeordner</div><div class="value"><code>"#);
    push_escaped(&mut out, &c.output.directory);
    extend_str(&mut out, r#"</code></div></div>
      <div class="row"><div class="key">Verlaufsordner</div><div class="value"><code>"#);
    push_escaped(&mut out, &c.history.directory);
    extend_str(&mut out, r#"</code></div></div>
    </section>

    <section class="card">
      <h2>Wiederholung / Start</h2>
      <div class="row"><div class="key">Erste Wiederholung nach</div><div class="value">"#);
    push_dec(&mut out, c.retry.base_delay);
    extend_str(&mut out, r#"s</div></div>
      <div class="row"><div class="key">Maximale Wiederholungs-Wartezeit</div><div class="value">"#);
    push_dec(&mut out, c.retry.max_delay);
    extend_str(&mut out, r#"s</div></div>
      <div class="row"><div class="key">Vorhandene Releases beim Start scannen</div><div class="value">"#);
    push_badge(&mut out, c.startup.scan_existing, "warn", "aktiv", "muted", "aus");
    extend_str(&mut out, r#"</div></div>
    </section>

    <section class="card">
      <h2>Gotify</h2>
      <div class="row"><div class="key">Gotify aktiv</div><div class="value">"#);
    push_badge(&mut out, c.notifications.gotify.enabled, "ok", "aktiv", "muted", "aus");
    extend_str(&mut out, r#"</div></div>
      <div class="row"><div class="key">Gotify-URL konfiguriert</div><div class="value">"#);
    push_badge(&mut out, !is_blank(&c.notifications.gotify.url), "ok", "ja", "bad", "nein");
    extend_str(&mut out, r#"</div></div>
      <div class="row"><div class="key">Token konfiguriert</div><div class="value">"#);
    push_badge(&mut out, !is_blank(&c.notifications.gotify.token), "ok", "ja", "bad", "nein");
    extend_str(&mut out, r#"</div></div>
      <div class="row"><div class="key">Priorität bei Erfolg</div><div class="value">"#);
    push_dec_i64(&mut out, c.notifications.gotify.priority_success as i64);
    extend_str(&mut out, r#"</div></div>
      <div class="row"><div class="key">Priorität bei Fehler</div><div class="value">"#);
    push_dec_i64(&mut out, c.notifications.gotify.priority_error as i64);
    extend_str(&mut out, r#"</div></div>
      <div class="row"><div class="key">Erfolg melden</div><div class="value">"#);
    push_badge(&mut out, c.notifications.gotify.notify_on_success, "ok", "aktiv", "muted", "aus");
    extend_str(&mut out, r#"</div></div>
      <div class="row"><div class="key">Fehler melden</div><div class="value">"#);
    push_badge(&mut out, c.notifications.gotify.notify_on_error, "ok", "aktiv", "muted", "aus");
    extend_str(&mut out, r#"</div></div>
      <div class="row"><div class="key">Jeden Fehler melden</div><div class="value">"#);
    push_badge(&mut out, c.notifications.gotify.notify_on_every_error, "warn", "aktiv", "muted", "aus");
    extend_str(&mut out, r#"</div></div>
      <div class="row"><div class="key">Fehler melden nach Versuchen</div><div class="value">"#);
    push_dec(&mut out, c.notifications.gotify.notify_after_attempts);
    extend_str(&mut out, r#"</div></div>
    </section>

    <section class="card">
      <h2>WebUI</h2>
      <div class="row"><div class="key">WebUI aktiv</div><div class="value">"#);
    push_badge(&mut out, c.web.enabled, "ok", "aktiv", "muted", "aus");
    extend_str(&mut out, r#"</div></div>
      <div class="row"><div class="key">Adresse / Port</div><div class="value"><code>"#);
    push_escaped(&mut out, &c.web.bind);
    extend_str(&mut out, SETTINGS_PAGE_3);
    string_of(&out)
}

pub const EDIT_PAGE_1: &'static str = r#"<!doctype html>
<html lang="de">
<head>
<meta charset="utf-8">
<meta name="viewport" content="width=device-width, initial-scale=1">
<title>XDCC Extractor Einstellungen bearbeiten</title>
<link rel="stylesheet" href="/assets/common.css">
<link rel="stylesheet" href="/assets/settings-edit.css">
</head>
<body>
<main>
  <h1>Einstellungen bearbeiten</h1>
  <div class="sub">Konfigurationsdatei: <code>"#;
pub const EDIT_PAGE_2: &'static str = r#"> Fehlerhafte Archive behalten</label>
      <div class="small">Passwortdatei und Passwortlisten-Inhalt werden hier nicht bearbeitet.</div>
    </section>

    <section class="card">
      <h2>Wiederholung / Start</h2>
      <div class="grid">
        <div>
          <label for="retry_base_delay">Erste Wiederholung nach Sekunden</label>
          <input id="retry_base_delay" name="retry_base_delay" type="number" min="1" value=""#;
pub const EDIT_PAGE_3: &'static str = r#"> Benachrichtigungen aktiv</label>
      <div class="grid">
        <div class="field full">
          <label for="ntfy_server">ntfy-Server neu setzen</label>
          <input id="ntfy_server" name="ntfy_server" type="text" value="" placeholder="Leer lassen = bestehenden Server behalten" autocomplete="off">
        </div>
        <div class="field full">
          <label for="ntfy_topic">ntfy-Topic neu setzen</label>
          <input id="ntfy_topic" name="ntfy_topic" type="text" value="" placeholder="Leer lassen = bestehendes Topic behalten" autocomplete="off">
        </div>
        <div class="field full">
          <label for="ntfy_token">ntfy-Token neu setzen</label>
          <input id="ntfy_token" name="ntfy_token" type="password" value="" placeholder="Leer lassen = bestehenden Token behalten" autocomplete="new-password">
        </div>
      </div>
      <div class="small">Server, Topic und Token werden aus Sicherheitsgründen nicht angezeigt. Leere Felder behalten die bisherigen Werte.</div>

      <div class="grid gotify-priority-grid">
        <div>
          <label for="ntfy_priority_success">Priorität bei Erfolg</label>
          <input id="ntfy_priority_success" name="ntfy_priority_success" type="number" min="1" max="5" value=""#;
pub const EDIT_PAGE_4: &'static str = r#"> Jeden Fehler melden</label>
    </section>

    <div class="actions">
      <button class="button" type="submit">Änderungen speichern</button>
      <button id="restart-worker" class="button" type="button">Worker neu starten</button>
      <a class="button" href="/settings">Abbrechen</a>
    </div>
    <div id="restart-status" class="restart-status" role="status" aria-live="polite"></div>
  </form>


  <section class="card">
    <h2>Verlauf zurücksetzen</h2>
    <div class="small">Entfernt alle Verlaufsmarkierungen für erfolgreiche und fehlgeschlagene Releases. Vorher wird eine Sicherung unter <code>/state/history-backups</code> erstellt.</div>
    <form method="post" action="/settings/history/reset">
      <label class="check"><input type="checkbox" name="confirm" value="RESET"> Ich bestätige, dass der Verlauf zurückgesetzt wird</label>
      <button class="button danger" type="submit">Verlauf zurücksetzen</button>
    </form>
  </section>

  <section class="card">
    <h2>Passwortliste verwalten</h2>
    <div class="small">Passwörter werden nicht angezeigt. Vor Änderungen wird eine Sicherung unter <code>/state/password-backups</code> erstellt.</div>

    <form method="post" action="/settings/passwords/add">
      <label for="password_add">Passwort hinzufügen</label>
      <input id="password_add" name="password" type="password" value="" autocomplete="new-password">
      <div class="actions">
        <button class="button" type="submit">Passwort hinzufügen</button>
      </div>
    </form>

    <form method="post" action="/settings/passwords/replace">
      <label for="passwords_replace">Gesamte Passwortliste ersetzen</label>
      <textarea id="passwords_replace" name="passwords" placeholder="Ein Passwort pro Zeile"></textarea>
      <label class="check"><input type="checkbox" name="confirm" value="REPLACE"> Ich bestätige, dass die bisherige Passwortliste ersetzt wird</label>
      <div class="actions">
        <button class="button danger" type="submit">Passwortliste ersetzen</button>
      </div>
    </form>
  </section>

</main>

<script>
document.addEventListener('DOMContentLoaded', () => {
  document.querySelectorAll('form').forEach((form) => {
    form.addEventListener('submit', () => {
      const submit = form.querySelector('button[type="submit"]');
      if (!submit) {
        return;
      }
      const text = submit.textContent || '';
      submit.disabled = true;
      submit.classList.add('is-loading');
      submit.textContent = text.toLowerCase().includes('speichern')
        ? 'Wird gespeichert …'
        : 'Wird ausgeführt …';
    });
  });

  const button = document.getElementById('restart-worker');
  const status = document.getElementById('restart-status');
  if (!button) {
    return;
  }

  button.addEventListener('click', async () => {
    const ok = confirm('Worker jetzt neu starten? Die WebUI ist für kurze Zeit nicht erreichbar.');
    if (!ok) {
      return;
    }
    button.disabled = true;
    button.classList.add('is-loading');
    button.textContent = 'Neustart läuft …';
    status.className = 'restart-status restart-pending';
    status.textContent = 'Neustart wird ausgelöst. Die WebUI wird automatisch neu geladen …';
    try {
      await fetch('/api/restart', { method: 'POST', cache: 'no-store' });
    } catch (error) {
      // The connection may drop while the worker restarts.
    }
    setTimeout(() => {
      status.textContent = 'Worker startet neu. Warte auf die WebUI …';
    }, 2500);
    setTimeout(() => {
      window.location.href = '/settings/edit';
    }, 12000);
  });
});
</script>

</body>
</html>"#;

/// The settings form, with the notice of the last action when there is one.
pub open spec fn settings_edit_page_html_text(c: Config, config_path: Seq<char>, message: Option<Seq<char>>) -> Seq<char> {
    EDIT_PAGE_1@
        + escaped(config_path)
        + "</code></div>\n\n  "@
        + NAV@
        + "\n  </div>\n\n  "@
        + notice_html(message)
        + r#"

  <form method="post" action="/settings/edit">
    <section class="card">
      <h2>Überwachung</h2>
      <label for="watch_directories">Überwachte Ordner (ein absoluter Pfad pro Zeile)</label>
      <textarea id="watch_directories" name="watch_directories">"#@
        + escaped(join_lines(watched(c.watch)))
        + r#"</textarea>
      <div class="grid">
        <div>
          <label for="stable_after">Wartezeit bis Verarbeitung in Sekunden</label>
          <input id="stable_after" name="stable_after" type="number" min="1" value=""#@
        + dec(c.watch.stable_after as nat)
        + r#"">
        </div>
      </div>
      <label class="check"><input type="checkbox" name="allow_root_archives" "#@
        + checked_text(c.watch.allow_root_archives)
        + r#"> Root-Archive erlauben</label>
    </section>

    <section class="card">
      <h2>Entpacken</h2>
      <label class="check"><input type="checkbox" name="dry_run" "#@
        + checked_text(c.extract.dry_run)
        + r#"> Testmodus aktiv</label>
      <label class="check"><input type="checkbox" name="delete_archives" "#@
        + checked_text(c.extract.delete_archives)
        + r#"> Archive nach Erfolg löschen</label>
      <label class="check"><input type="checkbox" name="keep_failed" "#@
        + checked_text(c.extract.keep_failed)
        + EDIT_PAGE_2@
        + dec(c.retry.base_delay as nat)
        + r#"">
        </div>
        <div>
          <label for="retry_max_delay">Maximale Wiederholungs-Wartezeit in Sekunden</label>
          <input id="retry_max_delay" name="retry_max_delay" type="number" min="1" value=""#@
        + dec(c.retry.max_delay as nat)
        + r#"">
        </div>
      </div>
      <label class="check"><input type="checkbox" name="startup_scan_existing" "#@
        + checked_text(c.startup.scan_existing)
        + r#"> Vorhandene Releases beim Start prüfen</label>
    </section>

    <section class="card">
      <h2>Benachrichtigungen (ntfy)</h2>
      <label class="check"><input type="checkbox" name="notifications_enabled" "#@
        + checked_text(c.notifications.enabled)
        + EDIT_PAGE_3@
        + dec(c.notifications.ntfy.priority_success as nat)
        + r#"">
        </div>
        <div>
          <label for="ntfy_priority_error">Priorität bei Fehler</label>
          <input id="ntfy_priority_error" name="ntfy_priority_error" type="number" min="1" max="5" value=""#@
        + dec(c.notifications.ntfy.priority_error as nat)
        + r#"">
        </div>
        <div>
          <label for="ntfy_notify_after_attempts">Fehler melden nach Versuchen</label>
          <input id="ntfy_notify_after_attempts" name="ntfy_notify_after_attempts" type="number" min="1" value=""#@
        + dec(c.notifications.ntfy.notify_after_attempts as nat)
        + r#"">
        </div>
      </div>
      <label class="check"><input type="checkbox" name="ntfy_notify_on_worker_start" "#@
        + checked_text(c.notifications.ntfy.notify_on_worker_start)
        + r#"> Worker-Start melden</label>
      <label class="check"><input type="checkbox" name="ntfy_notify_on_processing_start" "#@
        + checked_text(c.notifications.ntfy.notify_on_processing_start)
        + r#"> Verarbeitungsstart melden</label>
      <label class="check"><input type="checkbox" name="ntfy_notify_on_success" "#@
        + checked_text(c.notifications.ntfy.notify_on_success)
        + r#"> Erfolg melden</label>
      <label class="check"><input type="checkbox" name="ntfy_notify_on_error" "#@
        + checked_text(c.notifications.ntfy.notify_on_error)
        + r#"> Fehler melden</label>
      <label class="check"><input type="checkbox" name="ntfy_notify_on_every_error" "#@
        + checked_text(c.notifications.ntfy.notify_on_every_error)
        + EDIT_PAGE_4@
}

pub fn settings_edit_page_html(c: &Config, config_path: &str, message: Option<&str>) -> (r: String)
    ensures
        r@ == settings_edit_page_html_text(*c, config_path@, opt_view(message)),
{
    let mut out = chars_of(EDIT_PAGE_1);
    push_escaped(&mut out, config_path);
    extend_str(&mut out, "</code></div>\n\n  ");
    extend_str(&mut out, NAV);
    extend_str(&mut out, "\n  </div>\n\n  ");
    push_notice(&mut out, message);
    extend_str(&mut out, r#"

  <form method="post" action="/settings/edit">
    <section class="card">
      <h2>Überwachung</h2>
      <label for="watch_directories">Überwachte Ordner (ein absoluter Pfad pro Zeile)</label>
      <textarea id="watch_directories" name="watch_directories">"#);
    push_watch_lines(&mut out, &c.watch);
    extend_str(&mut out, r#"</textarea>
      <div class="grid">
        <div>
          <label for="stable_after">Wartezeit bis Verarbeitung in Sekunden</label>
          <input id="stable_after" name="stable_after" type="number" min="1" value=""#);
    push_dec(&mut out, c.watch.stable_after);
    extend_str(&mut out, r#"">
        </div>
      </div>
      <label class="check"><input type="checkbox" name="allow_root_archives" "#);
    extend_str(&mut out, checked(c.watch.allow_root_archives));
    extend_str(&mut out, r#"> Root-Archive erlauben</label>
    </section>

    <section class="card">
      <h2>Entpacken</h2>
      <label class="check"><input type="checkbox" name="dry_run" "#);
    extend_str(&mut out, checked(c.extract.dry_run));
    extend_str(&mut out, r#"> Testmodus aktiv</label>
      <label class="check"><input type="checkbox" name="delete_archives" "#);
    extend_str(&mut out, checked(c.extract.delete_archives));
    extend_str(&mut out, r#"> Archive nach Erfolg löschen</label>
      <label class="check"><input type="checkbox" name="keep_failed" "#);
    extend_str(&mut out, checked(c.extract.keep_failed));
    extend_str(&mut out, EDIT_PAGE_2);
    push_dec(&mut out, c.retry.base_delay);
    extend_str(&mut out, r#"">
        </div>
        <div>
          <label for="retry_max_delay">Maximale Wiederholungs-Wartezeit in Sekunden</label>
          <input id="retry_max_delay" name="retry_max_delay" type="number" min="1" value=""#);
    push_dec(&mut out, c.retry.max_delay);
    extend_str(&mut out, r#"">
        </div>
      </div>
      <label class="check"><input type="checkbox" name="startup_scan_existing" "#);
    extend_str(&mut out, checked(c.startup.scan_existing));
    extend_str(&mut out, r#"> Vorhandene Releases beim Start prüfen</label>
    </section>

    <section class="card">
      <h2>Benachrichtigungen (ntfy)</h2>
      <label class="check"><input type="checkbox" name="notifications_enabled" "#);
    extend_str(&mut out, checked(c.notifications.enabled));
    extend_str(&mut out, EDIT_PAGE_3);
    push_dec(&mut out, c.notifications.ntfy.priority_success as u64);
    extend_str(&mut out, r#"">
        </div>
        <div>
          <label for="ntfy_priority_error">Priorität bei Fehler</label>
          <input id="ntfy_priority_error" name="ntfy_priority_error" type="number" min="1" max="5" value=""#);
    push_dec(&mut out, c.notifications.ntfy.priority_error as u64);
    extend_str(&mut out, r#"">
        </div>
        <div>
          <label for="ntfy_notify_after_attempts">Fehler melden nach Versuchen</label>
          <input id="ntfy_notify_after_attempts" name="ntfy_notify_after_attempts" type="number" min="1" value=""#);
    push_dec(&mut out, c.notifications.ntfy.notify_after_attempts);
    extend_str(&mut out, r#"">
        </div>
      </div>
      <label class="check"><input type="checkbox" name="ntfy_notify_on_worker_start" "#);
    extend_str(&mut out, checked(c.notifications.ntfy.notify_on_worker_start));
    extend_str(&mut out, r#"> Worker-Start melden</label>
      <label class="check"><input type="checkbox" name="ntfy_notify_on_processing_start" "#);
    extend_str(&mut out, checked(c.notifications.ntfy.notify_on_processing_start));
    extend_str(&mut out, r#"> Verarbeitungsstart melden</label>
      <label class="check"><input type="checkbox" name="ntfy_notify_on_success" "#);
    extend_str(&mut out, checked(c.notifications.ntfy.notify_on_success));
    extend_str(&mut out, r#"> Erfolg melden</label>
      <label class="check"><input type="checkbox" name="ntfy_notify_on_error" "#);
    extend_str(&mut out, checked(c.notifications.ntfy.notify_on_error));
    extend_str(&mut out, r#"> Fehler melden</label>
      <label class="check"><input type="checkbox" name="ntfy_notify_on_every_error" "#);
    extend_str(&mut out, checked(c.notifications.ntfy.notify_on_every_error));
    extend_str(&mut out, EDIT_PAGE_4);
    string_of(&out)
}

pub const DASHBOARD_PAGE_1: &'static str = r#"<!doctype html>
<html lang="de">
<head>
<meta charset="utf-8">
<meta name="viewport" content="width=device-width, initial-scale=1">
<title>XDCC Extractor</title>
<link rel="stylesheet" href="/assets/common.css">
<link rel="stylesheet" href="/assets/dashboard.css">
</head>
<body>
<main>
  <h1>XDCC Extractor</h1>
  <div class="sub">Version "#;
pub const DASHBOARD_PAGE_2: &'static str = r#"</div>

  <div class="actions nav" style="margin-top: 22px; margin-bottom: 30px;">
    <a class="button" href="/">Dashboard</a>
    <a class="button" href="/settings">Einstellungen</a>
    <a class="button" href="/settings/edit">Bearbeiten</a>
    <a class="button" href="/logs">Logs</a>
    <a class="button" href="/diagnostics">Diagnose</a>
  </div>

  <div
    id="toast-region"
    class="toast-region"
    aria-live="polite"
    aria-atomic="true"
  ></div>

  <div
    id="auto-refresh-status"
    class="auto-refresh-status"
    role="status"
    aria-live="polite"
  >
    Automatische Aktualisierung: alle 30 Sekunden.
  </div>

  <div class="grid">
    <section class="card">
      <h2>Worker</h2>
      <div class="value">läuft</div>
      <div class="small">WebUI erreichbar</div>
    </section>

    <section class="card">
      <h2>Testmodus</h2>
      <div class="value">"#;
pub const DASHBOARD_PAGE_3: &'static str = r#"</div>
      <div class="small">Direkte Downloads ohne Unterordner</div>
    </section>

    <section class="card">
      <h2>System</h2>
      <div class="value">bereit</div>
      <div class="small">WebUI geschützt</div>
      <div class="small">Healthcheck aktiv</div>
      <div class="small">Version "#;

/// The dashboard; `done` and `failed` are the history counts, `scan` the candidates with their states or the text of the error that stopped the scan, `failures` the latest failures or the error that stopped reading them.
pub open spec fn dashboard_page_html_text(c: Config, done: usize, failed: usize, scan: Result<Seq<ScanCandidate>, Seq<char>>, failures: Result<Seq<FailureEntry>, Seq<char>>) -> Seq<char> {
    DASHBOARD_PAGE_1@
        + VERSION@
        + DASHBOARD_PAGE_2@
        + flag_badge(c.extract.dry_run, "ok"@, "aktiv"@, "warn"@, "aus"@)
        + r#"</div>
      <div class="small">Archive nach Erfolg löschen: "#@
        + bool_text(c.extract.delete_archives)
        + r#"</div>
    </section>

    <section class="card">
      <h2>Gotify</h2>
      <div class="value">"#@
        + flag_badge(c.notifications.gotify.enabled, "ok"@, "aktiv"@, "muted"@, "aus"@)
        + r#"</div>
      <div class="small">Token wird nicht angezeigt</div>
    </section>

    <section class="card">
      <h2>Verlauf</h2>
      <div class="value">"#@
        + dec(done as nat)
        + " erledigt / "@
        + dec(failed as nat)
        + r#" fehlgeschlagen</div>
      <div class="small"><code>"#@
        + escaped(c.history.directory@)
        + r#"</code></div>
    </section>

    <section class="card">
      <h2>Überwachter Ordner</h2>
      <div class="small">
        <div class="watch-directory-list">
          "#@
        + watch_items(watched(c.watch))
        + r#"
        </div>
      </div>
    </section>

    <section class="card">
      <h2>Ausgabeordner</h2>
      <div class="small"><code>"#@
        + escaped(c.output.directory@)
        + r#"</code></div>
    </section>

    <section class="card">
      <h2>Archive im Hauptordner</h2>
      <div class="value">"#@
        + bool_text(c.watch.allow_root_archives)
        + DASHBOARD_PAGE_3@
        + VERSION@
        + r#"</div>
    </section>

    <section class="card wide">
      <div class="card-head">
        <h2>Releases</h2>
        <button id="refresh-scan" class="button" type="button">Releases neu prüfen</button>
      </div>
      <div id="scan-content">
        "#@
        + scan_section_text(scan)
        + r#"
      </div>
    </section>

    <section class="card wide">
      <div class="card-head">
        <h2>Letzte Fehler</h2>
        <button id="refresh-failures" class="button" type="button">Fehlerliste aktualisieren</button>
      </div>
      <div id="failure-content">
        "#@
        + failures_section_text(failures)
        + r#"
      </div>
    </section>
  </div>

  <footer>
    Manuelle Verarbeitung berücksichtigt Testmodus, Archivbereinigung, Verlauf und Gotify.
  </footer>
</main>
<script src="/assets/app.js"></script>
</body>
</html>"#@
}

pub fn dashboard_page_html(c: &Config, done: usize, failed: usize, scan: &Result<Vec<ScanCandidate>, String>, failures: &Result<Vec<FailureEntry>, String>) -> (r: String)
    ensures
        r@ == dashboard_page_html_text(*c, done, failed, scan_view(*scan), failures_view(*failures)),
{
    let mut out = chars_of(DASHBOARD_PAGE_1);
    extend_str(&mut out, VERSION);
    extend_str(&mut out, DASHBOARD_PAGE_2);
    push_badge(&mut out, c.extract.dry_run, "ok", "aktiv", "warn", "aus");
    extend_str(&mut out, r#"</div>
      <div class="small">Archive nach Erfolg löschen: "#);
    extend_str(&mut out, bool_str(c.extract.delete_archives));
    extend_str(&mut out, r#"</div>
    </section>

    <section class="card">
      <h2>Gotify</h2>
      <div class="value">"#);
    push_badge(&mut out, c.notifications.gotify.enabled, "ok", "aktiv", "muted", "aus");
    extend_str(&mut out, r#"</div>
      <div class="small">Token wird nicht angezeigt</div>
    </section>

    <section class="card">
      <h2>Verlauf</h2>
      <div class="value">"#);
    push_dec(&mut out, done as u64);
    extend_str(&mut out, " erledigt / ");
    push_dec(&mut out, failed as u64);
    extend_str(&mut out, r#" fehlgeschlagen</div>
      <div class="small"><code>"#);
    push_escaped(&mut out, &c.history.directory);
    extend_str(&mut out, r#"</code></div>
    </section>

    <section class="card">
      <h2>Überwachter Ordner</h2>
      <div class="small">
        <div class="watch-directory-list">
          "#);
    push_watch_rows(&mut out, &c.watch);
    extend_str(&mut out, r#"
        </div>
      </div>
    </section>

    <section class="card">
      <h2>Ausgabeordner</h2>
      <div class="small"><code>"#);
    push_escaped(&mut out, &c.output.directory);
    extend_str(&mut out, r#"</code></div>
    </section>

    <section class="card">
      <h2>Archive im Hauptordner</h2>
      <div class="value">"#);
    extend_str(&mut out, bool_str(c.watch.allow_root_archives));
    extend_str(&mut out, DASHBOARD_PAGE_3);
    extend_str(&mut out, VERSION);
    extend_str(&mut out, r#"</div>
    </section>

    <section class="card wide">
      <div class="card-head">
        <h2>Releases</h2>
        <button id="refresh-scan" class="button" type="button">Releases neu prüfen</button>
      </div>
      <div id="scan-content">
        "#);
    push_scan_section(&mut out, scan);
    extend_str(&mut out, r#"
      </div>
    </section>

    <section class="card wide">
      <div class="card-head">
        <h2>Letzte Fehler</h2>
        <button id="refresh-failures" class="button" type="button">Fehlerliste aktualisieren</button>
      </div>
      <div id="failure-content">
        "#);
    push_failures_section(&mut out, failures);
    extend_str(&mut out, r#"
      </div>
    </section>
  </div>

  <footer>
    Manuelle Verarbeitung berücksichtigt Testmodus, Archivbereinigung, Verlauf und Gotify.
  </footer>
</main>
<script src="/assets/app.js"></script>
</body>
</html>"#);
    string_of(&out)
}

/// The card of one backup directory.
pub open spec fn backup_card_html_text(title: Seq<char>, s: BackupSummary) -> Seq<char> {
    "<section class=\"card\">\n      <h2>"@
        + escaped(title)
        + r#"</h2>

      <div class="row">
        <div class="key">Status</div>
        <div class="value">"#@
        + backup_status(s)
        + r#"</div>
      </div>

      <div class="row">
        <div class="key">Anzahl</div>
        <div class="value">"#@
        + backup_count(s.count)
        + r#"</div>
      </div>

      <div class="row">
        <div class="key">Letzte Sicherung</div>
        <div class="value">"#@
        + backup_latest(s)
        + r#"</div>
      </div>

      <div class="row">
        <div class="key">Speicherort</div>
        <div class="value"><code>"#@
        + escaped(s.directory@)
        + r#"</code></div>
      </div>
    </section>"#@
}

pub fn backup_card_html(title: &str, s: &BackupSummary) -> (r: String)
    ensures
        r@ == backup_card_html_text(title@, *s),
{
    let mut out = chars_of("<section class=\"card\">\n      <h2>");
    push_escaped(&mut out, title);
    extend_str(&mut out, r#"</h2>

      <div class="row">
        <div class="key">Status</div>
        <div class="value">"#);
    push_backup_status(&mut out, s);
    extend_str(&mut out, r#"</div>
      </div>

      <div class="row">
        <div class="key">Anzahl</div>
        <div class="value">"#);
    push_backup_count(&mut out, s.count);
    extend_str(&mut out, r#"</div>
      </div>

      <div class="row">
        <div class="key">Letzte Sicherung</div>
        <div class="value">"#);
    push_backup_latest(&mut out, s);
    extend_str(&mut out, r#"</div>
      </div>

      <div class="row">
        <div class="key">Speicherort</div>
        <div class="value"><code>"#);
    push_escaped(&mut out, &s.directory);
    extend_str(&mut out, r#"</code></div>
      </div>
    </section>"#);
    string_of(&out)
}

pub const DISK_CARD_1: &'static str = r#"</h2>

      <div class="row">
        <div class="key">Erreichbarkeit</div>
        <div class="value">
          <span class="badge ok">
            erreichbar
          </span>
        </div>
      </div>

      <div class="row">
        <div class="key">Speicherstatus</div>
        <div class="value">
          <span class="badge "#;

/// The card of one file system.
pub open spec fn disk_card_html_text(title: Seq<char>, path: Seq<char>, d: DiskFigures) -> Seq<char> {
    "<section class=\"card\">\n      <h2>"@
        + escaped(title)
        + DISK_CARD_1@
        + level_class(d.level)
        + "\">\n            "@
        + level_label(d.level)
        + r#"
          </span>
        </div>
      </div>

      <div class="row">
        <div class="key">Gesamt</div>
        <div class="value">"#@
        + bytes_text(d.total_bytes)
        + r#"</div>
      </div>

      <div class="row">
        <div class="key">Belegt</div>
        <div class="value">"#@
        + bytes_text(d.used_bytes)
        + r#"</div>
      </div>

      <div class="row">
        <div class="key">Frei</div>
        <div class="value">"#@
        + bytes_text(d.available_bytes)
        + r#"</div>
      </div>

      <div class="row">
        <div class="key">Auslastung</div>
        <div class="value">
          "#@
        + escaped(d.used_percent@)
        + r#" %
        </div>
      </div>

      <div
        class="disk-meter"
        role="progressbar"
        aria-label="Speicherauslastung"
        aria-valuemin="0"
        aria-valuemax="100"
        aria-valuenow=""#@
        + escaped(d.meter_percent@)
        + r#""
      >
        <div
          class="disk-meter-fill "#@
        + level_class(d.level)
        + "\"\n          style=\"width: "@
        + escaped(d.meter_percent@)
        + r#"%;"
        ></div>
      </div>

      <div class="small disk-path">
        <code>"#@
        + escaped(path)
        + "</code>\n      </div>\n    </section>"@
}

pub fn disk_card_html(title: &str, path: &str, d: &DiskFigures) -> (r: String)
    ensures
        r@ == disk_card_html_text(title@, path@, *d),
{
    let mut out = chars_of("<section class=\"card\">\n      <h2>");
    push_escaped(&mut out, title);
    extend_str(&mut out, DISK_CARD_1);
    extend_str(&mut out, d.level.css_class());
    extend_str(&mut out, "\">\n            ");
    extend_str(&mut out, d.level.label());
    extend_str(&mut out, r#"
          </span>
        </div>
      </div>

      <div class="row">
        <div class="key">Gesamt</div>
        <div class="value">"#);
    extend_str(&mut out, format_bytes(d.total_bytes).as_str());
    extend_str(&mut out, r#"</div>
      </div>

      <div class="row">
        <div class="key">Belegt</div>
        <div class="value">"#);
    extend_str(&mut out, format_bytes(d.used_bytes).as_str());
    extend_str(&mut out, r#"</div>
      </div>

      <div class="row">
        <div class="key">Frei</div>
        <div class="value">"#);
    extend_str(&mut out, format_bytes(d.available_bytes).as_str());
    extend_str(&mut out, r#"</div>
      </div>

      <div class="row">
        <div class="key">Auslastung</div>
        <div class="value">
          "#);
    push_escaped(&mut out, &d.used_percent);
    extend_str(&mut out, r#" %
        </div>
      </div>

      <div
        class="disk-meter"
        role="progressbar"
        aria-label="Speicherauslastung"
        aria-valuemin="0"
        aria-valuemax="100"
        aria-valuenow=""#);
    push_escaped(&mut out, &d.meter_percent);
    extend_str(&mut out, r#""
      >
        <div
          class="disk-meter-fill "#);
    extend_str(&mut out, d.level.css_class());
    extend_str(&mut out, "\"\n          style=\"width: ");
    push_escaped(&mut out, &d.meter_percent);
    extend_str(&mut out, r#"%;"
        ></div>
      </div>

      <div class="small disk-path">
        <code>"#);
    push_escaped(&mut out, path);
    extend_str(&mut out, "</code>\n      </div>\n    </section>");
    string_of(&out)
}

/// The card of a file system that could not be read.
pub open spec fn disk_error_card_html_text(title: Seq<char>, path: Seq<char>, error: Seq<char>) -> Seq<char> {
    "<section class=\"card\">\n      <h2>"@
        + escaped(title)
        + r#"</h2>

      <div class="row">
        <div class="key">Status</div>
        <div class="value">
          <span class="badge bad">
            nicht verfügbar
          </span>
        </div>
      </div>

      <div class="small">
        "#@
        + escaped(error)
        + r#"
      </div>

      <div class="small disk-path">
        <code>"#@
        + escaped(path)
        + "</code>\n      </div>\n    </section>"@
}

pub fn disk_error_card_html(title: &str, path: &str, error: &str) -> (r: String)
    ensures
        r@ == disk_error_card_html_text(title@, path@, error@),
{
    let mut out = chars_of("<section class=\"card\">\n      <h2>");
    push_escaped(&mut out, title);
    extend_str(&mut out, r#"</h2>

      <div class="row">
        <div class="key">Status</div>
        <div class="value">
          <span class="badge bad">
            nicht verfügbar
          </span>
        </div>
      </div>

      <div class="small">
        "#);
    push_escaped(&mut out, error);
    extend_str(&mut out, r#"
      </div>

      <div class="small disk-path">
        <code>"#);
    push_escaped(&mut out, path);
    extend_str(&mut out, "</code>\n      </div>\n    </section>");
    string_of(&out)
}

pub const DIAGNOSTICS_PAGE_1: &'static str = r#"<!doctype html>
<html lang="de">
<head>
<meta charset="utf-8">
<meta name="viewport" content="width=device-width, initial-scale=1">
<title>XDCC Extractor Diagnose</title>
<link rel="stylesheet" href="/assets/common.css">
<link rel="stylesheet" href="/assets/settings.css">
</head>
<body>
<main>
  <h1>Diagnose</h1>
  <div class="sub">
    Read-only Statusübersicht · Version "#;
pub const DIAGNOSTICS_PAGE_2: &'static str = r#"
  </div>

  <div class="actions nav" style="margin-top: 22px; margin-bottom: 30px;">
    <a class="button" href="/">Dashboard</a>
    <a class="button" href="/settings">Einstellungen</a>
    <a class="button" href="/settings/edit">Bearbeiten</a>
    <a class="button" href="/logs">Logs</a>
    <a class="button" href="/diagnostics">Diagnose</a>
  </div>

  <div class="grid">
    <section class="card">
      <h2>System</h2>

      <div class="row">
        <div class="key">Version</div>
        <div class="value">"#;
pub const DIAGNOSTICS_PAGE_3: &'static str = r#"</code></div>
      </div>

      <div class="row">
        <div class="key">Inhalt</div>
        <div class="value">
          <span class="badge muted">bleibt verborgen</span>
        </div>
      </div>
    </section>

    <section class="card">
      <h2>Gotify</h2>

      <div class="row">
        <div class="key">Status</div>
        <div class="value">"#;
pub const DIAGNOSTICS_PAGE_4: &'static str = r#"</div>
      </div>

      <div class="row">
        <div class="key">Token</div>
        <div class="value">
          <span class="badge muted">nicht sichtbar</span>
        </div>
      </div>
    </section>

    <section class="card wide">
      <h2>Speicherorte und Speicherplatz</h2>
      <div class="small">
        Die Werte beziehen sich auf das jeweilige Dateisystem.
        Identische Werte sind normal, wenn mehrere Ordner auf
        demselben Datenträger liegen.
      </div>
    </section>

    "#;

/// The read-only diagnostics page.
pub open spec fn diagnostics_page_html_text(c: Config, f: DiagnosticsFacts) -> Seq<char> {
    DIAGNOSTICS_PAGE_1@
        + VERSION@
        + DIAGNOSTICS_PAGE_2@
        + VERSION@
        + r#"</div>
      </div>

      <div class="row">
        <div class="key">WebUI</div>
        <div class="value">"#@
        + flag_badge(c.web.enabled, "ok"@, "aktiv"@, "muted"@, "aus"@)
        + r#"</div>
      </div>

      <div class="row">
        <div class="key">Adresse / Port</div>
        <div class="value"><code>"#@
        + escaped(c.web.bind@)
        + r#"</code></div>
      </div>

      <div class="row">
        <div class="key">Testmodus</div>
        <div class="value">"#@
        + flag_badge(c.extract.dry_run, "ok"@, "aktiv"@, "muted"@, "aus"@)
        + r#"</div>
      </div>
    </section>

    <section class="card">
      <h2>Verlauf</h2>

      <div class="row">
        <div class="key">Verlaufsordner</div>
        <div class="value">
          "#@
        + flag_badge(f.history_dir_exists, "ok"@, "erreichbar"@, "bad"@, "nicht erreichbar"@)
        + "<br>\n          <code>"@
        + escaped(c.history.directory@)
        + r#"</code>
        </div>
      </div>

      <div class="row">
        <div class="key">Erledigt</div>
        <div class="value">
          <span class="badge ok">"#@
        + dec(f.done as nat)
        + r#"</span>
        </div>
      </div>

      <div class="row">
        <div class="key">Fehlgeschlagen</div>
        <div class="value">
          <span class="badge bad">"#@
        + dec(f.failed as nat)
        + r#"</span>
        </div>
      </div>
    </section>

    <section class="card">
      <h2>Passwortliste</h2>

      <div class="row">
        <div class="key">Status</div>
        <div class="value">"#@
        + password_status(c.extract.password_file@, f.password_file_exists)
        + r#"</div>
      </div>

      <div class="row">
        <div class="key">Pfad</div>
        <div class="value"><code>"#@
        + password_path_text(c.extract.password_file@)
        + DIAGNOSTICS_PAGE_3@
        + gotify_status(c.notifications.gotify)
        + r#"</div>
      </div>

      <div class="row">
        <div class="key">URL konfiguriert</div>
        <div class="value">"#@
        + flag_badge(filled(c.notifications.gotify.url@), "ok"@, "ja"@, "muted"@, "nein"@)
        + r#"</div>
      </div>

      <div class="row">
        <div class="key">Token konfiguriert</div>
        <div class="value">"#@
        + flag_badge(filled(c.notifications.gotify.token@), "ok"@, "ja"@, "muted"@, "nein"@)
        + DIAGNOSTICS_PAGE_4@
        + disk_cards_text(c, f)
        + r#"

    <section class="card wide">
      <h2>Sicherungen</h2>
      <div class="small">
        Es werden nur Anzahl, Zeitpunkt und Speicherort angezeigt.
        Inhalte der Sicherungen bleiben verborgen.
      </div>
    </section>

    "#@
        + backup_cards_text(f)
        + r#"
  </div>

  <footer>
    Diese Seite prüft nur den aktuellen Zustand. Es werden keine
    Passwörter, Tokens oder anderen vertraulichen Inhalte angezeigt.
  </footer>
</main>
</body>
</html>"#@
}

pub fn diagnostics_page_html(c: &Config, f: &DiagnosticsFacts) -> (r: String)
    requires
        f.watch_disks@.len() == watched(c.watch).len(),
    ensures
        r@ == diagnostics_page_html_text(*c, *f),
{
    let mut out = chars_of(DIAGNOSTICS_PAGE_1);
    extend_str(&mut out, VERSION);
    extend_str(&mut out, DIAGNOSTICS_PAGE_2);
    extend_str(&mut out, VERSION);
    extend_str(&mut out, r#"</div>
      </div>

      <div class="row">
        <div class="key">WebUI</div>
        <div class="value">"#);
    push_badge(&mut out, c.web.enabled, "ok", "aktiv", "muted", "aus");
    extend_str(&mut out, r#"</div>
      </div>

      <div class="row">
        <div class="key">Adresse / Port</div>
        <div class="value"><code>"#);
    push_escaped(&mut out, &c.web.bind);
    extend_str(&mut out, r#"</code></div>
      </div>

      <div class="row">
        <div class="key">Testmodus</div>
        <div class="value">"#);
    push_badge(&mut out, c.extract.dry_run, "ok", "aktiv", "muted", "aus");
    extend_str(&mut out, r#"</div>
      </div>
    </section>

    <section class="card">
      <h2>Verlauf</h2>

      <div class="row">
        <div class="key">Verlaufsordner</div>
        <div class="value">
          "#);
    push_badge(&mut out, f.history_dir_exists, "ok", "erreichbar", "bad", "nicht erreichbar");
    extend_str(&mut out, "<br>\n          <code>");
    push_escaped(&mut out, &c.history.directory);
    extend_str(&mut out, r#"</code>
        </div>
      </div>

      <div class="row">
        <div class="key">Erledigt</div>
        <div class="value">
          <span class="badge ok">"#);
    push_dec(&mut out, f.done as u64);
    extend_str(&mut out, r#"</span>
        </div>
      </div>

      <div class="row">
        <div class="key">Fehlgeschlagen</div>
        <div class="value">
          <span class="badge bad">"#);
    push_dec(&mut out, f.failed as u64);
    extend_str(&mut out, r#"</span>
        </div>
      </div>
    </section>

    <section class="card">
      <h2>Passwortliste</h2>

      <div class="row">
        <div class="key">Status</div>
        <div class="value">"#);
    push_password_status(&mut out, &c.extract.password_file, f.password_file_exists);
    extend_str(&mut out, r#"</div>
      </div>

      <div class="row">
        <div class="key">Pfad</div>
        <div class="value"><code>"#);
    push_password_path(&mut out, &c.extract.password_file);
    extend_str(&mut out, DIAGNOSTICS_PAGE_3);
    push_gotify_status(&mut out, &c.notifications.gotify);
    extend_str(&mut out, r#"</div>
      </div>

      <div class="row">
        <div class="key">URL konfiguriert</div>
        <div class="value">"#);
    push_badge(&mut out, !is_blank(&c.notifications.gotify.url), "ok", "ja", "muted", "nein");
    extend_str(&mut out, r#"</div>
      </div>

      <div class="row">
        <div class="key">Token konfiguriert</div>
        <div class="value">"#);
    push_badge(&mut out, !is_blank(&c.notifications.gotify.token), "ok", "ja", "muted", "nein");
    extend_str(&mut out, DIAGNOSTICS_PAGE_4);
    push_disk_cards(&mut out, c, f);
    extend_str(&mut out, r#"

    <section class="card wide">
      <h2>Sicherungen</h2>
      <div class="small">
        Es werden nur Anzahl, Zeitpunkt und Speicherort angezeigt.
        Inhalte der Sicherungen bleiben verborgen.
      </div>
    </section>

    "#);
    push_backup_cards(&mut out, f);
    extend_str(&mut out, r#"
  </div>

  <footer>
    Diese Seite prüft nur den aktuellen Zustand. Es werden keine
    Passwörter, Tokens oder anderen vertraulichen Inhalte angezeigt.
  </footer>
</main>
</body>
</html>"#);
    string_of(&out)
}

} // verus!

verus! {

/// The card of a file system: its figures, or the error.
pub open spec fn disk_reading_text(title: Seq<char>, path: Seq<char>, r: DiskReading) -> Seq<char> {
    match r {
        DiskReading::Available(d) => disk_card_html_text(title, path, d),
        DiskReading::Unavailable(e) => disk_error_card_html_text(title, path, e@),
    }
}

fn disk_reading_html(title: &str, path: &str, r: &DiskReading) -> (s: String)
    ensures
        s@ == disk_reading_text(title@, path@, *r),
{
    match r {
        DiskReading::Available(d) => disk_card_html(title, path, d),
        DiskReading::Unavailable(e) => disk_error_card_html(title, path, e.as_str()),
    }
}

/// The title of the card of a watch directory: numbered from one when
/// there is more than one.
pub open spec fn watch_disk_title(index: nat, count: nat) -> Seq<char> {
    if count == 1 {
        "Überwachter Ordner"@
    } else {
        "Überwachter Ordner "@ + dec(index + 1)
    }
}

fn watch_disk_title_string(index: usize, count: usize) -> (r: String)
    requires
        index < count,
    ensures
        r@ == watch_disk_title(index as nat, count as nat),
{
    if count == 1 {
        return string_of(&chars_of("Überwachter Ordner"));
    }
    let mut out = chars_of("Überwachter Ordner ");
    push_dec(&mut out, (index + 1) as u64);
    string_of(&out)
}

/// The disk cards: one per watch directory, then the output and the
/// history directory.
pub open spec fn disk_cards(c: Config, f: DiagnosticsFacts) -> Seq<Seq<char>> {
    let dirs = watched(c.watch);
    Seq::new(
        dirs.len(),
        |i: int| disk_reading_text(watch_disk_title(i as nat, dirs.len()), dirs[i], f.watch_disks@[i]),
    ) + seq![
        disk_reading_text("Ausgabeordner"@, c.output.directory@, f.output_disk),
        disk_reading_text("Verlaufs-/State-Ordner"@, c.history.directory@, f.history_disk),
    ]
}

pub open spec fn disk_cards_text(c: Config, f: DiagnosticsFacts) -> Seq<char> {
    join_lines(disk_cards(c, f))
}

fn push_disk_cards(out: &mut Vec<char>, c: &Config, f: &DiagnosticsFacts)
    requires
        f.watch_disks@.len() == watched(c.watch).len(),
    ensures
        final(out)@ == old(out)@ + disk_cards_text(*c, *f),
{
    let dirs = c.watch.resolved_directories();
    let ghost ds = views(dirs@);
    let n = dirs.len();
    let mut cards: Vec<String> = Vec::new();
    let mut i: usize = 0;
    while i < n
        invariant
            n == dirs@.len(),
            ds == views(dirs@),
            ds == watched(c.watch),
            f.watch_disks@.len() == n,
            i <= n,
            views(cards@) =~= Seq::new(
                i as nat,
                |k: int| disk_reading_text(watch_disk_title(k as nat, n as nat), ds[k], f.watch_disks@[k]),
            ),
        decreases n - i,
    {
        let title = watch_disk_title_string(i, n);
        let card = disk_reading_html(title.as_str(), dirs[i].as_str(), &f.watch_disks[i]);
        let ghost before = views(cards@);
        assert(ds[i as int] == dirs@[i as int]@);
        cards.push(card);
        assert(views(cards@) =~= before.push(card@));
        i = i + 1;
    }
    let output = disk_reading_html("Ausgabeordner", c.output.directory.as_str(), &f.output_disk);
    cards.push(output);
    let history = disk_reading_html("Verlaufs-/State-Ordner", c.history.directory.as_str(), &f.history_disk);
    cards.push(history);
    assert(views(cards@) =~= disk_cards(*c, *f));
    push_joined(out, &cards);
}

/// The three backup cards: configuration, history, passwords.
pub open spec fn backup_cards_text(f: DiagnosticsFacts) -> Seq<char> {
    join_lines(
        seq![
            backup_card_html_text("Konfigurations-Sicherungen"@, f.config_backups),
            backup_card_html_text("Verlaufs-Sicherungen"@, f.history_backups),
            backup_card_html_text("Passwortlisten-Sicherungen"@, f.password_backups),
        ],
    )
}

fn push_backup_cards(out: &mut Vec<char>, f: &DiagnosticsFacts)
    ensures
        final(out)@ == old(out)@ + backup_cards_text(*f),
{
    let mut cards: Vec<String> = Vec::new();
    cards.push(backup_card_html("Konfigurations-Sicherungen", &f.config_backups));
    cards.push(backup_card_html("Verlaufs-Sicherungen", &f.history_backups));
    cards.push(backup_card_html("Passwortlisten-Sicherungen", &f.password_backups));
    assert(views(cards@) =~= seq![
        backup_card_html_text("Konfigurations-Sicherungen"@, f.config_backups),
        backup_card_html_text("Verlaufs-Sicherungen"@, f.history_backups),
        backup_card_html_text("Passwortlisten-Sicherungen"@, f.password_backups),
    ]);
    push_joined(out, &cards);
}

} // verus!

verus! {

/// Two configurations that differ at most in the secrets: the Gotify URL
/// and token (only whether each is set agrees) and the ntfy server, topic
/// and token.
pub open spec fn same_but_secrets(a: Config, b: Config) -> bool {
    let (ga, gb) = (a.notifications.gotify, b.notifications.gotify);
    let (na, nb) = (a.notifications.ntfy, b.notifications.ntfy);
    &&& a.watch == b.watch
    &&& a.extract == b.extract
    &&& a.output == b.output
    &&& a.history == b.history
    &&& a.retry == b.retry
    &&& a.startup == b.startup
    &&& a.web == b.web
    &&& a.notifications.enabled == b.notifications.enabled
    &&& a.notifications.provider == b.notifications.provider
    &&& ga.enabled == gb.enabled
    &&& filled(ga.url@) == filled(gb.url@)
    &&& filled(ga.token@) == filled(gb.token@)
    &&& ga.priority_success == gb.priority_success
    &&& ga.priority_error == gb.priority_error
    &&& ga.notify_on_success == gb.notify_on_success
    &&& ga.notify_on_error == gb.notify_on_error
    &&& ga.notify_on_every_error == gb.notify_on_every_error
    &&& ga.notify_after_attempts == gb.notify_after_attempts
    &&& na.priority_success == nb.priority_success
    &&& na.priority_error == nb.priority_error
    &&& na.notify_on_worker_start == nb.notify_on_worker_start
    &&& na.notify_on_processing_start == nb.notify_on_processing_start
    &&& na.notify_on_success == nb.notify_on_success
    &&& na.notify_on_error == nb.notify_on_error
    &&& na.notify_on_every_error == nb.notify_on_every_error
    &&& na.notify_after_attempts == nb.notify_after_attempts
}

/// The web pages do not show the Gotify URL and token or the ntfy server,
/// topic and token: two configurations that differ only there (the Gotify
/// values only in what they are, not in whether they are set) give the
/// same pages.
pub proof fn law_pages_hide_secrets(
    a: Config,
    b: Config,
    config_path: Seq<char>,
    message: Option<Seq<char>>,
    done: usize,
    failed: usize,
    scan: Result<Seq<ScanCandidate>, Seq<char>>,
    failures: Result<Seq<FailureEntry>, Seq<char>>,
    f: DiagnosticsFacts,
)
    requires
        same_but_secrets(a, b),
    ensures
        settings_page_html_text(a) == settings_page_html_text(b),
        settings_edit_page_html_text(a, config_path, message) == settings_edit_page_html_text(
            b,
            config_path,
            message,
        ),
        dashboard_page_html_text(a, done, failed, scan, failures) == dashboard_page_html_text(
            b,
            done,
            failed,
            scan,
            failures,
        ),
        diagnostics_page_html_text(a, f) == diagnostics_page_html_text(b, f),
{
    assert(disk_cards(a, f) =~= disk_cards(b, f));
}

} // verus!
