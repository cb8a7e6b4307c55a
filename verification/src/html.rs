//! Pieces of the web pages that show data: escaping and the generated
//! lists.
use crate::dryrun::CandidateState;
use crate::history::FailureEntry;
use crate::text::{contains_seq, dec, extend_str, push_dec, str_contains, string_of};
use vstd::prelude::*;

verus! {

/// One character as HTML text: `&`, `<`, `>`, `"` and `'` become entities.
pub open spec fn escape_char(c: char) -> Seq<char> {
    if c == '&' {
        "&amp;"@
    } else if c == '<' {
        "&lt;"@
    } else if c == '>' {
        "&gt;"@
    } else if c == '"' {
        "&quot;"@
    } else if c == '\'' {
        "&#39;"@
    } else {
        seq![c]
    }
}

pub open spec fn escaped(s: Seq<char>) -> Seq<char>
    decreases s.len(),
{
    if s.len() == 0 {
        Seq::empty()
    } else {
        escaped(s.drop_last()) + escape_char(s.last())
    }
}

pub fn push_escaped(out: &mut Vec<char>, input: &str)
    ensures
        final(out)@ == old(out)@ + escaped(input@),
{
    let v = crate::text::chars_of(input);
    let ghost start = out@;
    let mut i: usize = 0;
    assert(v@.take(0) =~= Seq::<char>::empty());
    while i < v.len()
        invariant
            i <= v@.len(),
            v@ == input@,
            out@ == start + escaped(v@.take(i as int)),
        decreases v.len() - i,
    {
        assert(v@.take(i + 1).drop_last() =~= v@.take(i as int));
        assert(v@.take(i + 1).last() == v@[i as int]);
        let c = v[i];
        if c == '&' {
            extend_str(out, "&amp;");
        } else if c == '<' {
            extend_str(out, "&lt;");
        } else if c == '>' {
            extend_str(out, "&gt;");
        } else if c == '"' {
            extend_str(out, "&quot;");
        } else if c == '\'' {
            extend_str(out, "&#39;");
        } else {
            out.push(c);
        }
        assert(out@ =~= start + escaped(v@.take(i + 1)));
        i = i + 1;
    }
    assert(v@.take(v@.len() as int) =~= v@);
}

/// The style of the notice after a settings form: a restart is needed, an
/// error, or a success.
pub open spec fn notice_class_of(message: Seq<char>) -> Seq<char> {
    if contains_seq(message, "Neustart"@) || contains_seq(message, "starte den Worker neu"@) {
        "notice restart-required"@
    } else if contains_seq(message, "fehlgeschlagen"@) || contains_seq(message, "konnte nicht"@)
        || contains_seq(message, "nicht zurückgesetzt"@) || contains_seq(message, "nicht ersetzt"@) {
        "notice notice-error"@
    } else {
        "notice notice-success"@
    }
}

pub fn notice_class(message: &str) -> (r: &'static str)
    ensures
        r@ == notice_class_of(message@),
{
    if str_contains(message, "Neustart") || str_contains(message, "starte den Worker neu") {
        "notice restart-required"
    } else if str_contains(message, "fehlgeschlagen") || str_contains(message, "konnte nicht")
        || str_contains(message, "nicht zurückgesetzt") || str_contains(message, "nicht ersetzt") {
        "notice notice-error"
    } else {
        "notice notice-success"
    }
}

/// The text with the HTML special characters replaced by entities.
pub fn escape_html(input: &str) -> (r: String)
    ensures
        r@ == escaped(input@),
{
    let mut out: Vec<char> = Vec::new();
    push_escaped(&mut out, input);
    assert(out@ =~= escaped(input@));
    string_of(&out)
}

/// `checked` for a ticked checkbox.
pub fn checked(value: bool) -> (r: &'static str)
    ensures
        r@ == if value {
            "checked"@
        } else {
            ""@
        },
{
    if value {
        "checked"
    } else {
        ""
    }
}

/// The button of a scan row: reset a failed release, process a new one.
pub open spec fn action_button_text(state: CandidateState, path: Seq<char>) -> Seq<char> {
    match state {
        CandidateState::Failed => "<button class=\"button small-button danger-button\" type=\"button\" data-action=\"clear-failed\" data-path=\""@
            + escaped(path) + "\">Fehlerstatus zurücksetzen</button>"@,
        CandidateState::New => "<button class=\"button small-button\" type=\"button\" data-action=\"process\" data-path=\""@
            + escaped(path) + "\">Jetzt verarbeiten</button>"@,
        CandidateState::Done => Seq::empty(),
    }
}

pub fn action_button_html(state: CandidateState, path: &str) -> (r: String)
    ensures
        r@ == action_button_text(state, path@),
{
    let mut out: Vec<char> = Vec::new();
    match state {
        CandidateState::Failed => {
            extend_str(
                &mut out,
                "<button class=\"button small-button danger-button\" type=\"button\" data-action=\"clear-failed\" data-path=\"",
            );
            push_escaped(&mut out, path);
            extend_str(&mut out, "\">Fehlerstatus zurücksetzen</button>");
        },
        CandidateState::New => {
            extend_str(
                &mut out,
                "<button class=\"button small-button\" type=\"button\" data-action=\"process\" data-path=\"",
            );
            push_escaped(&mut out, path);
            extend_str(&mut out, "\">Jetzt verarbeiten</button>");
        },
        CandidateState::Done => {},
    }
    string_of(&out)
}

/// One entry of the list of watch directories, numbered from one.
pub open spec fn watch_item(index: nat, directory: Seq<char>) -> Seq<char> {
    "<div class=\"watch-directory-item\">\n          <span class=\"watch-directory-index\">\n            "@
        + dec(index) + "\n          </span>\n          <code>"@ + escaped(directory)
        + "</code>\n        </div>"@
}

/// The entries joined by line feeds.
pub open spec fn watch_items(ds: Seq<Seq<char>>) -> Seq<char>
    decreases ds.len(),
{
    if ds.len() == 0 {
        Seq::empty()
    } else if ds.len() == 1 {
        watch_item(1, ds[0])
    } else {
        watch_items(ds.drop_last()) + "\n"@ + watch_item(ds.len(), ds.last())
    }
}

/// The list of the watch directories of the settings pages.
pub fn watch_directory_list_html(directories: &Vec<String>) -> (r: String)
    ensures
        r@ == watch_items(directories@.map_values(|s: String| s@)),
{
    let ghost ds = directories@.map_values(|s: String| s@);
    let mut out: Vec<char> = Vec::new();
    let mut i: usize = 0;
    while i < directories.len()
        invariant
            i <= directories@.len(),
            ds == directories@.map_values(|s: String| s@),
            out@ == watch_items(ds.take(i as int)),
        decreases directories.len() - i,
    {
        assert(ds.take(i + 1).drop_last() =~= ds.take(i as int));
        assert(ds.take(i + 1).last() == directories@[i as int]@);
        if i > 0 {
            extend_str(&mut out, "\n");
        }
        extend_str(
            &mut out,
            "<div class=\"watch-directory-item\">\n          <span class=\"watch-directory-index\">\n            ",
        );
        push_dec(&mut out, (i + 1) as u64);
        extend_str(&mut out, "\n          </span>\n          <code>");
        push_escaped(&mut out, directories[i].as_str());
        extend_str(&mut out, "</code>\n        </div>");
        proof {
            if i == 0 {
                assert(ds.take(1) =~= seq![ds[0]]);
            }
        }
        assert(out@ =~= watch_items(ds.take(i + 1)));
        i = i + 1;
    }
    assert(ds.take(ds.len() as int) =~= ds);
    string_of(&out)
}

/// The badge class of a candidate state.
pub open spec fn state_class(s: CandidateState) -> Seq<char> {
    match s {
        CandidateState::New => "ok"@,
        CandidateState::Done => "muted"@,
        CandidateState::Failed => "bad"@,
    }
}

pub open spec fn state_label(s: CandidateState) -> Seq<char> {
    match s {
        CandidateState::New => "new"@,
        CandidateState::Done => "done"@,
        CandidateState::Failed => "failed"@,
    }
}

/// A row of the scan list.
pub open spec fn scan_row(path: Seq<char>, s: CandidateState) -> Seq<char> {
    "<div class=\"scan-row\"><span class=\"badge "@ + state_class(s) + "\">"@ + escaped(
        state_label(s),
    ) + "</span><span class=\"scan-path\">"@ + escaped(path)
        + "</span><span class=\"scan-actions\">"@ + action_button_text(s, path) + "</span></div>"@
}

pub open spec fn scan_rows(cs: Seq<(Seq<char>, CandidateState)>) -> Seq<char>
    decreases cs.len(),
{
    if cs.len() == 0 {
        Seq::empty()
    } else {
        scan_rows(cs.drop_last()) + scan_row(cs.last().0, cs.last().1)
    }
}

/// A candidate of the scan with its state.
pub struct ScanCandidate {
    pub path: String,
    pub state: CandidateState,
}

pub open spec fn candidates_view(cs: Seq<ScanCandidate>) -> Seq<(Seq<char>, CandidateState)> {
    cs.map_values(|c: ScanCandidate| (c.path@, c.state))
}

pub open spec fn count_in(cs: Seq<(Seq<char>, CandidateState)>, s: CandidateState) -> nat
    decreases cs.len(),
{
    if cs.len() == 0 {
        0
    } else {
        count_in(cs.drop_last(), s) + if cs.last().1 == s {
            1nat
        } else {
            0nat
        }
    }
}

/// The scan summary of the dashboard: the counts, then at most 25 rows and
/// a note on the rows left out.
pub open spec fn scan_summary_text(cs: Seq<(Seq<char>, CandidateState)>) -> Seq<char> {
    let head = "<div class=\"scan-summary\">\n<span class=\"badge ok\">neu: "@ + dec(
        count_in(cs, CandidateState::New),
    ) + "</span>\n<span class=\"badge muted\">erledigt: "@ + dec(count_in(cs, CandidateState::Done))
        + "</span>\n<span class=\"badge bad\">fehlgeschlagen: "@ + dec(
        count_in(cs, CandidateState::Failed),
    ) + "</span>\n<span class=\"badge muted\">gesamt: "@ + dec(cs.len()) + "</span>\n</div>"@;
    if cs.len() == 0 {
        head + "<div class=\"small\">Keine Kandidaten gefunden.</div>"@
    } else {
        let rows = if cs.len() > 25 {
            cs.take(25)
        } else {
            cs
        };
        let more = if cs.len() > 25 {
            "<div class=\"small\">Weitere "@ + dec((cs.len() - 25) as nat)
                + " Einträge werden nicht angezeigt.</div>"@
        } else {
            Seq::empty()
        };
        head + "<div class=\"scan-list\">"@ + scan_rows(rows) + more + "</div>"@
    }
}

proof fn lemma_count_in_bound(cs: Seq<(Seq<char>, CandidateState)>, s: CandidateState)
    ensures
        count_in(cs, s) <= cs.len(),
    decreases cs.len(),
{
    if cs.len() > 0 {
        lemma_count_in_bound(cs.drop_last(), s);
    }
}

fn push_scan_row(out: &mut Vec<char>, c: &ScanCandidate)
    ensures
        final(out)@ == old(out)@ + scan_row(c.path@, c.state),
{
    extend_str(out, "<div class=\"scan-row\"><span class=\"badge ");
    let class = match c.state {
        CandidateState::New => "ok",
        CandidateState::Done => "muted",
        CandidateState::Failed => "bad",
    };
    extend_str(out, class);
    extend_str(out, "\">");
    push_escaped(out, c.state.label());
    extend_str(out, "</span><span class=\"scan-path\">");
    push_escaped(out, c.path.as_str());
    extend_str(out, "</span><span class=\"scan-actions\">");
    let b = action_button_html(c.state, c.path.as_str());
    extend_str(out, b.as_str());
    extend_str(out, "</span></div>");
}

pub fn scan_summary_html(candidates: &Vec<ScanCandidate>) -> (r: String)
    ensures
        r@ == scan_summary_text(candidates_view(candidates@)),
{
    let ghost cv = candidates_view(candidates@);
    let mut n: usize = 0;
    let mut d: usize = 0;
    let mut f: usize = 0;
    let mut i: usize = 0;
    while i < candidates.len()
        invariant
            i <= candidates@.len(),
            cv == candidates_view(candidates@),
            n == count_in(cv.take(i as int), CandidateState::New),
            d == count_in(cv.take(i as int), CandidateState::Done),
            f == count_in(cv.take(i as int), CandidateState::Failed),
        decreases candidates.len() - i,
    {
        assert(cv.take(i + 1).drop_last() =~= cv.take(i as int));
        assert(cv.take(i + 1).last().1 == candidates@[i as int].state);
        proof {
            lemma_count_in_bound(cv.take(i as int), CandidateState::New);
            lemma_count_in_bound(cv.take(i as int), CandidateState::Done);
            lemma_count_in_bound(cv.take(i as int), CandidateState::Failed);
        }
        match candidates[i].state {
            CandidateState::New => n = n + 1,
            CandidateState::Done => d = d + 1,
            CandidateState::Failed => f = f + 1,
        }
        i = i + 1;
    }
    assert(cv.take(cv.len() as int) =~= cv);
    let mut out: Vec<char> = Vec::new();
    extend_str(&mut out, "<div class=\"scan-summary\">\n<span class=\"badge ok\">neu: ");
    push_dec(&mut out, n as u64);
    extend_str(&mut out, "</span>\n<span class=\"badge muted\">erledigt: ");
    push_dec(&mut out, d as u64);
    extend_str(&mut out, "</span>\n<span class=\"badge bad\">fehlgeschlagen: ");
    push_dec(&mut out, f as u64);
    extend_str(&mut out, "</span>\n<span class=\"badge muted\">gesamt: ");
    push_dec(&mut out, candidates.len() as u64);
    extend_str(&mut out, "</span>\n</div>");
    let ghost head = out@;
    if candidates.len() == 0 {
        extend_str(&mut out, "<div class=\"small\">Keine Kandidaten gefunden.</div>");
        return string_of(&out);
    }
    extend_str(&mut out, "<div class=\"scan-list\">");
    let ghost list_start = out@;
    let shown = if candidates.len() > 25 {
        25
    } else {
        candidates.len()
    };
    let mut j: usize = 0;
    while j < shown
        invariant
            j <= shown <= candidates@.len(),
            cv == candidates_view(candidates@),
            out@ == list_start + scan_rows(cv.take(j as int)),
        decreases shown - j,
    {
        assert(cv.take(j + 1).drop_last() =~= cv.take(j as int));
        assert(cv.take(j + 1).last() == (candidates@[j as int].path@, candidates@[j as int].state));
        push_scan_row(&mut out, &candidates[j]);
        j = j + 1;
    }
    if candidates.len() > 25 {
        extend_str(&mut out, "<div class=\"small\">Weitere ");
        push_dec(&mut out, (candidates.len() - 25) as u64);
        extend_str(&mut out, " Einträge werden nicht angezeigt.</div>");
    } else {
        assert(cv.take(shown as int) =~= cv);
    }
    extend_str(&mut out, "</div>");
    assert(out@ =~= scan_summary_text(cv));
    string_of(&out)
}

/// A row of the failure list.
pub open spec fn failure_row(e: FailureEntry) -> Seq<char> {
    "<div class=\"failure-row\">\n<div><span class=\"badge bad\">"@ + escaped(e.error_class@)
        + "</span> <span class=\"small\">Fehlversuche: "@ + dec(e.attempts as nat)
        + "</span></div>\n<div class=\"scan-path\">"@ + escaped(e.path@)
        + "</div>\n<div class=\"small\">"@ + escaped(e.reason@)
        + "</div>\n<div class=\"scan-actions\"><button class=\"button small-button danger-button\" type=\"button\" data-action=\"clear-failed\" data-path=\""@
        + escaped(e.path@) + "\">Fehlerstatus zurücksetzen</button></div>\n</div>"@
}

pub open spec fn failure_rows(es: Seq<FailureEntry>) -> Seq<char>
    decreases es.len(),
{
    if es.len() == 0 {
        Seq::empty()
    } else {
        failure_rows(es.drop_last()) + failure_row(es.last())
    }
}

/// The failure list of the dashboard.
pub open spec fn failures_text(es: Seq<FailureEntry>) -> Seq<char> {
    let head = "<div class=\"scan-summary\"><span class=\"badge bad\">fehlgeschlagen: "@ + dec(
        es.len(),
    ) + "</span></div>"@;
    if es.len() == 0 {
        head + "<div class=\"small\">Keine fehlgeschlagenen Releases vorhanden.</div>"@
    } else {
        head + "<div class=\"failure-list\">"@ + failure_rows(es) + "</div>"@
    }
}

pub fn failures_html(entries: &Vec<FailureEntry>) -> (r: String)
    ensures
        r@ == failures_text(entries@),
{
    let mut out: Vec<char> = Vec::new();
    extend_str(&mut out, "<div class=\"scan-summary\"><span class=\"badge bad\">fehlgeschlagen: ");
    push_dec(&mut out, entries.len() as u64);
    extend_str(&mut out, "</span></div>");
    if entries.len() == 0 {
        extend_str(&mut out, "<div class=\"small\">Keine fehlgeschlagenen Releases vorhanden.</div>");
        return string_of(&out);
    }
    extend_str(&mut out, "<div class=\"failure-list\">");
    let ghost start = out@;
    let mut i: usize = 0;
    while i < entries.len()
        invariant
            i <= entries@.len(),
            out@ == start + failure_rows(entries@.take(i as int)),
        decreases entries.len() - i,
    {
        assert(entries@.take(i + 1).drop_last() =~= entries@.take(i as int));
        assert(entries@.take(i + 1).last() == entries@[i as int]);
        let e = &entries[i];
        extend_str(&mut out, "<div class=\"failure-row\">\n<div><span class=\"badge bad\">");
        push_escaped(&mut out, e.error_class.as_str());
        extend_str(&mut out, "</span> <span class=\"small\">Fehlversuche: ");
        push_dec(&mut out, e.attempts);
        extend_str(&mut out, "</span></div>\n<div class=\"scan-path\">");
        push_escaped(&mut out, e.path.as_str());
        extend_str(&mut out, "</div>\n<div class=\"small\">");
        push_escaped(&mut out, e.reason.as_str());
        extend_str(
            &mut out,
            "</div>\n<div class=\"scan-actions\"><button class=\"button small-button danger-button\" type=\"button\" data-action=\"clear-failed\" data-path=\"",
        );
        push_escaped(&mut out, e.path.as_str());
        extend_str(&mut out, "\">Fehlerstatus zurücksetzen</button></div>\n</div>");
        assert(out@ =~= start + failure_rows(entries@.take(i + 1)));
        i = i + 1;
    }
    assert(entries@.take(entries@.len() as int) =~= entries@);
    extend_str(&mut out, "</div>");
    string_of(&out)
}

/// Escaped text holds no character that could open a tag or end an
/// attribute value.
pub proof fn law_escaped_is_inert(s: Seq<char>)
    ensures
        forall|i: int|
            0 <= i < escaped(s).len() ==> #[trigger] escaped(s)[i] != '<' && escaped(s)[i] != '>'
                && escaped(s)[i] != '"' && escaped(s)[i] != '\'',
    decreases s.len(),
{
    if s.len() > 0 {
        law_escaped_is_inert(s.drop_last());
        let c = s.last();
        let p = escaped(s.drop_last());
        let e = escape_char(c);
        reveal_strlit("&amp;");
        reveal_strlit("&lt;");
        reveal_strlit("&gt;");
        reveal_strlit("&quot;");
        reveal_strlit("&#39;");
        assert forall|i: int| 0 <= i < escaped(s).len() implies #[trigger] escaped(s)[i] != '<'
            && escaped(s)[i] != '>' && escaped(s)[i] != '"' && escaped(s)[i] != '\'' by {
            if i < p.len() {
                assert(escaped(s)[i] == p[i]);
            } else {
                assert(escaped(s)[i] == e[i - p.len()]);
            }
        }
    }
}

} // verus!
