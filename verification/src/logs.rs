//! The recent log lines shown by the web interface, with secrets held back.
use crate::text::{ascii_lower, chars_of, dec, extend_chars, extend_str, is_ws, push_dec, slice_chars, string_of};
use std::collections::VecDeque;
use vstd::prelude::*;

verus! {

/// How many log lines are kept.
pub const MAX_LINES: usize = 1000;

/// The most recent log lines, oldest first, at most `MAX_LINES` of them.
pub struct LogBuffer {
    lines: VecDeque<String>,
}

impl View for LogBuffer {
    type V = Seq<Seq<char>>;

    closed spec fn view(&self) -> Seq<Seq<char>> {
        self.lines@.map_values(|s: String| s@)
    }
}

/// The buffer after a line was added: the oldest line leaves when the
/// buffer is full.
pub open spec fn buffer_push(b: Seq<Seq<char>>, line: Seq<char>) -> Seq<Seq<char>> {
    if b.len() >= MAX_LINES {
        b.drop_first().push(line)
    } else {
        b.push(line)
    }
}

/// The last `limit` lines (all of them when there are fewer).
pub open spec fn last_lines(b: Seq<Seq<char>>, limit: nat) -> Seq<Seq<char>> {
    if limit >= b.len() {
        b
    } else {
        b.skip(b.len() - limit)
    }
}

impl LogBuffer {
    #[verifier::type_invariant]
    closed spec fn bounded(&self) -> bool {
        self@.len() <= MAX_LINES
    }

    pub fn new() -> (b: Self)
        ensures
            b@ == Seq::<Seq<char>>::empty(),
    {
        let b = LogBuffer { lines: VecDeque::new() };
        assert(b@ =~= Seq::<Seq<char>>::empty());
        b
    }

    pub fn len(&self) -> (n: usize)
        ensures
            n == self@.len(),
    {
        self.lines.len()
    }

    /// Adds a line.
    pub fn push(&mut self, line: String)
        ensures
            final(self)@ == buffer_push(old(self)@, line@),
    {
        proof {
            use_type_invariant(&*self);
        }
        let mut lines = VecDeque::new();
        std::mem::swap(&mut lines, &mut self.lines);
        let ghost before = lines@.map_values(|s: String| s@);
        if lines.len() >= MAX_LINES {
            lines.pop_front();
            assert(lines@.map_values(|s: String| s@) =~= before.drop_first());
        }
        let ghost mid = lines@.map_values(|s: String| s@);
        lines.push_back(line);
        assert(lines@.map_values(|s: String| s@) =~= mid.push(line@));
        self.lines = lines;
    }

    /// The most recent `limit` lines, oldest first.
    pub fn recent(&self, limit: usize) -> (r: Vec<String>)
        ensures
            r@.map_values(|s: String| s@) == last_lines(self@, limit as nat),
    {
        let n = self.lines.len();
        let limit = if limit < n {
            limit
        } else {
            n
        };
        let ghost all = self@;
        let start = n - limit;
        let mut out: Vec<String> = Vec::new();
        let mut i = start;
        while i < n
            invariant
                start <= i <= n,
                n == self.lines@.len(),
                all == self@,
                all == self.lines@.map_values(|s: String| s@),
                out@.len() == i - start,
                forall|k: int| 0 <= k < out@.len() ==> #[trigger] out@[k]@ == all[start + k],
            decreases n - i,
        {
            let s = self.lines[i].clone();
            out.push(s);
            i = i + 1;
        }
        assert(out@.map_values(|s: String| s@) =~= last_lines(all, limit as nat));
        out
    }
}

// ------------------------------------------------------------------
// Redaction
// ------------------------------------------------------------------

pub open spec fn lower_seq(s: Seq<char>) -> Seq<char> {
    s.map_values(|c: char| ascii_lower(c))
}

/// The first position from `i` on where `p` occurs in `s`.
pub open spec fn find_from(s: Seq<char>, p: Seq<char>, i: int) -> Option<int>
    decreases s.len() - i,
{
    if i < 0 || i + p.len() > s.len() {
        None
    } else if s.subrange(i, i + p.len()) == p {
        Some(i)
    } else if i >= s.len() {
        None
    } else {
        find_from(s, p, i + 1)
    }
}

/// The number of bytes of a character in UTF-8.
pub open spec fn utf8_width(c: char) -> int {
    if (c as u32) < 0x80 {
        1
    } else if (c as u32) < 0x800 {
        2
    } else if (c as u32) < 0x10000 {
        3
    } else {
        4
    }
}

/// The number of bytes of a text in UTF-8.
pub open spec fn utf8_bytes(s: Seq<char>) -> int
    decreases s.len(),
{
    if s.len() == 0 {
        0
    } else {
        utf8_bytes(s.drop_last()) + utf8_width(s.last())
    }
}

proof fn lemma_utf8_bytes_at_least_len(s: Seq<char>)
    ensures
        utf8_bytes(s) >= s.len(),
    decreases s.len(),
{
    if s.len() > 0 {
        lemma_utf8_bytes_at_least_len(s.drop_last());
    }
}

/// Whether the characters of `v` from `from` to `to` take at most two
/// bytes in UTF-8.
fn at_most_two_bytes(v: &Vec<char>, from: usize, to: usize) -> (r: bool)
    requires
        from <= to <= v@.len(),
    ensures
        r == (utf8_bytes(v@.subrange(from as int, to as int)) <= 2),
{
    let ghost s = v@.subrange(from as int, to as int);
    proof {
        lemma_utf8_bytes_at_least_len(s);
    }
    if to - from > 2 {
        return false;
    }
    let mut total: u32 = 0;
    let mut i = from;
    while i < to
        invariant
            from <= i <= to,
            to - from <= 2,
            to <= v@.len(),
            s == v@.subrange(from as int, to as int),
            total == utf8_bytes(v@.subrange(from as int, i as int)),
            total <= 4 * (i - from),
        decreases to - i,
    {
        let c = v[i] as u32;
        let w: u32 = if c < 0x80 {
            1
        } else if c < 0x800 {
            2
        } else if c < 0x10000 {
            3
        } else {
            4
        };
        assert(v@.subrange(from as int, i + 1).drop_last() =~= v@.subrange(from as int, i as int));
        total = total + w;
        i = i + 1;
    }
    total <= 2
}

pub open spec fn is_separator(c: char) -> bool {
    c == '=' || c == ':'
}

/// Where a value ends: a header value (`authorization`) runs to the end of
/// its line, any other value to the next whitespace, `,`, `;` or `&`.
pub open spec fn ends_value_of(c: char, whole_line: bool) -> bool {
    if whole_line {
        c == '\n' || c == '\r'
    } else {
        ends_value(c)
    }
}

/// The key whose value is a whole header line.
pub open spec fn header_key(key: Seq<char>) -> bool {
    key == "authorization"@
}

/// A character that ends a redacted value.
pub open spec fn ends_value(c: char) -> bool {
    is_ws(c) || c == ',' || c == ';' || c == '&'
}

/// The first position from `i` on of a separator.
pub open spec fn first_separator(s: Seq<char>, i: int) -> Option<int>
    decreases s.len() - i,
{
    if i < 0 || i >= s.len() {
        None
    } else if is_separator(s[i]) {
        Some(i)
    } else {
        first_separator(s, i + 1)
    }
}

/// The first position from `i` on of a value end, or the length.
pub open spec fn value_end(s: Seq<char>, i: int, whole_line: bool) -> int
    decreases s.len() - i,
{
    if i < 0 || i >= s.len() {
        s.len() as int
    } else if ends_value_of(s[i], whole_line) {
        i
    } else {
        value_end(s, i + 1, whole_line)
    }
}

/// The text with the value after each occurrence of `key` (matched without
/// regard to ASCII case) replaced by `<redacted>`: a value follows when a
/// `=` or `:` comes at most two bytes (in UTF-8) after the key, and it runs to
/// the next whitespace, `,`, `;` or `&`; the value of an `Authorization`
/// header (`Bearer <token>`, `Basic <credentials>`) runs to the end of its
/// line.
pub open spec fn redacted(rest: Seq<char>, key: Seq<char>) -> Seq<char>
    decreases rest.len(),
{
    if key.len() == 0 {
        rest
    } else {
        match find_from(lower_seq(rest), key, 0) {
            None => rest,
            Some(pos) => {
                let after = pos + key.len();
                let tail = rest.skip(after);
                match first_separator(tail, 0) {
                    Some(off) => if utf8_bytes(tail.take(off)) <= 2 {
                        let sep = after + off + 1;
                        let remaining = rest.skip(sep);
                        let end = value_end(remaining, 0, header_key(key));
                        if 0 <= pos && 0 <= off && after <= rest.len() && sep <= rest.len() && 0 <= end
                            <= remaining.len() {
                            rest.take(sep) + "<redacted>"@ + redacted(remaining.skip(end), key)
                        } else {
                            rest
                        }
                    } else if 0 <= pos && after <= rest.len() {
                        rest.take(after) + redacted(tail, key)
                    } else {
                        rest
                    },
                    None => if 0 <= pos && after <= rest.len() {
                        rest.take(after) + redacted(tail, key)
                    } else {
                        rest
                    },
                }
            },
        }
    }
}

proof fn lemma_find_from(s: Seq<char>, p: Seq<char>, i: int)
    ensures
        match find_from(s, p, i) {
            Some(k) => i <= k && 0 <= k && k + p.len() <= s.len() && s.subrange(k, k + p.len())
                == p,
            None => true,
        },
    decreases s.len() - i,
{
    if !(i < 0 || i + p.len() > s.len()) && s.subrange(i, i + p.len()) != p && i < s.len() {
        lemma_find_from(s, p, i + 1);
    }
}

proof fn lemma_first_separator(s: Seq<char>, i: int)
    ensures
        match first_separator(s, i) {
            Some(k) => i <= k < s.len() && 0 <= k,
            None => true,
        },
    decreases s.len() - i,
{
    if !(i < 0 || i >= s.len()) && !is_separator(s[i]) {
        lemma_first_separator(s, i + 1);
    }
}

proof fn lemma_value_end(s: Seq<char>, i: int, whole_line: bool)
    requires
        0 <= i,
    ensures
        i <= value_end(s, i, whole_line) <= s.len() || (i > s.len() && value_end(s, i, whole_line)
            == s.len()),
    decreases s.len() - i,
{
    if i < s.len() && !ends_value_of(s[i], whole_line) {
        lemma_value_end(s, i + 1, whole_line);
    }
}

/// `find_from` on the lowered text from `start` on, as an index of the
/// whole text.
fn find_key(lower: &Vec<char>, key: &Vec<char>, start: usize) -> (r: Option<usize>)
    requires
        start <= lower@.len(),
    ensures
        match r {
            Some(k) => find_from(lower@.skip(start as int), key@, 0) == Some(k - start) && start
                <= k,
            None => find_from(lower@.skip(start as int), key@, 0) is None,
        },
{
    let ghost s = lower@.skip(start as int);
    let mut i = start;
    while i <= lower.len() && key.len() <= lower.len() - i
        invariant
            start <= i,
            s == lower@.skip(start as int),
            find_from(s, key@, 0) == find_from(s, key@, i - start),
        decreases lower.len() + 1 - i,
    {
        let mut j: usize = 0;
        let mut same = true;
        while j < key.len()
            invariant
                j <= key@.len(),
                i + key@.len() <= lower@.len(),
                same == (forall|k: int| 0 <= k < j ==> lower@[i + k] == key@[k]),
            decreases key.len() - j,
        {
            assert(i + j < lower.len());
            if lower[i + j] != key[j] {
                same = false;
            }
            j = j + 1;
        }
        let ghost sub = s.subrange(i - start, i - start + key@.len());
        assert(forall|k: int| 0 <= k < key@.len() ==> #[trigger] sub[k] == lower@[i + k]);
        if same {
            assert(sub =~= key@);
            return Some(i);
        }
        assert(sub != key@) by {
            if sub == key@ {
                assert(forall|k: int| 0 <= k < key@.len() ==> lower@[i + k] == key@[k]);
            }
        }
        i = i + 1;
    }
    None
}

fn find_separator(v: &Vec<char>, start: usize) -> (r: Option<usize>)
    requires
        start <= v@.len(),
    ensures
        match r {
            Some(k) => first_separator(v@.skip(start as int), 0) == Some(k - start) && start <= k
                < v@.len(),
            None => first_separator(v@.skip(start as int), 0) is None,
        },
{
    let ghost s = v@.skip(start as int);
    let mut i = start;
    while i < v.len()
        invariant
            start <= i <= v@.len(),
            s == v@.skip(start as int),
            first_separator(s, 0) == first_separator(s, i - start),
        decreases v.len() - i,
    {
        if v[i] == '=' || v[i] == ':' {
            return Some(i);
        }
        i = i + 1;
    }
    None
}

fn find_value_end(v: &Vec<char>, start: usize, whole_line: bool) -> (r: usize)
    requires
        start <= v@.len(),
    ensures
        value_end(v@.skip(start as int), 0, whole_line) == r - start,
        start <= r <= v@.len(),
{
    let ghost s = v@.skip(start as int);
    let mut i = start;
    while i < v.len()
        invariant
            start <= i <= v@.len(),
            s == v@.skip(start as int),
            value_end(s, 0, whole_line) == value_end(s, i - start, whole_line),
        decreases v.len() - i,
    {
        let c = v[i];
        let stop = if whole_line {
            c == '\n' || c == '\r'
        } else {
            crate::text::is_whitespace(c) || c == ',' || c == ';' || c == '&'
        };
        if stop {
            return i;
        }
        i = i + 1;
    }
    i
}

fn lower_chars(v: &Vec<char>) -> (r: Vec<char>)
    ensures
        r@ == lower_seq(v@),
{
    let mut r: Vec<char> = Vec::new();
    let mut i: usize = 0;
    while i < v.len()
        invariant
            i <= v@.len(),
            r@ == lower_seq(v@.take(i as int)),
        decreases v.len() - i,
    {
        r.push(crate::text::lower_ascii_char(v[i]));
        assert(r@ =~= lower_seq(v@.take(i + 1)));
        i = i + 1;
    }
    assert(v@.take(v@.len() as int) =~= v@);
    r
}

/// One step of the redaction from `start` on: the text up to the next
/// resumption point, and that point (`None` when the text is done).
fn redact_step(v: &Vec<char>, lower: &Vec<char>, k: &Vec<char>, start: usize) -> (r: (
    Vec<char>,
    Option<usize>,
))
    requires
        start <= v@.len(),
        k@.len() > 0,
        lower@ == lower_seq(v@),
    ensures
        match r.1 {
            None => redacted(v@.skip(start as int), k@) == r.0@,
            Some(n) => start < n <= v@.len() && redacted(v@.skip(start as int), k@) == r.0@
                + redacted(v@.skip(n as int), k@),
        },
{
    let ghost rest = v@.skip(start as int);
    assert(lower_seq(rest) =~= lower@.skip(start as int));
    let pos = match find_key(lower, k, start) {
        None => {
            let tail = slice_chars(v, start, v.len());
            assert(tail@ =~= rest);
            return (tail, None);
        },
        Some(p) => p,
    };
    proof {
        lemma_find_from(lower_seq(rest), k@, 0);
        assert(lower_seq(rest).len() == v@.len() - start);
    }
    assert(pos - start + k@.len() <= v@.len() - start);
    assert(pos + k.len() <= v.len());
    let after = pos + k.len();
    let ghost tail = rest.skip(after - start);
    assert(tail =~= v@.skip(after as int));
    let sep = find_separator(v, after);
    proof {
        lemma_first_separator(tail, 0);
    }
    let close = match sep {
        Some(s) => at_most_two_bytes(v, after, s),
        None => false,
    };
    proof {
        if let Some(s) = sep {
            assert(v@.subrange(after as int, s as int) =~= tail.take(s - after));
        }
    }
    match sep {
        Some(s) if close => {
            assert(s < v.len());
            let sep_pos = s + 1;
            let mut piece = slice_chars(v, start, sep_pos);
            assert(piece@ =~= rest.take(sep_pos - start));
            extend_str(&mut piece, "<redacted>");
            let whole_line = crate::text::chars_eq(k, &chars_of("authorization"));
            let end = find_value_end(v, sep_pos, whole_line);
            proof {
                lemma_value_end(v@.skip(sep_pos as int), 0, whole_line);
            }
            assert(rest.skip(sep_pos - start) =~= v@.skip(sep_pos as int));
            assert(v@.skip(sep_pos as int).skip(end - sep_pos) =~= v@.skip(end as int));
            (piece, Some(end))
        },
        _ => {
            let piece = slice_chars(v, start, after);
            assert(piece@ =~= rest.take(after - start));
            (piece, Some(after))
        },
    }
}

/// Replaces the value after each occurrence of `key` by `<redacted>`.
pub fn redact_key(input: &str, key: &str) -> (r: String)
    requires
        key@.len() > 0,
    ensures
        r@ == redacted(input@, key@),
{
    let v = chars_of(input);
    let k = chars_of(key);
    let lower = lower_chars(&v);
    let mut out: Vec<char> = Vec::new();
    let mut start: usize = 0;
    assert(v@.skip(0) =~= v@);
    loop
        invariant
            start <= v@.len(),
            k@ == key@,
            k@.len() > 0,
            lower@ == lower_seq(v@),
            v@ == input@,
            redacted(input@, key@) == out@ + redacted(v@.skip(start as int), key@),
        decreases v.len() - start,
    {
        let (piece, next) = redact_step(&v, &lower, &k, start);
        extend_chars(&mut out, &piece);
        match next {
            None => {
                return string_of(&out);
            },
            Some(n) => {
                start = n;
            },
        }
    }
}

/// The text with the values of tokens, passwords, secrets and
/// authorization headers held back, key after key.
pub open spec fn redacted_secrets(input: Seq<char>) -> Seq<char> {
    redacted(
        redacted(
            redacted(redacted(redacted(input, "token"@), "password"@), "passwd"@),
            "secret"@,
        ),
        "authorization"@,
    )
}

/// Holds back the values of tokens, passwords, secrets and authorization
/// headers.
pub fn redact_secrets(input: &str) -> (r: String)
    ensures
        r@ == redacted_secrets(input@),
{
    proof {
        reveal_strlit("token");
        reveal_strlit("password");
        reveal_strlit("passwd");
        reveal_strlit("secret");
        reveal_strlit("authorization");
        assert(lower_seq("token"@) =~= "token"@);
        assert(lower_seq("password"@) =~= "password"@);
        assert(lower_seq("passwd"@) =~= "passwd"@);
        assert(lower_seq("secret"@) =~= "secret"@);
        assert(lower_seq("authorization"@) =~= "authorization"@);
    }
    let a = redact_key(input, "token");
    let b = redact_key(a.as_str(), "password");
    let c = redact_key(b.as_str(), "passwd");
    let d = redact_key(c.as_str(), "secret");
    redact_key(d.as_str(), "authorization")
}

// ------------------------------------------------------------------
// Log lines
// ------------------------------------------------------------------

/// The text without its surrounding double quotes, when it has them.
pub open spec fn unquoted(v: Seq<char>) -> Seq<char> {
    if v.len() >= 2 && v[0] == '"' && v.last() == '"' {
        v.subrange(1, v.len() - 1)
    } else {
        v
    }
}

pub fn strip_debug_quotes(value: String) -> (r: String)
    ensures
        r@ == unquoted(value@),
{
    let v = chars_of(value.as_str());
    if v.len() >= 2 && v[0] == '"' && v[v.len() - 1] == '"' {
        let inner = slice_chars(&v, 1, v.len() - 1);
        string_of(&inner)
    } else {
        value
    }
}

/// The fields of one log event: the message and the other fields as
/// `name=value`.
pub struct LogFields {
    pub message: Option<String>,
    pub fields: Vec<String>,
}

/// The parts joined with single spaces.
pub open spec fn join_spaced(parts: Seq<Seq<char>>) -> Seq<char>
    decreases parts.len(),
{
    if parts.len() == 0 {
        Seq::empty()
    } else if parts.len() == 1 {
        parts[0]
    } else {
        join_spaced(parts.drop_last()) + " "@ + parts.last()
    }
}

pub open spec fn field_parts(f: LogFields) -> Seq<Seq<char>> {
    match f.message {
        Some(m) => seq![m@] + f.fields@.map_values(|s: String| s@),
        None => f.fields@.map_values(|s: String| s@),
    }
}

impl LogFields {
    pub fn new() -> (r: Self)
        ensures
            r.message is None,
            r.fields@.len() == 0,
    {
        LogFields { message: None, fields: Vec::new() }
    }

    /// Records one field with its `Debug` text: the `message` field becomes
    /// the message, any other is kept as `name=value`.
    pub fn record(&mut self, name: &str, debug_value: String)
        ensures
            name@ == "message"@ ==> (final(self).message is Some && final(self).message.unwrap()@
                == unquoted(debug_value@) && final(self).fields@ == old(self).fields@),
            name@ != "message"@ ==> final(self).message == old(self).message
                && final(self).fields@.map_values(|s: String| s@) == old(
                self,
            ).fields@.map_values(|s: String| s@).push(name@ + "="@ + unquoted(debug_value@)),
    {
        let value = strip_debug_quotes(debug_value);
        if crate::text::str_eq(name, "message") {
            self.message = Some(value);
        } else {
            let mut f: Vec<char> = Vec::new();
            extend_str(&mut f, name);
            extend_str(&mut f, "=");
            extend_str(&mut f, value.as_str());
            let ghost before = self.fields@.map_values(|s: String| s@);
            let s = string_of(&f);
            self.fields.push(s);
            assert(self.fields@.map_values(|s: String| s@) =~= before.push(
                name@ + "="@ + unquoted(debug_value@),
            ));
        }
    }

    /// The message, then the other fields, separated by spaces.
    pub fn finish(self) -> (r: String)
        ensures
            r@ == join_spaced(field_parts(self)),
    {
        let ghost parts = field_parts(self);
        let LogFields { message, fields } = self;
        let mut parts_v: Vec<String> = Vec::new();
        match message {
            Some(m) => parts_v.push(m),
            None => {},
        }
        let ghost head = parts_v@.map_values(|s: String| s@);
        let ghost fv = fields@.map_values(|s: String| s@);
        let mut i: usize = 0;
        while i < fields.len()
            invariant
                i <= fields@.len(),
                fv == fields@.map_values(|s: String| s@),
                parts_v@.len() == head.len() + i,
                forall|k: int| 0 <= k < head.len() ==> #[trigger] parts_v@[k]@ == head[k],
                forall|k: int| 0 <= k < i ==> #[trigger] parts_v@[head.len() + k]@ == fv[k],
            decreases fields.len() - i,
        {
            parts_v.push(fields[i].clone());
            i = i + 1;
        }
        assert(parts =~= head + fv);
        let ghost pv = parts_v@.map_values(|s: String| s@);
        assert(pv =~= parts) by {
            assert forall|k: int| 0 <= k < parts.len() implies #[trigger] pv[k] == parts[k] by {
                if k >= head.len() {
                    assert(parts_v@[head.len() + (k - head.len())]@ == fv[k - head.len()]);
                }
            }
        }
        let mut out: Vec<char> = Vec::new();
        let mut j: usize = 0;
        while j < parts_v.len()
            invariant
                j <= parts_v@.len(),
                parts_v@.map_values(|s: String| s@) == parts,
                out@ == join_spaced(parts.take(j as int)),
            decreases parts_v.len() - j,
        {
            assert(parts.take(j + 1).drop_last() =~= parts.take(j as int));
            if j > 0 {
                extend_str(&mut out, " ");
            }
            extend_str(&mut out, parts_v[j].as_str());
            proof {
                if j == 0 {
                    assert(parts.take(1) =~= seq![parts[0]]);
                }
            }
            assert(out@ =~= join_spaced(parts.take(j + 1)));
            j = j + 1;
        }
        assert(parts.take(parts.len() as int) =~= parts);
        string_of(&out)
    }
}

/// `text` padded on the left with spaces to at least five characters.
pub open spec fn right_aligned5(text: Seq<char>) -> Seq<char> {
    if text.len() >= 5 {
        text
    } else {
        Seq::new((5 - text.len()) as nat, |i: int| ' ') + text
    }
}

/// A log line: seconds since the epoch, the level right-aligned to five
/// characters, the target, and the redacted fields after ` - ` when there
/// are any.
pub open spec fn log_line_text(seconds: u64, level: Seq<char>, target: Seq<char>, fields: Seq<char>) -> Seq<char> {
    let head = dec(seconds as nat) + " "@ + right_aligned5(level) + " "@ + target;
    if fields.len() == 0 {
        head
    } else {
        head + " - "@ + fields
    }
}

pub fn format_log_line(seconds: u64, level: &str, target: &str, fields: &str) -> (r: String)
    ensures
        r@ == log_line_text(seconds, level@, target@, fields@),
{
    let mut out: Vec<char> = Vec::new();
    push_dec(&mut out, seconds);
    extend_str(&mut out, " ");
    let lv = chars_of(level);
    let ghost before = out@;
    if lv.len() < 5 {
        let pad = 5 - lv.len();
        let mut i: usize = 0;
        while i < pad
            invariant
                i <= pad,
                pad == 5 - lv@.len(),
                out@ == before + Seq::new(i as nat, |k: int| ' '),
            decreases pad - i,
        {
            out.push(' ');
            assert(out@ =~= before + Seq::new((i + 1) as nat, |k: int| ' '));
            i = i + 1;
        }
    } else {
        assert(out@ =~= before);
    }
    extend_chars(&mut out, &lv);
    extend_str(&mut out, " ");
    extend_str(&mut out, target);
    let fv = chars_of(fields);
    if fv.len() > 0 {
        extend_str(&mut out, " - ");
        extend_chars(&mut out, &fv);
    }
    assert(out@ =~= log_line_text(seconds, level@, target@, fields@));
    string_of(&out)
}

/// The buffer never holds more than `MAX_LINES` lines, the newest line is
/// always kept, and nothing is dropped while there is room.
pub proof fn law_buffer_keeps_newest(b: Seq<Seq<char>>, line: Seq<char>)
    requires
        b.len() <= MAX_LINES,
    ensures
        buffer_push(b, line).len() <= MAX_LINES,
        buffer_push(b, line).last() == line,
        b.len() < MAX_LINES ==> buffer_push(b, line) == b.push(line),
        b.len() == MAX_LINES ==> buffer_push(b, line) == b.skip(1).push(line),
{
    if b.len() == MAX_LINES {
        assert(b.drop_first() =~= b.skip(1));
    }
}

/// The recent lines are the newest ones, oldest first: the last `limit`
/// lines of the buffer, or all of them.
pub proof fn law_recent_is_suffix(b: Seq<Seq<char>>, limit: nat)
    ensures
        last_lines(b, limit).len() == if limit < b.len() {
            limit
        } else {
            b.len()
        },
        last_lines(b, limit) == b.skip(b.len() - last_lines(b, limit).len()),
{
    if limit >= b.len() {
        assert(b.skip(0) =~= b);
    }
}


// ------------------------------------------------------------------
// Authorization headers
// ------------------------------------------------------------------

/// No line break in the text.
pub open spec fn single_line(s: Seq<char>) -> bool {
    forall|i: int| 0 <= i < s.len() ==> s[i] != '\n' && s[i] != '\r'
}

proof fn lemma_find_skips(s: Seq<char>, p: Seq<char>, i: int, m: int)
    requires
        0 <= i <= m,
        forall|j: int| i <= j < m ==> !(j + p.len() <= s.len() && #[trigger] s.subrange(j, j + p.len()) == p),
    ensures
        find_from(s, p, i) == find_from(s, p, m),
    decreases m - i,
{
    if i < m && !(i + p.len() > s.len()) && i < s.len() {
        lemma_find_skips(s, p, i + 1, m);
    }
}

proof fn lemma_no_match_in_head(l: Seq<char>, key: Seq<char>, n: int)
    requires
        0 <= n < l.len(),
        key.len() >= 2,
        forall|j: int| 0 <= j < n ==> #[trigger] l[j] != key[0] || l[j + 1] != key[1],
    ensures
        forall|j: int| 0 <= j < n ==> !(j + key.len() <= l.len() && #[trigger] l.subrange(j, j + key.len()) == key),
{
    assert forall|j: int| 0 <= j < n && j + key.len() <= l.len() implies #[trigger] l.subrange(j, j + key.len()) != key by {
        if l[j] != key[0] {
            assert(l.subrange(j, j + key.len())[0] == l[j]);
        } else {
            assert(l.subrange(j, j + key.len())[1] == l[j + 1]);
        }
    }
}

proof fn lemma_redacted_single_line(rest: Seq<char>, key: Seq<char>)
    requires
        single_line(rest),
    ensures
        single_line(redacted(rest, key)),
    decreases rest.len(),
{
    reveal_strlit("<redacted>");
    if key.len() > 0 {
        let l = lower_seq(rest);
        match find_from(l, key, 0) {
            None => {},
            Some(pos) => {
                let after = pos + key.len();
                let tail = rest.skip(after);
                match first_separator(tail, 0) {
                    Some(off) => if utf8_bytes(tail.take(off)) <= 2 {
                        let sep = after + off + 1;
                        let remaining = rest.skip(sep);
                        let end = value_end(remaining, 0, header_key(key));
                        if 0 <= pos && 0 <= off && after <= rest.len() && sep <= rest.len() && 0 <= end
                            <= remaining.len() {
                            let next = remaining.skip(end);
                            assert(single_line(next));
                            lemma_redacted_single_line(next, key);
                            let r = rest.take(sep) + "<redacted>"@ + redacted(next, key);
                            assert(single_line(r)) by {
                                assert forall|i: int| 0 <= i < r.len() implies r[i] != '\n' && r[i] != '\r' by {
                                    if i < sep {
                                        assert(r[i] == rest[i]);
                                    } else if i < sep + 10 {
                                        assert(r[i] == "<redacted>"@[i - sep]);
                                    } else {
                                        assert(r[i] == redacted(next, key)[i - sep - 10]);
                                    }
                                }
                            }
                        }
                    } else if 0 <= pos && after <= rest.len() {
                        assert(single_line(tail));
                        lemma_redacted_single_line(tail, key);
                        let r = rest.take(after) + redacted(tail, key);
                        assert(single_line(r)) by {
                            assert forall|i: int| 0 <= i < r.len() implies r[i] != '\n' && r[i] != '\r' by {
                                if i < after {
                                    assert(r[i] == rest[i]);
                                } else {
                                    assert(r[i] == redacted(tail, key)[i - after]);
                                }
                            }
                        }
                    },
                    None => if 0 <= pos && after <= rest.len() {
                        assert(single_line(tail));
                        lemma_redacted_single_line(tail, key);
                        let r = rest.take(after) + redacted(tail, key);
                        assert(single_line(r)) by {
                            assert forall|i: int| 0 <= i < r.len() implies r[i] != '\n' && r[i] != '\r' by {
                                if i < after {
                                    assert(r[i] == rest[i]);
                                } else {
                                    assert(r[i] == redacted(tail, key)[i - after]);
                                }
                            }
                        }
                    },
                }
            },
        }
    }
}

/// Redacting a key that does not occur in the first `n` characters keeps
/// them.
proof fn lemma_redacted_keeps_head(rest: Seq<char>, key: Seq<char>, n: int)
    requires
        0 <= n <= rest.len(),
        key.len() > 0,
        forall|j: int| 0 <= j < n ==> !(j + key.len() <= rest.len() && #[trigger] lower_seq(rest).subrange(j, j + key.len()) == key),
    ensures
        redacted(rest, key).len() >= n,
        redacted(rest, key).take(n) == rest.take(n),
{
    let l = lower_seq(rest);
    assert forall|j: int| 0 <= j < n implies !(j + key.len() <= l.len() && #[trigger] l.subrange(j, j + key.len()) == key) by {
        assert(lower_seq(rest).subrange(j, j + key.len()) == l.subrange(j, j + key.len()));
    }
    lemma_find_skips(l, key, 0, n);
    lemma_find_from(l, key, n);
    match find_from(l, key, 0) {
        None => {},
        Some(pos) => {
            let after = pos + key.len();
            let tail = rest.skip(after);
            lemma_first_separator(tail, 0);
            match first_separator(tail, 0) {
                Some(off) => if utf8_bytes(tail.take(off)) <= 2 {
                    let sep = after + off + 1;
                    let remaining = rest.skip(sep);
                    let end = value_end(remaining, 0, header_key(key));
                    if 0 <= pos && 0 <= off && after <= rest.len() && sep <= rest.len() && 0 <= end
                        <= remaining.len() {
                        let r = rest.take(sep) + "<redacted>"@ + redacted(remaining.skip(end), key);
                        assert(r.take(n) =~= rest.take(n));
                    }
                } else if 0 <= pos && after <= rest.len() {
                    let r = rest.take(after) + redacted(tail, key);
                    assert(r.take(n) =~= rest.take(n));
                },
                None => if 0 <= pos && after <= rest.len() {
                    let r = rest.take(after) + redacted(tail, key);
                    assert(r.take(n) =~= rest.take(n));
                },
            }
        },
    }
}

/// A single line that starts with `Authorization:` (the name in any case)
/// keeps what begins with the header name in every step before the last
/// one, and stays a single line.
proof fn lemma_header_survives(line: Seq<char>, key: Seq<char>)
    requires
        line.len() >= 14,
        lower_seq(line.take(14)) == "authorization:"@,
        single_line(line),
        key == "token"@ || key == "password"@ || key == "passwd"@ || key == "secret"@,
    ensures
        redacted(line, key).len() >= 14,
        redacted(line, key).take(14) == line.take(14),
        single_line(redacted(line, key)),
{
    reveal_strlit("authorization:");
    reveal_strlit("token");
    reveal_strlit("password");
    reveal_strlit("passwd");
    reveal_strlit("secret");
    let l = lower_seq(line);
    assert forall|j: int| 0 <= j < 14 implies #[trigger] l[j] == "authorization:"@[j] by {
        assert(lower_seq(line.take(14))[j] == ascii_lower(line[j]));
    }
    if line.len() == 14 {
        assert forall|j: int| 0 <= j < 14 implies !(j + key.len() <= line.len() && #[trigger] lower_seq(line).subrange(j, j + key.len()) == key) by {
            if j + key.len() <= line.len() {
                lemma_no_match_in_head(l, key, j + 1);
            }
        }
    } else {
        lemma_no_match_in_head(l, key, 14);
    }
    lemma_redacted_keeps_head(line, key, 14);
    lemma_redacted_single_line(line, key);
}

proof fn lemma_line_end(s: Seq<char>, i: int)
    requires
        single_line(s),
        0 <= i <= s.len(),
    ensures
        value_end(s, i, true) == s.len(),
    decreases s.len() - i,
{
    if i < s.len() {
        lemma_line_end(s, i + 1);
    }
}

/// An `Authorization` header line (the name in any case, then `:`) keeps
/// its name and loses its whole value, `Bearer <token>` or otherwise: no
/// part of the credentials reaches the log buffer.
pub proof fn law_authorization_value_hidden(line: Seq<char>)
    requires
        line.len() >= 14,
        lower_seq(line.take(14)) == "authorization:"@,
        single_line(line),
    ensures
        redacted_secrets(line) == line.take(14) + "<redacted>"@,
{
    reveal_strlit("authorization:");
    reveal_strlit("authorization");
    let h = line.take(14);
    lemma_header_survives(line, "token"@);
    let s1 = redacted(line, "token"@);
    assert(s1.take(14) == h && lower_seq(s1.take(14)) == "authorization:"@);
    lemma_header_survives(s1, "password"@);
    let s2 = redacted(s1, "password"@);
    assert(s2.take(14) == h && lower_seq(s2.take(14)) == "authorization:"@);
    lemma_header_survives(s2, "passwd"@);
    let s3 = redacted(s2, "passwd"@);
    assert(s3.take(14) == h && lower_seq(s3.take(14)) == "authorization:"@);
    lemma_header_survives(s3, "secret"@);
    let s4 = redacted(s3, "secret"@);
    assert(s4.take(14) == h);
    let key = "authorization"@;
    let l = lower_seq(s4);
    assert forall|j: int| 0 <= j < 14 implies #[trigger] l[j] == "authorization:"@[j] by {
        assert(lower_seq(s4.take(14))[j] == ascii_lower(s4[j]));
        assert(lower_seq(h)[j] == "authorization:"@[j]);
    }
    assert(l.subrange(0, 13) =~= key);
    assert(find_from(l, key, 0) == Some(0int));
    let tail = s4.skip(13);
    assert(l[13] == "authorization:"@[13] && l[13] == ascii_lower(s4[13]));
    assert(ascii_lower(s4[13]) == ':');
    assert(s4[13] == ':');
    assert(tail[0] == ':');
    assert(first_separator(tail, 0) == Some(0int));
    let remaining = s4.skip(14);
    assert(single_line(remaining));
    assert(header_key(key));
    lemma_line_end(remaining, 0);
    assert(remaining.skip(remaining.len() as int) =~= Seq::<char>::empty());
    assert(redacted(Seq::<char>::empty(), key) == Seq::<char>::empty());
    assert(redacted(s4, key) == s4.take(14) + "<redacted>"@ + Seq::<char>::empty());
    assert(redacted(s4, key) =~= h + "<redacted>"@);
}

} // verus!
