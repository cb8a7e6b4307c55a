//! Basic authentication of the web interface.
use crate::text::{chars_of, slice_chars, str_eq, string_of};
use base64::Engine;
use vstd::prelude::*;
use vstd::utf8::{decode_utf8, encode_utf8, valid_utf8};

verus! {

/// What standard Base64 decoding (with padding) gives for a text; `None`
/// when the text is no valid Base64.
pub uninterp spec fn base64_decoded(text: Seq<char>) -> Option<Seq<u8>>;

/// The character of the standard Base64 alphabet (RFC 4648) for a six-bit
/// value.
pub open spec fn base64_char(v: int) -> char {
    if v < 26 {
        (65 + v) as char
    } else if v < 52 {
        (97 + v - 26) as char
    } else if v < 62 {
        (48 + v - 52) as char
    } else if v == 62 {
        '+'
    } else {
        '/'
    }
}

/// The standard Base64 encoding of bytes, with `=` padding (RFC 4648).
pub open spec fn base64_standard(b: Seq<u8>) -> Seq<char>
    decreases b.len(),
{
    if b.len() == 0 {
        Seq::empty()
    } else {
        let x = b[0] as int;
        let y = if b.len() > 1 { b[1] as int } else { 0 };
        let z = if b.len() > 2 { b[2] as int } else { 0 };
        let c1 = base64_char(x / 4);
        let c2 = base64_char((x % 4) * 16 + y / 16);
        let c3 = base64_char((y % 16) * 4 + z / 64);
        let c4 = base64_char(z % 64);
        if b.len() == 1 {
            seq![c1, c2, '=', '=']
        } else if b.len() == 2 {
            seq![c1, c2, c3, '=']
        } else {
            seq![c1, c2, c3, c4] + base64_standard(b.skip(3))
        }
    }
}

/// `base64::engine::general_purpose::STANDARD.decode` of the `base64`
/// crate; the result is named. Besides, the contract states the crate's
/// documented round trip: the standard (padded, canonical) encoding of some
/// bytes decodes to those bytes.
#[verifier::external_body]
fn base64_decode(text: &str) -> (r: Option<Vec<u8>>)
    ensures
        match r {
            Some(b) => base64_decoded(text@) == Some(b@),
            None => base64_decoded(text@) is None,
        },
        forall|b: Seq<u8>| #[trigger] base64_standard(b) == text@ ==> r is Some && r->0@ == b,
{
    base64::engine::general_purpose::STANDARD.decode(text).ok()
}

/// `String::from_utf8`: the text when the bytes are valid UTF-8.
#[verifier::external_body]
fn utf8_text(bytes: Vec<u8>) -> (r: Option<String>)
    ensures
        match r {
            Some(s) => valid_utf8(bytes@) && s@ == decode_utf8(bytes@),
            None => !valid_utf8(bytes@),
        },
{
    String::from_utf8(bytes).ok()
}

/// The answer to a request of the web interface.
#[derive(Clone, Copy, PartialEq, Eq, Structural, Debug)]
pub enum AuthDecision {
    /// No password is configured: the interface stays closed.
    NotConfigured,
    Authorized,
    Unauthorized,
}

/// The position of the first `:`.
pub open spec fn colon_at(s: Seq<char>, i: int) -> bool {
    0 <= i < s.len() && s[i] == ':' && forall|k: int| 0 <= k < i ==> s[k] != ':'
}

/// The credentials of an `Authorization` header: after `Basic `, Base64 of
/// UTF-8 text `user:password`, split at the first colon.
pub open spec fn header_credentials(header: Seq<char>) -> Option<(Seq<char>, Seq<char>)> {
    if !"Basic "@.is_prefix_of(header) {
        None
    } else {
        match base64_decoded(header.skip(6)) {
            None => None,
            Some(bytes) => if !valid_utf8(bytes) {
                None
            } else {
                let text = decode_utf8(bytes);
                if exists|i: int| colon_at(text, i) {
                    let i = choose|i: int| colon_at(text, i);
                    Some((text.take(i), text.skip(i + 1)))
                } else {
                    None
                }
            },
        }
    }
}

/// The decision on a request: closed without a configured password (an
/// empty one counts as none); open for the configured user (default
/// `admin`) with the password; refused otherwise.
pub open spec fn auth_decision_of(
    expected_password: Option<Seq<char>>,
    expected_user: Option<Seq<char>>,
    header: Option<Seq<char>>,
) -> AuthDecision {
    match expected_password {
        None => AuthDecision::NotConfigured,
        Some(pw) => if pw.len() == 0 {
            AuthDecision::NotConfigured
        } else {
            let user = match expected_user {
                Some(u) => u,
                None => "admin"@,
            };
            match header {
                None => AuthDecision::Unauthorized,
                Some(h) => match header_credentials(h) {
                    Some((u, p)) => if u == user && p == pw {
                        AuthDecision::Authorized
                    } else {
                        AuthDecision::Unauthorized
                    },
                    None => AuthDecision::Unauthorized,
                },
            }
        },
    }
}

/// The `Authorization` header that a client sends for a user and a
/// password: `Basic ` and the standard Base64 of the UTF-8 text
/// `user:password`.
pub open spec fn basic_header(user: Seq<char>, password: Seq<char>) -> Seq<char> {
    "Basic "@ + base64_standard(encode_utf8(user + ":"@ + password))
}

proof fn lemma_basic_header_parts(u: Seq<char>, p: Seq<char>, header: Seq<char>)
    requires
        basic_header(u, p) == header,
    ensures
        "Basic "@.is_prefix_of(header),
        header.skip(6) == base64_standard(encode_utf8(u + ":"@ + p)),
{
    reveal_strlit("Basic ");
    let b = base64_standard(encode_utf8(u + ":"@ + p));
    assert(header.take(6) =~= "Basic "@);
    assert(header.skip(6) =~= b);
}

/// In `user:password` with no colon in the user, the first colon is the
/// one after the user.
proof fn lemma_first_colon(u: Seq<char>, p: Seq<char>, i: int)
    requires
        !u.contains(':'),
        colon_at(u + ":"@ + p, i),
    ensures
        (u + ":"@ + p).take(i) == u,
        (u + ":"@ + p).skip(i + 1) == p,
{
    reveal_strlit(":");
    let t = u + ":"@ + p;
    assert(t[u.len() as int] == ':');
    if i < u.len() {
        assert(t[i] == u[i]);
        assert(u.contains(u[i]));
    }
    assert(i == u.len());
    assert(t.take(i) =~= u);
    assert(t.skip(i + 1) =~= p);
}

fn credentials(header: &str) -> (r: Option<(String, String)>)
    ensures
        match r {
            Some((u, p)) => header_credentials(header@) == Some((u@, p@)),
            None => header_credentials(header@) is None,
        },
        forall|u: Seq<char>, p: Seq<char>|
            #[trigger] basic_header(u, p) == header@ && !u.contains(':') ==> match r {
                Some((a, b)) => a@ == u && b@ == p,
                None => false,
            },
{
    let h = chars_of(header);
    if !crate::text::str_has_prefix(&h, "Basic ") {
        return None;
    }
    proof {
        reveal_strlit("Basic ");
    }
    let rest = slice_chars(&h, 6, h.len());
    assert(rest@ =~= header@.skip(6));
    let encoded = string_of(&rest);
    let bytes = match base64_decode(encoded.as_str()) {
        None => {
            proof {
                assert forall|u: Seq<char>, p: Seq<char>|
                    #[trigger] basic_header(u, p) == header@ && !u.contains(':') implies false by {
                    lemma_basic_header_parts(u, p, header@);
                    assert(base64_standard(encode_utf8(u + ":"@ + p)) == encoded@);
                }
            }
            return None;
        },
        Some(b) => b,
    };
    let ghost bv = bytes@;
    proof {
        assert forall|u: Seq<char>, p: Seq<char>|
            #[trigger] basic_header(u, p) == header@ implies bv == encode_utf8(u + ":"@ + p) by {
            lemma_basic_header_parts(u, p, header@);
            assert(base64_standard(encode_utf8(u + ":"@ + p)) == encoded@);
        }
    }
    let text = match utf8_text(bytes) {
        None => {
            proof {
                assert forall|u: Seq<char>, p: Seq<char>|
                    #[trigger] basic_header(u, p) == header@ && !u.contains(':') implies false by {
                    vstd::utf8::encode_utf8_valid_utf8(u + ":"@ + p);
                }
            }
            return None;
        },
        Some(t) => t,
    };
    proof {
        assert forall|u: Seq<char>, p: Seq<char>|
            #[trigger] basic_header(u, p) == header@ implies text@ == u + ":"@ + p by {
            vstd::utf8::encode_utf8_decode_utf8(u + ":"@ + p);
        }
    }
    let t = chars_of(text.as_str());
    let mut i: usize = 0;
    while i < t.len() && t[i] != ':'
        invariant
            i <= t@.len(),
            forall|k: int| 0 <= k < i ==> t@[k] != ':',
        decreases t.len() - i,
    {
        i = i + 1;
    }
    if i == t.len() {
        proof {
            assert forall|u: Seq<char>, p: Seq<char>|
                #[trigger] basic_header(u, p) == header@ && !u.contains(':') implies false by {
                reveal_strlit(":");
                assert(t@[u.len() as int] == ':');
            }
        }
        assert(!exists|j: int| colon_at(t@, j)) by {
            if exists|j: int| colon_at(t@, j) {
                let j = choose|j: int| colon_at(t@, j);
                assert(t@[j] != ':');
            }
        }
        return None;
    }
    assert(colon_at(t@, i as int));
    proof {
        let j = choose|j: int| colon_at(t@, j);
        if j < i {
            assert(t@[j] != ':');
        }
        if i < j {
            assert(t@[i as int] != ':');
        }
        assert forall|u: Seq<char>, p: Seq<char>|
            #[trigger] basic_header(u, p) == header@ && !u.contains(':') implies t@.take(i as int) == u
                && t@.skip(i + 1) == p by {
            lemma_first_colon(u, p, i as int);
        }
    }
    let user = slice_chars(&t, 0, i);
    let password = slice_chars(&t, i + 1, t.len());
    assert(user@ =~= t@.take(i as int));
    assert(password@ =~= t@.skip(i + 1));
    Some((string_of(&user), string_of(&password)))
}

/// Decides a request of the web interface from the configured password
/// and user (`XDCC_WEB_AUTH_PASSWORD`, `XDCC_WEB_AUTH_USER`) and the
/// request's `Authorization` header.
pub fn auth_decision(expected_password: Option<&str>, expected_user: Option<&str>, header: Option<&str>) -> (r:
    AuthDecision)
    ensures
        r == auth_decision_of(
            match expected_password {
                Some(p) => Some(p@),
                None => None,
            },
            match expected_user {
                Some(u) => Some(u@),
                None => None,
            },
            match header {
                Some(h) => Some(h@),
                None => None,
            },
        ),
        match (expected_password, header) {
            (Some(pw), Some(h)) => {
                let user = match expected_user {
                    Some(u) => u@,
                    None => "admin"@,
                };
                pw@.len() > 0 && !user.contains(':') && h@ == basic_header(user, pw@) ==> r
                    == AuthDecision::Authorized
            },
            _ => true,
        },
{
    let pw = match expected_password {
        None => {
            return AuthDecision::NotConfigured;
        },
        Some(p) => p,
    };
    let pv = chars_of(pw);
    if pv.len() == 0 {
        return AuthDecision::NotConfigured;
    }
    let h = match header {
        None => {
            return AuthDecision::Unauthorized;
        },
        Some(h) => h,
    };
    let (u, p) = match credentials(h) {
        None => {
            return AuthDecision::Unauthorized;
        },
        Some(c) => c,
    };
    let user_ok = match expected_user {
        Some(eu) => str_eq(u.as_str(), eu),
        None => str_eq(u.as_str(), "admin"),
    };
    if user_ok && str_eq(p.as_str(), pw) {
        AuthDecision::Authorized
    } else {
        AuthDecision::Unauthorized
    }
}

} // verus!
