//! Character-level helpers: ASCII whitespace scanning for the
//! `Authorization` header grammar, string equality, and the alphanumeric
//! alphabet that salts and session tokens are drawn from.

use vstd::prelude::*;
use vstd::string::StrSliceExecFns;

verus! {

/// Characters the header tokenizer treats as blank: the ASCII whitespace set.
pub open spec fn is_space(c: char) -> bool {
    c == ' ' || c == '\t' || c == '\n' || c == '\r' || c == '\u{b}' || c == '\u{c}'
}

/// The alphabet of salts and session tokens: ASCII letters and digits.
pub open spec fn is_alnum(c: char) -> bool {
    ('a' <= c && c <= 'z') || ('A' <= c && c <= 'Z') || ('0' <= c && c <= '9')
}

/// Index of the first non-blank character at or after `i`.
pub open spec fn scan_ws(s: Seq<char>, i: int) -> int
    decreases s.len() - i,
{
    if i < 0 || i >= s.len() {
        i
    } else if is_space(s[i]) {
        scan_ws(s, i + 1)
    } else {
        i
    }
}

/// Index of the first blank character at or after `i`: the end of the
/// token that starts at `i`.
pub open spec fn scan_tok(s: Seq<char>, i: int) -> int
    decreases s.len() - i,
{
    if i < 0 || i >= s.len() {
        i
    } else if !is_space(s[i]) {
        scan_tok(s, i + 1)
    } else {
        i
    }
}

/// Index of the first `':'` at or after `i`.
pub open spec fn scan_colon(s: Seq<char>, i: int) -> int
    decreases s.len() - i,
{
    if i < 0 || i >= s.len() {
        i
    } else if s[i] == ':' {
        i
    } else {
        scan_colon(s, i + 1)
    }
}

/// Where an `Authorization` value's scheme token starts and ends, and
/// where its payload token starts and ends.
pub open spec fn scheme_start(s: Seq<char>) -> int {
    scan_ws(s, 0)
}

pub open spec fn scheme_end(s: Seq<char>) -> int {
    scan_tok(s, scheme_start(s))
}

pub open spec fn payload_start(s: Seq<char>) -> int {
    scan_ws(s, scheme_end(s))
}

pub open spec fn payload_end(s: Seq<char>) -> int {
    scan_tok(s, payload_start(s))
}

/// The value holds at least a scheme token.
pub open spec fn has_scheme(s: Seq<char>) -> bool {
    scheme_start(s) < s.len()
}

/// The value holds a payload token after the scheme.
pub open spec fn has_payload(s: Seq<char>) -> bool {
    payload_start(s) < s.len()
}

/// The scheme token of the value.
pub open spec fn spec_scheme(s: Seq<char>) -> Seq<char> {
    s.subrange(scheme_start(s), scheme_end(s))
}

/// The payload token of the value. Anything after it is ignored.
pub open spec fn spec_payload(s: Seq<char>) -> Seq<char> {
    s.subrange(payload_start(s), payload_end(s))
}

fn is_space_c(c: char) -> (r: bool)
    ensures
        r == is_space(c),
{
    c == ' ' || c == '\t' || c == '\n' || c == '\r' || c == '\u{b}' || c == '\u{c}'
}

/// Character-by-character string equality, stated over the views.
pub fn str_eq(a: &str, b: &str) -> (r: bool)
    ensures
        r == (a@ == b@),
{
    let n = a.unicode_len();
    let m = b.unicode_len();
    if n != m {
        return false;
    }
    let mut i: usize = 0;
    while i < n
        invariant
            i <= n,
            n == a@.len(),
            n == b@.len(),
            forall|j: int| 0 <= j < i ==> a@[j] == b@[j],
        decreases n - i,
    {
        if a.get_char(i) != b.get_char(i) {
            return false;
        }
        i += 1;
    }
    proof {
        assert(a@ =~= b@);
    }
    true
}

/// The two tokens of a single `Authorization` value: its scheme and,
/// when present, its payload.
pub struct AuthParts {
    pub scheme: String,
    pub payload: Option<String>,
}

/// Slice an `Authorization` value on ASCII whitespace into its scheme
/// token and optional payload token; further tokens are ignored.
pub fn parse_auth_value(s: &str) -> (r: Option<AuthParts>)
    ensures
        match r {
            None => !has_scheme(s@),
            Some(p) => {
                &&& has_scheme(s@)
                &&& p.scheme@ == spec_scheme(s@)
                &&& match p.payload {
                    Some(pl) => has_payload(s@) && pl@ == spec_payload(s@),
                    None => !has_payload(s@),
                }
            },
        },
{
    let n = s.unicode_len();
    let mut a: usize = 0;
    while a < n
        invariant
            a <= n,
            n == s@.len(),
            scan_ws(s@, 0) == scan_ws(s@, a as int),
        ensures
            a <= n,
            scan_ws(s@, 0) == scan_ws(s@, a as int),
            a == n || !is_space(s@[a as int]),
        decreases n - a,
    {
        let c = s.get_char(a);
        if !is_space_c(c) {
            break ;
        }
        a += 1;
    }
    proof {
        assert(scheme_start(s@) == a as int);
    }
    if a == n {
        return None;
    }
    let mut b: usize = a;
    while b < n
        invariant
            a <= b <= n,
            n == s@.len(),
            scan_tok(s@, a as int) == scan_tok(s@, b as int),
        ensures
            a <= b <= n,
            scan_tok(s@, a as int) == scan_tok(s@, b as int),
            b == n || is_space(s@[b as int]),
        decreases n - b,
    {
        let c = s.get_char(b);
        if is_space_c(c) {
            break ;
        }
        b += 1;
    }
    proof {
        assert(scheme_end(s@) == b as int);
    }
    let scheme = s.substring_char(a, b).to_owned();
    let mut c: usize = b;
    while c < n
        invariant
            b <= c <= n,
            n == s@.len(),
            scan_ws(s@, b as int) == scan_ws(s@, c as int),
        ensures
            b <= c <= n,
            scan_ws(s@, b as int) == scan_ws(s@, c as int),
            c == n || !is_space(s@[c as int]),
        decreases n - c,
    {
        let ch = s.get_char(c);
        if !is_space_c(ch) {
            break ;
        }
        c += 1;
    }
    proof {
        assert(payload_start(s@) == c as int);
    }
    if c == n {
        return Some(AuthParts { scheme, payload: None });
    }
    let mut d: usize = c;
    while d < n
        invariant
            c <= d <= n,
            n == s@.len(),
            scan_tok(s@, c as int) == scan_tok(s@, d as int),
        ensures
            c <= d <= n,
            scan_tok(s@, c as int) == scan_tok(s@, d as int),
            d == n || is_space(s@[d as int]),
        decreases n - d,
    {
        let ch = s.get_char(d);
        if is_space_c(ch) {
            break ;
        }
        d += 1;
    }
    proof {
        assert(payload_end(s@) == d as int);
    }
    let payload = s.substring_char(c, d).to_owned();
    Some(AuthParts { scheme, payload: Some(payload) })
}

} // verus!
