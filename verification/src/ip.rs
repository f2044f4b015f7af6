//! Extraction of the caller's public IPv4 address from a trace-style
//! response body.
//!
//! The IP echo endpoint answers with newline-separated `key=value` text.
//! The extractor splits the body on ASCII whitespace and returns the value
//! of the first token whose text up to its first `=` is exactly `ip`.

use vstd::prelude::*;
use crate::errors::DdnsError;

verus! {

/// The ASCII whitespace characters that separate response tokens.
pub open spec fn is_ws(c: char) -> bool {
    c == ' ' || c == '\t' || c == '\n' || c == '\u{c}' || c == '\r'
}

/// Length of the leading run of non-whitespace characters.
pub open spec fn token_end(s: Seq<char>) -> int
    decreases s.len(),
{
    if s.len() == 0 || is_ws(s[0]) {
        0
    } else {
        1 + token_end(s.drop_first())
    }
}

pub proof fn lemma_token_end_bounds(s: Seq<char>)
    ensures
        0 <= token_end(s) <= s.len(),
        forall|k: int| 0 <= k < token_end(s) ==> !is_ws(s[k]),
        token_end(s) < s.len() ==> is_ws(s[token_end(s)]),
    decreases s.len(),
{
    if s.len() == 0 || is_ws(s[0]) {
    } else {
        let rest = s.drop_first();
        lemma_token_end_bounds(rest);
        assert forall|k: int| 0 <= k < token_end(s) implies !is_ws(s[k]) by {
            if k > 0 {
                assert(rest[k - 1] == s[k]);
            }
        }
        if token_end(s) < s.len() {
            assert(rest[token_end(s) - 1] == s[token_end(s)]);
        }
    }
}

/// The leading token ends exactly where the first whitespace character
/// stands (or at the end of the text, if there is none).
pub proof fn lemma_token_end_eq(s: Seq<char>, m: int)
    requires
        0 <= m <= s.len(),
        forall|k: int| 0 <= k < m ==> !is_ws(s[k]),
        m < s.len() ==> is_ws(s[m]),
    ensures
        token_end(s) == m,
{
    lemma_token_end_bounds(s);
    let te = token_end(s);
    if te < m {
        assert(is_ws(s[te]));
        assert(!is_ws(s[te]));
    }
    if m < te {
        assert(!is_ws(s[m]));
        assert(is_ws(s[m]));
    }
}

/// The whitespace-separated tokens of the response body, in order.
pub open spec fn split_ws(s: Seq<char>) -> Seq<Seq<char>>
    decreases s.len()
        via split_ws_decreases
{
    if s.len() == 0 {
        Seq::empty()
    } else if is_ws(s[0]) {
        split_ws(s.drop_first())
    } else {
        seq![s.take(token_end(s))] + split_ws(s.skip(token_end(s)))
    }
}

#[via_fn]
proof fn split_ws_decreases(s: Seq<char>) {
    if s.len() > 0 && !is_ws(s[0]) {
        lemma_token_end_bounds(s);
        lemma_token_end_bounds(s.drop_first());
    }
}

/// A token that carries the IP: its first `=` stands right after the
/// leading key `ip`. (Since neither `i` nor `p` is `=`, this says exactly
/// that the part before the token's first `=` equals `ip`.)
pub open spec fn is_ip_token(t: Seq<char>) -> bool {
    t.len() >= 3 && t[0] == 'i' && t[1] == 'p' && t[2] == '='
}

/// The value part of an `ip=` token: everything after the first `=`.
pub open spec fn ip_value(t: Seq<char>) -> Seq<char> {
    t.skip(3)
}

/// The value of the first `ip=` token of a token list, if any.
pub open spec fn first_ip(tokens: Seq<Seq<char>>) -> Option<Seq<char>>
    decreases tokens.len(),
{
    if tokens.len() == 0 {
        None
    } else if is_ip_token(tokens[0]) {
        Some(ip_value(tokens[0]))
    } else {
        first_ip(tokens.drop_first())
    }
}

/// What IP extraction yields on a response body.
pub open spec fn extracted_ip(s: Seq<char>) -> Option<Seq<char>> {
    first_ip(split_ws(s))
}

/// If entry `k` of a token list is an `ip=` token and no earlier entry is
/// one, the list yields that entry's value.
proof fn lemma_first_ip_found(tokens: Seq<Seq<char>>, k: int)
    requires
        0 <= k < tokens.len(),
        is_ip_token(tokens[k]),
        forall|j: int| 0 <= j < k ==> !is_ip_token(tokens[j]),
    ensures
        first_ip(tokens) == Some(ip_value(tokens[k])),
    decreases k,
{
    if k > 0 {
        let rest = tokens.drop_first();
        assert(!is_ip_token(tokens[0]));
        assert forall|j: int| 0 <= j < k - 1 implies !is_ip_token(rest[j]) by {
            assert(rest[j] == tokens[j + 1]);
        }
        assert(rest[k - 1] == tokens[k]);
        lemma_first_ip_found(rest, k - 1);
    }
}

/// A token list without any `ip=` token yields nothing.
proof fn lemma_first_ip_absent(tokens: Seq<Seq<char>>)
    requires
        forall|j: int| 0 <= j < tokens.len() ==> !is_ip_token(tokens[j]),
    ensures
        first_ip(tokens) is None,
    decreases tokens.len(),
{
    if tokens.len() > 0 {
        let rest = tokens.drop_first();
        assert(!is_ip_token(tokens[0]));
        assert forall|j: int| 0 <= j < rest.len() implies !is_ip_token(rest[j]) by {
            assert(rest[j] == tokens[j + 1]);
        }
        lemma_first_ip_absent(rest);
    }
}

/// Law: whenever a response body holds an `ip=` token at position `k` of
/// its token list, with none earlier, extraction returns exactly that
/// token's value — whatever other tokens surround it.
pub proof fn lemma_response_ip_found(s: Seq<char>, k: int)
    requires
        0 <= k < split_ws(s).len(),
        is_ip_token(split_ws(s)[k]),
        forall|j: int| 0 <= j < k ==> !is_ip_token(split_ws(s)[j]),
    ensures
        extracted_ip(s) == Some(ip_value(split_ws(s)[k])),
{
    lemma_first_ip_found(split_ws(s), k);
}

/// Law: a response body with no `ip=` token among its tokens extracts
/// nothing, so extraction fails with `NoIpFound`.
pub proof fn lemma_response_ip_absent(s: Seq<char>)
    requires
        forall|j: int| 0 <= j < split_ws(s).len() ==> !is_ip_token(split_ws(s)[j]),
    ensures
        extracted_ip(s) is None,
{
    lemma_first_ip_absent(split_ws(s));
}

/// Whether `c` separates tokens.
fn ws_char(c: char) -> (r: bool)
    ensures
        r == is_ws(c),
{
    c == ' ' || c == '\t' || c == '\n' || c == '\u{c}' || c == '\r'
}

/// Extracts the current public IP from the body of a trace-style response:
/// the value of the body's first `ip=` token, or `NoIpFound` if the body
/// holds no such token.
pub fn resolve_current_ip(body: &str) -> (r: Result<String, DdnsError>)
    ensures
        match r {
            Ok(v) => extracted_ip(body@) == Some(v@),
            Err(e) => extracted_ip(body@) is None && e is NoIpFound,
        },
{
    let ghost whole: Seq<char> = body@;
    let n: usize = body.unicode_len();
    let mut i: usize = 0;
    proof {
        assert(whole.skip(0) =~= whole);
    }
    while i < n
        invariant
            i <= n,
            n == whole.len(),
            body@ == whole,
            extracted_ip(whole) == first_ip(split_ws(whole.skip(i as int))),
        decreases n - i,
    {
        let c = body.get_char(i);
        if ws_char(c) {
            proof {
                assert(whole.skip(i as int).drop_first() =~= whole.skip(i as int + 1));
            }
            i += 1;
        } else {
            let ghost s = whole.skip(i as int);
            let mut j: usize = i + 1;
            proof {
                assert(s[0] == whole[i as int]);
            }
            while j < n && !ws_char(body.get_char(j))
                invariant
                    i < j <= n,
                    n == whole.len(),
                    body@ == whole,
                    forall|k: int| i <= k < j ==> !is_ws(whole[k]),
                decreases n - j,
            {
                j += 1;
            }
            proof {
                assert forall|k: int| 0 <= k < j - i implies !is_ws(s[k]) by {
                    assert(s[k] == whole[i + k]);
                }
                if j < n {
                    assert(s[j - i] == whole[j as int]);
                }
                lemma_token_end_eq(s, j - i);
            }
            let ghost tok = s.take(j - i);
            proof {
                assert(tok =~= whole.subrange(i as int, j as int));
                assert(split_ws(s) == seq![tok] + split_ws(s.skip(j - i)));
                assert((seq![tok] + split_ws(s.skip(j - i)))[0] == tok);
                assert((seq![tok] + split_ws(s.skip(j - i))).drop_first() =~= split_ws(
                    s.skip(j - i),
                ));
            }
            let has_ip_key: bool = if j - i >= 3 {
                body.get_char(i) == 'i' && body.get_char(i + 1) == 'p' && body.get_char(i + 2)
                    == '='
            } else {
                false
            };
            proof {
                if j - i >= 3 {
                    assert(tok[0] == whole[i as int]);
                    assert(tok[1] == whole[i as int + 1]);
                    assert(tok[2] == whole[i as int + 2]);
                }
                assert(has_ip_key == is_ip_token(tok));
            }
            if has_ip_key {
                let v = body.substring_char(i + 3, j);
                let out = String::from_str(v);
                proof {
                    assert(ip_value(tok) =~= whole.subrange(i as int + 3, j as int));
                    assert(extracted_ip(whole) == Some(out@));
                }
                return Ok(out);
            } else {
                proof {
                    assert(s.skip(j - i) =~= whole.skip(j as int));
                }
                i = j;
            }
        }
    }
    proof {
        assert(whole.skip(n as int) =~= Seq::<char>::empty());
    }
    Err(DdnsError::NoIpFound)
}

} // verus!
