//! Small helpers shared across clients: bounded error bodies and base URLs
//! with a trailing slash.

use vstd::prelude::*;

use crate::error::Error;
use crate::http::{parse_url, url_parse};
use crate::text::{chars_of, concat2, ends_with, has_suffix, owned, string_from_chars};

verus! {

/// `s` when it has at most `max` characters; otherwise its first `max`
/// characters followed by `…`.
pub open spec fn truncated(s: &str, max: nat) -> Seq<char> {
    if s@.len() <= max {
        s@
    } else {
        s@.take(max as int).push('…')
    }
}

/// Truncate a string to at most `max` characters (not bytes), appending `…`
/// when cut. Never splits a UTF-8 scalar. Used to bound error bodies.
pub fn truncate(s: &str, max: usize) -> (res: String)
    ensures
        res@ == truncated(s, max as nat),
{
    let cs = chars_of(s);
    if cs.len() <= max {
        owned(s)
    } else {
        let mut out: Vec<char> = Vec::new();
        let mut i: usize = 0;
        while i < max
            invariant
                max < cs.len(),
                i <= max,
                out@ == cs@.take(i as int),
            decreases max - i,
        {
            out.push(cs[i]);
            assert(cs@.take(i as int).push(cs@[i as int]) =~= cs@.take(i + 1));
            i = i + 1;
        }
        out.push('…');
        string_from_chars(&out)
    }
}

/// `s` with a `/` appended unless it already ends with one.
pub open spec fn slash_terminated(s: Seq<char>) -> Seq<char> {
    if has_suffix(s, seq!['/']) {
        s
    } else {
        s.push('/')
    }
}

/// Parse `s` as a URL, guaranteeing a trailing slash so a relative join
/// appends under (rather than replaces) the final path segment.
pub fn with_trailing_slash(s: &str) -> (res: Result<String, Error>)
    ensures
        res is Ok <==> url_parse(slash_terminated(s@)) is Some,
        res matches Ok(u) ==> url_parse(slash_terminated(s@)) == Some(u@),
        res matches Err(e) ==> e is Url,
{
    let cs = chars_of(s);
    proof {
        reveal_strlit("/");
        assert("/"@ =~= seq!['/']);
    }
    let parsed = if ends_with(&cs, "/") {
        proof {
            reveal_strlit("/");
        }
        parse_url(s)
    } else {
        let t = concat2(s, "/");
        proof {
            reveal_strlit("/");
            assert(t@ =~= s@.push('/'));
        }
        parse_url(t.as_str())
    };
    match parsed {
        Ok(u) => Ok(u),
        Err(e) => Err(Error::Url(e)),
    }
}


/// A truncated string keeps a prefix of the input and is at most one
/// character (the ellipsis) longer than `max`; a string of at most `max`
/// characters is kept whole.
pub proof fn lemma_truncated_shape(s: &str, max: nat)
    ensures
        truncated(s, max).len() <= max + 1,
        s@.len() <= max ==> truncated(s, max) == s@,
        s@.len() > max ==> truncated(s, max).len() == max + 1 && truncated(s, max).drop_last()
            == s@.take(max as int) && truncated(s, max).last() == '…',
{
}

/// A slash-terminated string ends with `/`, and terminating it again changes nothing.
pub proof fn lemma_slash_terminated(s: Seq<char>)
    ensures
        has_suffix(slash_terminated(s), seq!['/']),
        slash_terminated(slash_terminated(s)) == slash_terminated(s),
{
    let t = slash_terminated(s);
    if !has_suffix(s, seq!['/']) {
        assert(t.skip(t.len() - 1) =~= seq!['/']);
    }
}

} // verus!
