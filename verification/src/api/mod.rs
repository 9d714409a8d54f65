//! Stockbit endpoint modules. Each one turns typed arguments into the exact
//! request (path and query) the endpoint expects; the crate's callers send it
//! and hand back the raw JSON payload.

use vstd::prelude::*;

use crate::calendar::{
    all_digits, field_value, is_date_shape, is_digit, is_valid_date_text, month_length,
};
use crate::error::Error;
use crate::text::{
    ascii_upper, ascii_upper_char, chars_of, concat3, is_white_space, lemma_ascii_upper_facts, lemma_trim_ends,
    lemma_trim_identity, owned, string_from_chars, trim_chars, trim_spec, upper_chars,
};

pub mod broker_distribution;
pub mod emitten;
pub mod info;
pub mod keystats;
pub mod market_detectors;
pub mod orderbook;
pub mod profile;
pub mod shareholders;
pub mod trade_book;

verus! {

/// A GET request relative to a client's base URL: path plus query pairs, in order.
#[derive(Debug, Clone, PartialEq, Eq)]
pub struct ApiRequest {
    pub path: String,
    pub query: Vec<(String, String)>,
}

/// A request as plain values: the path and the query pairs.
pub open spec fn request_view(r: ApiRequest) -> (Seq<char>, Seq<(Seq<char>, Seq<char>)>) {
    (r.path@, query_view(r.query@))
}

/// Whether `res` is the outcome `expected` describes: the request `v` for
/// `Ok(v)`, an [`Error::InvalidDate`] naming `input` for `Err(input)`.
pub open spec fn outcome_is(
    res: Result<ApiRequest, Error>,
    expected: Result<(Seq<char>, Seq<(Seq<char>, Seq<char>)>), Seq<char>>,
) -> bool {
    match expected {
        Ok(v) => res matches Ok(r) && request_view(r) == v,
        Err(input) => res matches Err(Error::InvalidDate { input: i }) && i@ == input,
    }
}

/// The normal form of a ticker symbol: trimmed of white space, ASCII letters upper-cased.
pub open spec fn normalized_symbol(s: Seq<char>) -> Seq<char> {
    ascii_upper(trim_spec(s))
}

/// Normalize a symbol: trim surrounding white space and upper-case ASCII letters.
pub fn normalize_symbol(s: &str) -> (res: String)
    ensures
        res@ == normalized_symbol(s@),
        forall|i: int| 0 <= i < res@.len() ==> !('a' <= #[trigger] res@[i] <= 'z'),
        res@.len() > 0 ==> !is_white_space(res@[0]) && !is_white_space(res@.last()),
        res@.len() <= s@.len(),
{
    proof {
        lemma_normalized_shape(s@);
    }
    let t = trim_chars(s);
    let u = upper_chars(&t);
    string_from_chars(&u)
}

/// Validate `YYYY-MM-DD` strictly: format AND that month/day are real calendar
/// values (rejects 2026-13-01, 2026-02-30, etc).
pub fn validate_date(s: &str) -> (res: Result<&str, Error>)
    ensures
        match res {
            Ok(t) => is_valid_date_text(s@) && t == s,
            Err(e) => !is_valid_date_text(s@) && (e matches Error::InvalidDate { input } && input@
                == s@),
        },
{
    let cs = chars_of(s);
    let shape_ok = cs.len() == 10 && cs[4] == '-' && cs[7] == '-' && digits_between(&cs, 0, 4)
        && digits_between(&cs, 5, 7) && digits_between(&cs, 8, 10);
    if !shape_ok {
        return Err(Error::InvalidDate { input: owned(s) });
    }
    assert(is_date_shape(s@));
    let year = field_value(&cs, 0, 4) as u32;
    let month = field_value(&cs, 5, 7) as u32;
    let day = field_value(&cs, 8, 10) as u32;
    if !(1 <= month && month <= 12) || day < 1 || day > days_in_month(year, month) {
        return Err(Error::InvalidDate { input: owned(s) });
    }
    Ok(s)
}

/// Whether `cs[lo..hi]` are all ASCII digits.
fn digits_between(cs: &Vec<char>, lo: usize, hi: usize) -> (res: bool)
    requires
        lo <= hi <= cs.len(),
    ensures
        res == all_digits(cs@.subrange(lo as int, hi as int)),
{
    let mut i: usize = lo;
    while i < hi
        invariant
            lo <= i <= hi <= cs.len(),
            forall|j: int| lo <= j < i ==> is_digit(#[trigger] cs@[j]),
        decreases hi - i,
    {
        if !('0' <= cs[i] && cs[i] <= '9') {
            assert(!is_digit(cs@.subrange(lo as int, hi as int)[i - lo]));
            return false;
        }
        i = i + 1;
    }
    assert forall|j: int| 0 <= j < hi - lo implies is_digit(
        #[trigger] cs@.subrange(lo as int, hi as int)[j],
    ) by {
        assert(cs@.subrange(lo as int, hi as int)[j] == cs@[lo + j]);
    }
    true
}

/// Days in `month` of `year`; 0 for a month outside 1..=12.
pub fn days_in_month(year: u32, month: u32) -> (res: u32)
    ensures
        res == month_length(year as int, month as int),
{
    if month == 1 || month == 3 || month == 5 || month == 7 || month == 8 || month == 10 || month
        == 12 {
        31
    } else if month == 4 || month == 6 || month == 9 || month == 11 {
        30
    } else if month == 2 {
        if (year % 4 == 0 && year % 100 != 0) || year % 400 == 0 {
            29
        } else {
            28
        }
    } else {
        0
    }
}


/// The query of a request as plain character sequences.
pub open spec fn query_view(q: Seq<(String, String)>) -> Seq<(Seq<char>, Seq<char>)> {
    q.map_values(|p: (String, String)| (p.0@, p.1@))
}

/// The pair `(name, value)`.
pub fn query_pair(name: &str, value: &str) -> (res: (String, String))
    ensures
        res.0@ == name@,
        res.1@ == value@,
{
    (owned(name), owned(value))
}

/// A request for `path` with no query.
pub fn bare_request(path: String) -> (res: ApiRequest)
    ensures
        res.path == path,
        res.query@.len() == 0,
{
    ApiRequest { path, query: Vec::new() }
}

/// Path `prefix + normalize_symbol(symbol) + suffix`.
pub fn symbol_path(prefix: &str, symbol: &str, suffix: &str) -> (res: String)
    ensures
        res@ == prefix@ + normalized_symbol(symbol@) + suffix@,
{
    let sym = normalize_symbol(symbol);
    concat3(prefix, sym.as_str(), suffix)
}


/// A trimmed, upper-cased sequence is already in normal form.
pub proof fn lemma_normal_form(t: Seq<char>)
    requires
        t.len() > 0 ==> !is_white_space(t[0]) && !is_white_space(t.last()),
        ascii_upper(t) == t,
    ensures
        normalized_symbol(t) == t,
{
    lemma_trim_identity(t);
}

/// Normalizing a normalized symbol changes nothing.
pub proof fn lemma_normalize_idempotent(s: Seq<char>)
    ensures
        normalized_symbol(normalized_symbol(s)) == normalized_symbol(s),
{
    let t = trim_spec(s);
    lemma_trim_ends(s);
    lemma_ascii_upper_facts(t);
    let u = ascii_upper(t);
    if u.len() > 0 {
        assert(is_white_space(u[0]) == is_white_space(t[0]));
        assert(is_white_space(u[u.len() - 1]) == is_white_space(t[t.len() - 1]));
    }
    lemma_normal_form(u);
}

/// A normalized symbol has no lowercase ASCII letter and no white space at
/// either end, and is never longer than the input.
pub proof fn lemma_normalized_shape(s: Seq<char>)
    ensures
        forall|i: int|
            0 <= i < normalized_symbol(s).len() ==> !('a' <= #[trigger] normalized_symbol(s)[i] <= 'z'),
        normalized_symbol(s).len() > 0 ==> !is_white_space(normalized_symbol(s)[0])
            && !is_white_space(normalized_symbol(s).last()),
        normalized_symbol(s).len() <= s.len(),
{
    let t = trim_spec(s);
    lemma_trim_ends(s);
    lemma_ascii_upper_facts(t);
    let u = normalized_symbol(s);
    assert forall|i: int| 0 <= i < u.len() implies !('a' <= #[trigger] u[i] <= 'z') by {
        assert(u[i] == ascii_upper_char(t[i]));
    }
    if u.len() > 0 {
        assert(is_white_space(u[0]) == is_white_space(t[0]));
        assert(is_white_space(u[u.len() - 1]) == is_white_space(t[t.len() - 1]));
    }
}

} // verus!
