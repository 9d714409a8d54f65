//! Character-level string helpers shared across the crate: whitespace
//! trimming, ASCII case mapping, affix and substring tests, all stated over
//! the character sequence that `@` gives a string.

use vstd::prelude::*;
use vstd::string::*;

verus! {

broadcast use vstd::string::group_string_axioms;

/// The characters of `s`, in order.
pub fn chars_of(s: &str) -> (res: Vec<char>)
    ensures
        res@ == s@,
{
    let mut res: Vec<char> = Vec::new();
    for c in it: s.chars()
        invariant
            res@ == it.seq().take(it.index() as int),
            it.seq() == s@,
    {
        res.push(c);
    }
    res
}

/// Appends one character to a string (`String::push`).
#[verifier::external_body]
pub(crate) fn push_char(s: &mut String, c: char)
    ensures
        final(s)@ == old(s)@.push(c),
{
    s.push(c);
}

/// A new string holding the characters of `s`.
pub fn owned(s: &str) -> (res: String)
    ensures
        res@ == s@,
{
    s.to_owned()
}

/// Appends `tail` to `s`.
pub fn append_str(s: &mut String, tail: &str)
    ensures
        final(s)@ == old(s)@ + tail@,
{
    s.append(tail);
}

/// Builds a string from the characters `cs`.
pub fn string_from_chars(cs: &[char]) -> (res: String)
    ensures
        res@ == cs@,
{
    let mut res = String::new();
    let mut i: usize = 0;
    while i < cs.len()
        invariant
            i <= cs.len(),
            res@ == cs@.take(i as int),
        decreases cs.len() - i,
    {
        push_char(&mut res, cs[i]);
        assert(cs@.take(i as int).push(cs@[i as int]) =~= cs@.take(i + 1));
        i = i + 1;
    }
    assert(cs@.take(cs.len() as int) =~= cs@);
    res
}

/// `a` followed by `b`.
pub fn concat2(a: &str, b: &str) -> (res: String)
    ensures
        res@ == a@ + b@,
{
    let mut r = owned(a);
    append_str(&mut r, b);
    r
}

/// `a`, `b` and `c` in sequence.
pub fn concat3(a: &str, b: &str, c: &str) -> (res: String)
    ensures
        res@ == a@ + b@ + c@,
{
    let mut r = owned(a);
    append_str(&mut r, b);
    append_str(&mut r, c);
    r
}

/// Character-wise equality of two strings.
pub fn str_eq(a: &str, b: &str) -> (res: bool)
    ensures
        res == (a@ == b@),
{
    let x = chars_of(a);
    let y = chars_of(b);
    if x.len() != y.len() {
        return false;
    }
    let mut i: usize = 0;
    while i < x.len()
        invariant
            x@ == a@,
            y@ == b@,
            x.len() == y.len(),
            i <= x.len(),
            forall|j: int| 0 <= j < i ==> x@[j] == y@[j],
        decreases x.len() - i,
    {
        if x[i] != y[i] {
            return false;
        }
        i = i + 1;
    }
    assert(x@ =~= y@);
    true
}

// ---------------------------------------------------------------------------
// Whitespace and trimming
// ---------------------------------------------------------------------------

/// The Unicode `White_Space` property, which `char::is_whitespace` tests.
pub open spec fn is_white_space(c: char) -> bool {
    let u = c as u32;
    ||| 0x09 <= u <= 0x0D
    ||| u == 0x20
    ||| u == 0x85
    ||| u == 0xA0
    ||| u == 0x1680
    ||| 0x2000 <= u <= 0x200A
    ||| u == 0x2028
    ||| u == 0x2029
    ||| u == 0x202F
    ||| u == 0x205F
    ||| u == 0x3000
}

/// Tests the Unicode `White_Space` property of `c`.
pub fn is_whitespace(c: char) -> (res: bool)
    ensures
        res == is_white_space(c),
{
    let u: u32 = c as u32;
    (0x09 <= u && u <= 0x0D) || u == 0x20 || u == 0x85 || u == 0xA0 || u == 0x1680 || (0x2000
        <= u && u <= 0x200A) || u == 0x2028 || u == 0x2029 || u == 0x202F || u == 0x205F || u
        == 0x3000
}

/// Index of the first character of `s` that is not white space (`s.len()` if none).
pub open spec fn first_non_ws(s: Seq<char>) -> int
    decreases s.len(),
{
    if s.len() == 0 {
        0
    } else if is_white_space(s[0]) {
        1 + first_non_ws(s.drop_first())
    } else {
        0
    }
}

/// Number of characters of `s` that remain once trailing white space is cut.
pub open spec fn end_non_ws(s: Seq<char>) -> int
    decreases s.len(),
{
    if s.len() == 0 {
        0
    } else if is_white_space(s.last()) {
        end_non_ws(s.drop_last())
    } else {
        s.len() as int
    }
}

/// `s` without leading white space.
pub open spec fn trim_start_spec(s: Seq<char>) -> Seq<char> {
    s.skip(first_non_ws(s))
}

/// `s` without trailing white space.
pub open spec fn trim_end_spec(s: Seq<char>) -> Seq<char> {
    s.take(end_non_ws(s))
}

/// `s` without leading or trailing white space, as `str::trim` gives it.
pub open spec fn trim_spec(s: Seq<char>) -> Seq<char> {
    trim_end_spec(trim_start_spec(s))
}

proof fn lemma_first_non_ws(s: Seq<char>)
    ensures
        0 <= first_non_ws(s) <= s.len(),
        forall|j: int| 0 <= j < first_non_ws(s) ==> is_white_space(#[trigger] s[j]),
        first_non_ws(s) < s.len() ==> !is_white_space(s[first_non_ws(s)]),
    decreases s.len(),
{
    if s.len() > 0 && is_white_space(s[0]) {
        lemma_first_non_ws(s.drop_first());
        assert forall|j: int| 0 <= j < first_non_ws(s) implies is_white_space(#[trigger] s[j]) by {
            if j > 0 {
                assert(s[j] == s.drop_first()[j - 1]);
            }
        }
    }
}

proof fn lemma_first_non_ws_char(s: Seq<char>, k: int)
    requires
        0 <= k <= s.len(),
        forall|j: int| 0 <= j < k ==> is_white_space(#[trigger] s[j]),
        k < s.len() ==> !is_white_space(s[k]),
    ensures
        first_non_ws(s) == k,
    decreases s.len(),
{
    if k > 0 {
        assert(is_white_space(s[0]));
        let t = s.drop_first();
        assert forall|j: int| 0 <= j < k - 1 implies is_white_space(#[trigger] t[j]) by {
            assert(t[j] == s[j + 1]);
        }
        if k - 1 < t.len() {
            assert(t[k - 1] == s[k]);
        }
        lemma_first_non_ws_char(t, k - 1);
    }
}

proof fn lemma_end_non_ws_char(s: Seq<char>, k: int)
    requires
        0 <= k <= s.len(),
        forall|j: int| k <= j < s.len() ==> is_white_space(#[trigger] s[j]),
        k > 0 ==> !is_white_space(s[k - 1]),
    ensures
        end_non_ws(s) == k,
    decreases s.len(),
{
    if s.len() > k {
        assert(is_white_space(s[s.len() - 1]));
        let t = s.drop_last();
        assert forall|j: int| k <= j < t.len() implies is_white_space(#[trigger] t[j]) by {
            assert(t[j] == s[j]);
        }
        if k > 0 {
            assert(t[k - 1] == s[k - 1]);
        }
        lemma_end_non_ws_char(t, k);
    }
}

/// The characters of `s` without leading or trailing white space.
pub fn trim_chars(s: &str) -> (res: Vec<char>)
    ensures
        res@ == trim_spec(s@),
{
    let cs = chars_of(s);
    let mut lo: usize = 0;
    while lo < cs.len() && is_whitespace(cs[lo])
        invariant
            cs@ == s@,
            lo <= cs.len(),
            forall|j: int| 0 <= j < lo ==> is_white_space(#[trigger] cs@[j]),
        decreases cs.len() - lo,
    {
        lo = lo + 1;
    }
    proof {
        lemma_first_non_ws_char(s@, lo as int);
    }
    let ghost t = s@.skip(lo as int);
    let mut hi: usize = cs.len();
    while hi > lo && is_whitespace(cs[hi - 1])
        invariant
            cs@ == s@,
            lo <= hi <= cs.len(),
            forall|j: int| hi <= j < cs.len() ==> is_white_space(#[trigger] cs@[j]),
        decreases hi,
    {
        hi = hi - 1;
    }
    proof {
        assert forall|j: int| (hi - lo) <= j < t.len() implies is_white_space(#[trigger] t[j]) by {
            assert(t[j] == cs@[j + lo]);
        }
        if hi > lo {
            assert(t[hi - lo - 1] == cs@[hi - 1]);
        }
        lemma_end_non_ws_char(t, (hi - lo) as int);
    }
    let mut res: Vec<char> = Vec::new();
    let mut i: usize = lo;
    while i < hi
        invariant
            cs@ == s@,
            lo <= i <= hi <= cs.len(),
            res@ == cs@.subrange(lo as int, i as int),
        decreases hi - i,
    {
        res.push(cs[i]);
        assert(cs@.subrange(lo as int, i as int).push(cs@[i as int]) =~= cs@.subrange(
            lo as int,
            i + 1,
        ));
        i = i + 1;
    }
    assert(res@ =~= t.take((hi - lo) as int));
    res
}

/// Whether `s` is empty or all white space.
pub open spec fn is_blank(s: Seq<char>) -> bool {
    trim_spec(s).len() == 0
}

// ---------------------------------------------------------------------------
// ASCII case mapping
// ---------------------------------------------------------------------------

pub open spec fn is_ascii_lower(c: char) -> bool {
    'a' <= c <= 'z'
}

pub open spec fn is_ascii_upper(c: char) -> bool {
    'A' <= c <= 'Z'
}

/// `c` with `a`..=`z` mapped to `A`..=`Z`, as `char::to_ascii_uppercase` gives it.
pub open spec fn ascii_upper_char(c: char) -> char {
    if is_ascii_lower(c) {
        ((c as u32) - 32) as char
    } else {
        c
    }
}

/// `c` with `A`..=`Z` mapped to `a`..=`z`, as `char::to_ascii_lowercase` gives it.
pub open spec fn ascii_lower_char(c: char) -> char {
    if is_ascii_upper(c) {
        ((c as u32) + 32) as char
    } else {
        c
    }
}

pub open spec fn ascii_upper(s: Seq<char>) -> Seq<char> {
    s.map_values(|c: char| ascii_upper_char(c))
}

pub open spec fn ascii_lower(s: Seq<char>) -> Seq<char> {
    s.map_values(|c: char| ascii_lower_char(c))
}

pub fn to_ascii_upper_char(c: char) -> (r: char)
    ensures
        r == ascii_upper_char(c),
{
    if 'a' <= c && c <= 'z' {
        let u: u32 = c as u32;
        ((u - 32) as u8) as char
    } else {
        c
    }
}

pub fn to_ascii_lower_char(c: char) -> (r: char)
    ensures
        r == ascii_lower_char(c),
{
    if 'A' <= c && c <= 'Z' {
        let u: u32 = c as u32;
        ((u + 32) as u8) as char
    } else {
        c
    }
}

/// `cs` with every ASCII lowercase letter made uppercase.
pub fn upper_chars(cs: &Vec<char>) -> (res: Vec<char>)
    ensures
        res@ == ascii_upper(cs@),
{
    let mut res: Vec<char> = Vec::new();
    let mut i: usize = 0;
    while i < cs.len()
        invariant
            i <= cs.len(),
            res@ == ascii_upper(cs@.take(i as int)),
        decreases cs.len() - i,
    {
        res.push(to_ascii_upper_char(cs[i]));
        assert(ascii_upper(cs@.take(i as int)).push(ascii_upper_char(cs@[i as int]))
            =~= ascii_upper(cs@.take(i + 1)));
        i = i + 1;
    }
    assert(cs@.take(cs.len() as int) =~= cs@);
    res
}

/// The characters of `s` with every ASCII uppercase letter made lowercase.
pub fn lower_chars(s: &str) -> (res: Vec<char>)
    ensures
        res@ == ascii_lower(s@),
{
    let cs = chars_of(s);
    let mut res: Vec<char> = Vec::new();
    let mut i: usize = 0;
    while i < cs.len()
        invariant
            cs@ == s@,
            i <= cs.len(),
            res@ == ascii_lower(cs@.take(i as int)),
        decreases cs.len() - i,
    {
        res.push(to_ascii_lower_char(cs[i]));
        assert(ascii_lower(cs@.take(i as int)).push(ascii_lower_char(cs@[i as int]))
            =~= ascii_lower(cs@.take(i + 1)));
        i = i + 1;
    }
    assert(cs@.take(cs.len() as int) =~= cs@);
    res
}

// ---------------------------------------------------------------------------
// Affixes and substrings
// ---------------------------------------------------------------------------

pub open spec fn has_suffix(s: Seq<char>, suffix: Seq<char>) -> bool {
    suffix.len() <= s.len() && s.skip(s.len() - suffix.len()) == suffix
}

pub open spec fn occurs_at(s: Seq<char>, pat: Seq<char>, i: int) -> bool {
    0 <= i && i + pat.len() <= s.len() && s.subrange(i, i + pat.len()) == pat
}

pub open spec fn has_substring(s: Seq<char>, pat: Seq<char>) -> bool {
    exists|i: int| occurs_at(s, pat, i)
}

/// Whether `cs` ends with the characters of `suffix`.
pub fn ends_with(cs: &Vec<char>, suffix: &str) -> (res: bool)
    ensures
        res == has_suffix(cs@, suffix@),
{
    let p = chars_of(suffix);
    if p.len() > cs.len() {
        return false;
    }
    let off: usize = cs.len() - p.len();
    let mut i: usize = 0;
    while i < p.len()
        invariant
            p@ == suffix@,
            off + p.len() == cs.len(),
            i <= p.len(),
            forall|j: int| 0 <= j < i ==> cs@[off + j] == p@[j],
        decreases p.len() - i,
    {
        if cs[off + i] != p[i] {
            assert(cs@.skip(off as int)[i as int] != p@[i as int]);
            return false;
        }
        i = i + 1;
    }
    assert(cs@.skip(off as int) =~= p@);
    true
}

/// Whether `pat` occurs in `cs` at position `i`.
fn matches_at(cs: &Vec<char>, pat: &Vec<char>, i: usize) -> (res: bool)
    requires
        i + pat.len() <= cs.len(),
    ensures
        res == occurs_at(cs@, pat@, i as int),
{
    let mut j: usize = 0;
    while j < pat.len()
        invariant
            i + pat.len() <= cs.len(),
            j <= pat.len(),
            forall|k: int| 0 <= k < j ==> cs@[i + k] == pat@[k],
        decreases pat.len() - j,
    {
        if cs[i + j] != pat[j] {
            assert(cs@.subrange(i as int, i + pat.len())[j as int] != pat@[j as int]);
            return false;
        }
        j = j + 1;
    }
    assert(cs@.subrange(i as int, i + pat.len()) =~= pat@);
    true
}

/// Whether the characters of `pat` occur contiguously in `cs`.
pub fn contains_str(cs: &Vec<char>, pat: &str) -> (res: bool)
    ensures
        res == has_substring(cs@, pat@),
{
    let p = chars_of(pat);
    if p.len() > cs.len() {
        assert(forall|i: int| !occurs_at(cs@, pat@, i));
        return false;
    }
    if p.len() == 0 {
        assert(cs@.subrange(0, 0) =~= pat@);
        assert(occurs_at(cs@, pat@, 0));
        return true;
    }
    let mut i: usize = 0;
    while i <= cs.len() - p.len()
        invariant
            p@ == pat@,
            p.len() >= 1,
            p.len() <= cs.len(),
            i <= cs.len(),
            forall|k: int| 0 <= k < i ==> !occurs_at(cs@, pat@, k),
        decreases cs.len() - i,
    {
        if matches_at(cs, &p, i) {
            return true;
        }
        i = i + 1;
    }
    assert(forall|k: int| !occurs_at(cs@, pat@, k));
    false
}

/// Whether `c` occurs in `cs`.
pub fn contains_char(cs: &Vec<char>, c: char) -> (res: bool)
    ensures
        res == cs@.contains(c),
{
    let mut i: usize = 0;
    while i < cs.len()
        invariant
            i <= cs.len(),
            forall|k: int| 0 <= k < i ==> cs@[k] != c,
        decreases cs.len() - i,
    {
        if cs[i] == c {
            assert(cs@[i as int] == c);
            return true;
        }
        i = i + 1;
    }
    false
}


/// Whether the characters `cs` spell `s`.
pub fn chars_eq_str(cs: &Vec<char>, s: &str) -> (res: bool)
    ensures
        res == (cs@ == s@),
{
    let t = chars_of(s);
    if cs.len() != t.len() {
        return false;
    }
    let mut i: usize = 0;
    while i < cs.len()
        invariant
            t@ == s@,
            cs.len() == t.len(),
            i <= cs.len(),
            forall|j: int| 0 <= j < i ==> cs@[j] == t@[j],
        decreases cs.len() - i,
    {
        if cs[i] != t[i] {
            return false;
        }
        i = i + 1;
    }
    assert(cs@ =~= t@);
    true
}

/// The text `format!("{s:?}")` gives: `s` in double quotes with `str`'s
/// `Debug` escapes.
pub uninterp spec fn debug_str(s: Seq<char>) -> Seq<char>;

/// `format!("{s:?}")`, the `Debug` rendering of a string. The contract names
/// the result (`debug_str`); the escaping rules are not stated.
#[verifier::external_body]
pub(crate) fn debug_quoted(s: &str) -> (res: String)
    ensures
        res@ == debug_str(s@),
{
    format!("{s:?}")
}

/// Whether `s` is empty or all white space.
pub fn is_blank_str(s: &str) -> (res: bool)
    ensures
        res == is_blank(s@),
{
    let t = trim_chars(s);
    t.len() == 0
}


/// Trimming leaves no white space at either end.
pub proof fn lemma_trim_ends(s: Seq<char>)
    ensures
        trim_spec(s).len() > 0 ==> !is_white_space(trim_spec(s)[0]) && !is_white_space(
            trim_spec(s).last(),
        ),
        trim_spec(s).len() <= s.len(),
{
    lemma_first_non_ws(s);
    let t = trim_start_spec(s);
    lemma_end_non_ws(t);
    if trim_spec(s).len() > 0 {
        assert(trim_spec(s)[0] == t[0]);
        assert(t[0] == s[first_non_ws(s)]);
        assert(trim_spec(s).last() == t[end_non_ws(t) - 1]);
    }
}

proof fn lemma_end_non_ws(s: Seq<char>)
    ensures
        0 <= end_non_ws(s) <= s.len(),
        end_non_ws(s) > 0 ==> !is_white_space(s[end_non_ws(s) - 1]),
    decreases s.len(),
{
    if s.len() > 0 && is_white_space(s.last()) {
        lemma_end_non_ws(s.drop_last());
        if end_non_ws(s) > 0 {
            assert(s.drop_last()[end_non_ws(s) - 1] == s[end_non_ws(s) - 1]);
        }
    }
}

/// A sequence with no white space at its ends is its own trim.
pub proof fn lemma_trim_identity(t: Seq<char>)
    requires
        t.len() > 0 ==> !is_white_space(t[0]) && !is_white_space(t.last()),
    ensures
        trim_spec(t) == t,
{
    lemma_first_non_ws_char(t, 0);
    assert(t.skip(0) =~= t);
    lemma_end_non_ws_char(t, t.len() as int);
    assert(t.take(t.len() as int) =~= t);
}

/// Upper-casing preserves white space and is idempotent.
pub proof fn lemma_ascii_upper_facts(s: Seq<char>)
    ensures
        ascii_upper(ascii_upper(s)) == ascii_upper(s),
        ascii_upper(s).len() == s.len(),
        forall|i: int| 0 <= i < s.len() ==> (is_white_space(#[trigger] ascii_upper(s)[i])
            == is_white_space(s[i])),
{
    assert(ascii_upper(ascii_upper(s)) =~= ascii_upper(s));
}

} // verus!
