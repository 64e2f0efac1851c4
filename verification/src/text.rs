//! Character-sequence toolkit shared by the parsers: conversions between
//! `str`/`String` and `Vec<char>`, pattern search, whitespace handling and
//! number formatting, each with a specification over `Seq<char>`.
use vstd::prelude::*;

verus! {

// ---------------------------------------------------------------------------
// Unicode character properties and case mapping (std, named)
// ---------------------------------------------------------------------------

/// The Unicode `White_Space` property, as `char::is_whitespace` reports it.
pub uninterp spec fn unicode_whitespace(c: char) -> bool;

/// The Unicode `Alphabetic` or `Numeric` property, as `char::is_alphanumeric`
/// reports it.
pub uninterp spec fn unicode_alphanumeric(c: char) -> bool;

/// The Unicode `Alphabetic` property, as `char::is_alphabetic` reports it.
pub uninterp spec fn unicode_alphabetic(c: char) -> bool;

/// What `str::to_lowercase` returns for a string with these characters.
pub uninterp spec fn lowercase(s: Seq<char>) -> Seq<char>;

/// What `String::from_utf8_lossy` produces for these bytes.
pub uninterp spec fn utf8_lossy(bytes: Seq<u8>) -> Seq<char>;

pub open spec fn is_ascii_letter(c: char) -> bool {
    ('a' <= c && c <= 'z') || ('A' <= c && c <= 'Z')
}

pub open spec fn is_ascii_digit(c: char) -> bool {
    '0' <= c && c <= '9'
}

pub open spec fn is_ascii_char(c: char) -> bool {
    (c as u32) < 128
}

/// `char::to_ascii_lowercase`.
pub open spec fn ascii_lower(c: char) -> char {
    if 'A' <= c && c <= 'Z' {
        ((c as u32) + 32) as char
    } else {
        c
    }
}

/// `char::is_whitespace`: the Unicode `White_Space` property. Among ASCII
/// characters that property holds exactly for tab, line feed, vertical tab,
/// form feed, carriage return and space; beyond ASCII nothing is stated.
#[verifier::external_body]
pub(crate) fn char_is_whitespace(c: char) -> (r: bool)
    ensures
        r == unicode_whitespace(c),
        is_ascii_char(c) ==> (r <==> (c == ' ' || ('\t' <= c && c <= '\r'))),
{
    c.is_whitespace()
}

/// `char::is_alphanumeric`: `Alphabetic` or `Numeric`. Among ASCII characters
/// these are exactly the letters and the digits; beyond ASCII nothing is stated.
#[verifier::external_body]
pub(crate) fn char_is_alphanumeric(c: char) -> (r: bool)
    ensures
        r == unicode_alphanumeric(c),
        is_ascii_char(c) ==> (r <==> (is_ascii_letter(c) || is_ascii_digit(c))),
{
    c.is_alphanumeric()
}

/// `char::is_alphabetic`: the `Alphabetic` property. Among ASCII characters it
/// holds exactly for the letters; beyond ASCII nothing is stated.
#[verifier::external_body]
pub(crate) fn char_is_alphabetic(c: char) -> (r: bool)
    ensures
        r == unicode_alphabetic(c),
        is_ascii_char(c) ==> (r <==> is_ascii_letter(c)),
{
    c.is_alphabetic()
}

/// `str::to_lowercase`. The result is named; it is a function of the
/// characters alone (Unicode case tables). Of a string of ASCII characters
/// it is stated: each letter `A`-`Z` becomes its small letter and every
/// other character stays; beyond ASCII nothing more is stated.
#[verifier::external_body]
pub(crate) fn str_to_lowercase(s: &str) -> (r: String)
    ensures
        r@ == lowercase(s@),
        (forall|i: int| 0 <= i < s@.len() ==> is_ascii_char(#[trigger] s@[i])) ==> r@ == s@.map_values(
            |c: char| ascii_lower(c),
        ),
{
    s.to_lowercase()
}

/// `String::from_utf8_lossy`, turned into an owned `String`. Valid UTF-8 is
/// decoded as it stands; what invalid input gives (replacement characters) is
/// named and not spelled out.
#[verifier::external_body]
pub(crate) fn string_from_utf8_lossy(bytes: &[u8]) -> (r: String)
    ensures
        r@ == utf8_lossy(bytes@),
        vstd::utf8::valid_utf8(bytes@) ==> r@ == vstd::utf8::decode_utf8(bytes@),
{
    String::from_utf8_lossy(bytes).to_string()
}

/// `String::push`: appends one character.
#[verifier::external_body]
pub(crate) fn push_char(s: &mut String, c: char)
    ensures
        final(s)@ == old(s)@.push(c),
{
    s.push(c);
}

// ---------------------------------------------------------------------------
// Conversions
// ---------------------------------------------------------------------------

/// The characters of `s`, in order.
pub fn to_chars(s: &str) -> (r: Vec<char>)
    ensures
        r@ == s@,
{
    let mut v: Vec<char> = Vec::new();
    for c in it: s.chars()
        invariant
            v@ == it.seq().take(it.index() as int),
            it.seq() == s@,
    {
        v.push(c);
    }
    v
}

/// A `String` holding the characters `s[from..to]`.
pub fn string_from_range(s: &Vec<char>, from: usize, to: usize) -> (r: String)
    requires
        from <= to <= s.len(),
    ensures
        r@ == s@.subrange(from as int, to as int),
{
    let mut out = String::new();
    let mut i = from;
    while i < to
        invariant
            from <= i <= to <= s.len(),
            out@ == s@.subrange(from as int, i as int),
        decreases to - i,
    {
        push_char(&mut out, s[i]);
        assert(s@.subrange(from as int, i + 1) == s@.subrange(from as int, i as int).push(s@[i as int]));
        i += 1;
    }
    out
}

/// A `String` holding all of `s`.
pub fn string_from_chars(s: &Vec<char>) -> (r: String)
    ensures
        r@ == s@,
{
    let r = string_from_range(s, 0, s.len());
    assert(s@.subrange(0, s@.len() as int) == s@);
    r
}

/// Appends the characters of `t` to `s`.
pub fn push_chars(s: &mut String, t: &Vec<char>)
    ensures
        final(s)@ == old(s)@ + t@,
{
    let mut i: usize = 0;
    while i < t.len()
        invariant
            i <= t.len(),
            s@ == old(s)@ + t@.take(i as int),
        decreases t.len() - i,
    {
        push_char(s, t[i]);
        assert(t@.take(i + 1) == t@.take(i as int).push(t@[i as int]));
        i += 1;
    }
    assert(t@.take(t.len() as int) == t@);
}

/// Appends the characters of `t` to `s`.
pub fn push_str(s: &mut String, t: &str)
    ensures
        final(s)@ == old(s)@ + t@,
{
    let v = to_chars(t);
    push_chars(s, &v);
}

/// A `String` with the characters of `t`.
pub fn string_of(t: &str) -> (r: String)
    ensures
        r@ == t@,
{
    let mut s = String::new();
    push_str(&mut s, t);
    assert(Seq::<char>::empty() + t@ == t@);
    s
}

// ---------------------------------------------------------------------------
// Patterns
// ---------------------------------------------------------------------------

/// `p` stands in `s` at position `i`.
pub open spec fn occurs_at(s: Seq<char>, p: Seq<char>, i: int) -> bool {
    0 <= i && i + p.len() <= s.len() && s.subrange(i, i + p.len()) == p
}

/// `s` begins with `p` (`str::starts_with`).
pub open spec fn has_prefix(s: Seq<char>, p: Seq<char>) -> bool {
    occurs_at(s, p, 0)
}

/// `s` ends with `p` (`str::ends_with`).
pub open spec fn has_suffix(s: Seq<char>, p: Seq<char>) -> bool {
    p.len() <= s.len() && occurs_at(s, p, s.len() - p.len())
}

/// `p` stands somewhere in `s` (`str::contains`).
pub open spec fn contains_seq(s: Seq<char>, p: Seq<char>) -> bool {
    exists|i: int| occurs_at(s, p, i)
}

/// The first position at or after `i` where `p` stands in `s`
/// (`str::find` when `i` is 0).
pub open spec fn find_from(s: Seq<char>, p: Seq<char>, i: int) -> Option<int>
    decreases s.len() + 1 - i,
{
    if i < 0 || i + p.len() > s.len() {
        None
    } else if occurs_at(s, p, i) {
        Some(i)
    } else {
        find_from(s, p, i + 1)
    }
}

pub open spec fn find_seq(s: Seq<char>, p: Seq<char>) -> Option<int> {
    find_from(s, p, 0)
}

/// The first position of `c` in `s`.
pub open spec fn first_index_of(s: Seq<char>, c: char) -> Option<int> {
    find_seq(s, seq![c])
}

/// The last position where `p` stands in `s` (`str::rfind`).
pub open spec fn rfind_before(s: Seq<char>, p: Seq<char>, i: int) -> Option<int>
    decreases i + 1,
{
    if i < 0 {
        None
    } else if occurs_at(s, p, i) {
        Some(i)
    } else {
        rfind_before(s, p, i - 1)
    }
}

pub open spec fn rfind_seq(s: Seq<char>, p: Seq<char>) -> Option<int> {
    rfind_before(s, p, s.len() - p.len())
}

pub proof fn lemma_find_from_sound(s: Seq<char>, p: Seq<char>, i: int)
    requires
        0 <= i,
    ensures
        find_from(s, p, i) matches Some(k) ==> i <= k && occurs_at(s, p, k) && (forall|j: int|
            i <= j < k ==> !occurs_at(s, p, j)),
        find_from(s, p, i) is None ==> forall|j: int| i <= j ==> !occurs_at(s, p, j),
    decreases s.len() + 1 - i,
{
    if i + p.len() > s.len() {
    } else if occurs_at(s, p, i) {
    } else {
        lemma_find_from_sound(s, p, i + 1);
    }
}

pub proof fn lemma_rfind_before_sound(s: Seq<char>, p: Seq<char>, i: int)
    ensures
        rfind_before(s, p, i) matches Some(k) ==> k <= i && occurs_at(s, p, k) && (forall|j: int|
            k < j <= i ==> !occurs_at(s, p, j)),
        rfind_before(s, p, i) is None ==> forall|j: int| j <= i ==> !occurs_at(s, p, j),
    decreases i + 1,
{
    if i < 0 {
    } else if occurs_at(s, p, i) {
    } else {
        lemma_rfind_before_sound(s, p, i - 1);
    }
}

/// Whether `p` stands in `s` at position `i`.
pub fn matches_at(s: &Vec<char>, p: &Vec<char>, i: usize) -> (r: bool)
    ensures
        r == occurs_at(s@, p@, i as int),
{
    if i > s.len() || p.len() > s.len() - i {
        return false;
    }
    let mut k: usize = 0;
    while k < p.len()
        invariant
            i + p.len() <= s.len(),
            k <= p.len(),
            forall|j: int| 0 <= j < k ==> s@[i + j] == p@[j],
        decreases p.len() - k,
    {
        if s[i + k] != p[k] {
            assert(s@.subrange(i as int, i + p.len())[k as int] != p@[k as int]);
            return false;
        }
        k += 1;
    }
    assert(s@.subrange(i as int, i + p.len()) =~= p@);
    true
}

/// `str::starts_with`.
pub fn starts_with(s: &Vec<char>, p: &Vec<char>) -> (r: bool)
    ensures
        r == has_prefix(s@, p@),
{
    matches_at(s, p, 0)
}

/// `str::ends_with`.
pub fn ends_with(s: &Vec<char>, p: &Vec<char>) -> (r: bool)
    ensures
        r == has_suffix(s@, p@),
{
    if p.len() > s.len() {
        false
    } else {
        matches_at(s, p, s.len() - p.len())
    }
}

/// The first position at or after `from` where `p` stands in `s`.
pub fn find_from_exec(s: &Vec<char>, p: &Vec<char>, from: usize) -> (r: Option<usize>)
    ensures
        r matches Some(k) ==> find_from(s@, p@, from as int) == Some(k as int),
        r is None ==> find_from(s@, p@, from as int) is None,
{
    if p.len() == 0 {
        if from <= s.len() {
            assert(s@.subrange(from as int, from as int) =~= p@);
            return Some(from);
        }
        return None;
    }
    let mut i = from;
    while i <= s.len() && p.len() <= s.len() - i
        invariant
            from <= i,
            p.len() > 0,
            find_from(s@, p@, from as int) == find_from(s@, p@, i as int),
        decreases s.len() + 1 - i,
    {
        if matches_at(s, p, i) {
            return Some(i);
        }
        i += 1;
    }
    None
}

/// `str::find`.
pub fn find(s: &Vec<char>, p: &Vec<char>) -> (r: Option<usize>)
    ensures
        r matches Some(k) ==> find_seq(s@, p@) == Some(k as int),
        r is None ==> find_seq(s@, p@) is None,
{
    find_from_exec(s, p, 0)
}

/// `str::contains`.
pub fn contains(s: &Vec<char>, p: &Vec<char>) -> (r: bool)
    ensures
        r == contains_seq(s@, p@),
{
    let r = find(s, p);
    proof {
        lemma_find_from_sound(s@, p@, 0);
    }
    r.is_some()
}

/// `str::rfind`.
pub fn rfind(s: &Vec<char>, p: &Vec<char>) -> (r: Option<usize>)
    ensures
        r matches Some(k) ==> rfind_seq(s@, p@) == Some(k as int),
        r is None ==> rfind_seq(s@, p@) is None,
{
    if p.len() > s.len() {
        return None;
    }
    let mut i: usize = s.len() - p.len();
    loop
        invariant
            i <= s.len() - p.len(),
            p.len() <= s.len(),
            rfind_seq(s@, p@) == rfind_before(s@, p@, i as int),
        decreases i,
    {
        if matches_at(s, p, i) {
            return Some(i);
        }
        if i == 0 {
            assert(rfind_before(s@, p@, -1) is None);
            return None;
        }
        i -= 1;
    }
}

/// The position of the first `c` in `s`.
pub fn find_char(s: &Vec<char>, c: char) -> (r: Option<usize>)
    ensures
        r matches Some(k) ==> first_index_of(s@, c) == Some(k as int) && k < s.len() && s@[k as int] == c,
        r is None ==> first_index_of(s@, c) is None && !s@.contains(c),
{
    let mut i: usize = 0;
    while i < s.len()
        invariant
            i <= s.len(),
            forall|j: int| 0 <= j < i ==> s@[j] != c,
            find_from(s@, seq![c], 0) == find_from(s@, seq![c], i as int),
        decreases s.len() - i,
    {
        if s[i] == c {
            assert(s@.subrange(i as int, i + 1) =~= seq![c]);
            return Some(i);
        }
        assert(!occurs_at(s@, seq![c], i as int)) by {
            if occurs_at(s@, seq![c], i as int) {
                assert(s@.subrange(i as int, i + 1)[0] == s@[i as int]);
            }
        }
        i += 1;
    }
    None
}


// ---------------------------------------------------------------------------
// Whitespace
// ---------------------------------------------------------------------------

/// `s` with its leading whitespace removed (`str::trim_start`).
pub open spec fn trim_start_seq(s: Seq<char>) -> Seq<char>
    decreases s.len(),
{
    if s.len() > 0 && unicode_whitespace(s[0]) {
        trim_start_seq(s.drop_first())
    } else {
        s
    }
}

/// `s` with its trailing whitespace removed (`str::trim_end`).
pub open spec fn trim_end_seq(s: Seq<char>) -> Seq<char>
    decreases s.len(),
{
    if s.len() > 0 && unicode_whitespace(s.last()) {
        trim_end_seq(s.drop_last())
    } else {
        s
    }
}

/// `str::trim`.
pub open spec fn trim_seq(s: Seq<char>) -> Seq<char> {
    trim_end_seq(trim_start_seq(s))
}

/// Every character of `s` is whitespace.
pub open spec fn all_ws(s: Seq<char>) -> bool {
    forall|i: int| 0 <= i < s.len() ==> unicode_whitespace(#[trigger] s[i])
}

proof fn lemma_trim_start_skip(s: Seq<char>, a: int)
    requires
        0 <= a <= s.len(),
        forall|j: int| 0 <= j < a ==> unicode_whitespace(#[trigger] s[j]),
        a == s.len() || !unicode_whitespace(s[a]),
    ensures
        trim_start_seq(s) == s.skip(a),
    decreases a,
{
    if a == 0 {
        assert(s.skip(0) =~= s);
    } else {
        let t = s.drop_first();
        assert forall|j: int| 0 <= j < a - 1 implies unicode_whitespace(#[trigger] t[j]) by {
            assert(t[j] == s[j + 1]);
        }
        if a - 1 < t.len() {
            assert(t[a - 1] == s[a]);
        }
        lemma_trim_start_skip(t, a - 1);
        assert(t.skip(a - 1) =~= s.skip(a));
    }
}

proof fn lemma_trim_end_take(s: Seq<char>, b: int)
    requires
        0 <= b <= s.len(),
        forall|j: int| b <= j < s.len() ==> unicode_whitespace(#[trigger] s[j]),
        b == 0 || !unicode_whitespace(s[b - 1]),
    ensures
        trim_end_seq(s) == s.take(b),
    decreases s.len() - b,
{
    if b == s.len() {
        assert(s.take(b) =~= s);
    } else {
        let t = s.drop_last();
        assert forall|j: int| b <= j < t.len() implies unicode_whitespace(#[trigger] t[j]) by {
            assert(t[j] == s[j]);
        }
        if b > 0 {
            assert(t[b - 1] == s[b - 1]);
        }
        lemma_trim_end_take(t, b);
        assert(t.take(b) =~= s.take(b));
    }
}

/// The bounds `(a, b)` with `s[a..b]` equal to `str::trim` of `s`.
pub fn trim_bounds(s: &Vec<char>) -> (r: (usize, usize))
    ensures
        r.0 <= r.1 <= s.len(),
        s@.subrange(r.0 as int, r.1 as int) == trim_seq(s@),
        trim_start_seq(s@) == s@.skip(r.0 as int),
{
    let mut a: usize = 0;
    while a < s.len() && char_is_whitespace(s[a])
        invariant
            a <= s.len(),
            forall|j: int| 0 <= j < a ==> unicode_whitespace(#[trigger] s@[j]),
        decreases s.len() - a,
    {
        a += 1;
    }
    proof {
        lemma_trim_start_skip(s@, a as int);
    }
    let mut b: usize = s.len();
    while b > a && char_is_whitespace(s[b - 1])
        invariant
            a <= b <= s.len(),
            forall|j: int| b <= j < s.len() ==> unicode_whitespace(#[trigger] s@[j]),
        decreases b,
    {
        b -= 1;
    }
    proof {
        let t = s@.skip(a as int);
        let bb = (b - a) as int;
        assert forall|j: int| bb <= j < t.len() implies unicode_whitespace(#[trigger] t[j]) by {
            assert(t[j] == s@[j + a]);
        }
        if bb > 0 {
            assert(t[bb - 1] == s@[b - 1]);
        }
        lemma_trim_end_take(t, bb);
        assert(t.take(bb) =~= s@.subrange(a as int, b as int));
    }
    (a, b)
}

/// `str::trim`, as characters.
pub fn trim_chars(s: &Vec<char>) -> (r: Vec<char>)
    ensures
        r@ == trim_seq(s@),
{
    let (a, b) = trim_bounds(s);
    slice_chars(s, a, b)
}

/// The characters `s[from..to]`.
pub fn slice_chars(s: &Vec<char>, from: usize, to: usize) -> (r: Vec<char>)
    requires
        from <= to <= s.len(),
    ensures
        r@ == s@.subrange(from as int, to as int),
{
    let mut out: Vec<char> = Vec::new();
    let mut i = from;
    while i < to
        invariant
            from <= i <= to <= s.len(),
            out@ == s@.subrange(from as int, i as int),
        decreases to - i,
    {
        out.push(s[i]);
        assert(s@.subrange(from as int, i + 1) == s@.subrange(from as int, i as int).push(s@[i as int]));
        i += 1;
    }
    out
}

/// The bounds of the whitespace-separated words of `s`, left to right
/// (`str::split_whitespace`).
pub open spec fn word_spans(s: Seq<char>) -> Seq<(int, int)>
    decreases s.len(),
{
    if s.len() == 0 {
        seq![]
    } else {
        let w = word_spans(s.drop_last());
        let n = s.len();
        if unicode_whitespace(s[n - 1]) {
            w
        } else if n >= 2 && !unicode_whitespace(s[n - 2]) {
            w.update(w.len() - 1, (w.last().0, n as int))
        } else {
            w.push((n - 1, n as int))
        }
    }
}

/// The whitespace-separated words of `s` (`str::split_whitespace`).
pub open spec fn words(s: Seq<char>) -> Seq<Seq<char>> {
    word_spans(s).map_values(|r: (int, int)| s.subrange(r.0, r.1))
}

/// Every span is a non-empty run inside `s`, in increasing order.
pub open spec fn spans_well_formed(s: Seq<char>, w: Seq<(int, int)>) -> bool {
    &&& forall|k: int| 0 <= k < w.len() ==> 0 <= (#[trigger] w[k]).0 < w[k].1 <= s.len()
    &&& forall|k: int| 0 <= k < w.len() - 1 ==> (#[trigger] w[k]).1 < w[k + 1].0
}

pub proof fn lemma_word_spans_shape(s: Seq<char>)
    ensures
        spans_well_formed(s, word_spans(s)),
        s.len() > 0 && !unicode_whitespace(s.last()) ==> word_spans(s).len() > 0
            && word_spans(s).last().1 == s.len(),
        word_spans(s).len() > 0 ==> word_spans(s).last().1 <= s.len(),
        word_spans(s).len() > 0 && word_spans(s).last().1 == s.len() ==> !unicode_whitespace(s.last()),
    decreases s.len(),
{
    if s.len() > 0 {
        let t = s.drop_last();
        lemma_word_spans_shape(t);
        let n = s.len() as int;
        if n >= 2 && !unicode_whitespace(s[n - 2]) {
            assert(t.last() == s[n - 2]);
        }
    }
}

/// `str::split_whitespace`, as bounds into `s`.
pub fn split_whitespace_spans(s: &Vec<char>) -> (r: Vec<(usize, usize)>)
    ensures
        r@.len() == word_spans(s@).len(),
        forall|k: int| 0 <= k < r@.len() ==> (#[trigger] r@[k]).0 as int == word_spans(s@)[k].0
            && r@[k].1 as int == word_spans(s@)[k].1,
        spans_well_formed(s@, word_spans(s@)),
{
    let mut out: Vec<(usize, usize)> = Vec::new();
    let mut prev_ws = true;
    let mut i: usize = 0;
    while i < s.len()
        invariant
            i <= s.len(),
            out@.len() == word_spans(s@.take(i as int)).len(),
            forall|k: int| 0 <= k < out@.len() ==> (#[trigger] out@[k]).0 as int == word_spans(s@.take(i as int))[k].0
                && out@[k].1 as int == word_spans(s@.take(i as int))[k].1,
            prev_ws == (i == 0 || unicode_whitespace(s@[i - 1])),
        decreases s.len() - i,
    {
        let c = s[i];
        let is_ws = char_is_whitespace(c);
        let ghost t = s@.take(i + 1);
        proof {
            assert(t.drop_last() =~= s@.take(i as int));
            assert(t[i as int] == s@[i as int]);
            if i > 0 {
                assert(t[i - 1] == s@[i - 1]);
                lemma_word_spans_shape(s@.take(i as int));
                assert(s@.take(i as int).last() == s@[i - 1]);
            }
        }
        if !is_ws {
            if prev_ws {
                out.push((i, i + 1));
            } else {
                let last = out.len() - 1;
                let start = out[last].0;
                out.set(last, (start, i + 1));
            }
        }
        prev_ws = is_ws;
        i += 1;
    }
    assert(s@.take(s.len() as int) =~= s@);
    proof {
        lemma_word_spans_shape(s@);
    }
    out
}

/// Whether every character of `s[from..to]` is whitespace.
pub fn is_all_whitespace(s: &Vec<char>) -> (r: bool)
    ensures
        r == all_ws(s@),
        r == (trim_seq(s@).len() == 0),
{
    let mut i: usize = 0;
    while i < s.len()
        invariant
            i <= s.len(),
            forall|j: int| 0 <= j < i ==> unicode_whitespace(#[trigger] s@[j]),
        decreases s.len() - i,
    {
        if !char_is_whitespace(s[i]) {
            proof {
                assert(!all_ws(s@));
                lemma_trim_nonempty(s@, i as int);
            }
            return false;
        }
        i += 1;
    }
    proof {
        lemma_trim_start_skip(s@, s@.len() as int);
        assert(s@.skip(s@.len() as int).len() == 0);
    }
    true
}

proof fn lemma_trim_nonempty(s: Seq<char>, i: int)
    requires
        0 <= i < s.len(),
        !unicode_whitespace(s[i]),
    ensures
        trim_seq(s).len() > 0,
    decreases s.len(),
{
    if unicode_whitespace(s[0]) {
        let t = s.drop_first();
        assert(t[i - 1] == s[i]);
        lemma_trim_nonempty(t, i - 1);
        assert(trim_start_seq(s) == trim_start_seq(t));
    } else {
        assert(trim_start_seq(s) == s);
        lemma_trim_end_keeps(s, i);
    }
}

proof fn lemma_trim_end_keeps(s: Seq<char>, i: int)
    requires
        0 <= i < s.len(),
        !unicode_whitespace(s[i]),
    ensures
        trim_end_seq(s).len() > i,
    decreases s.len(),
{
    if unicode_whitespace(s.last()) {
        let t = s.drop_last();
        assert(i < t.len());
        assert(t[i] == s[i]);
        lemma_trim_end_keeps(t, i);
    }
}


// ---------------------------------------------------------------------------
// Numbers as text
// ---------------------------------------------------------------------------

/// The lower-case hexadecimal digit for `d` (`0 <= d < 16`).
pub open spec fn hex_digit(d: int) -> char {
    seq!['0', '1', '2', '3', '4', '5', '6', '7', '8', '9', 'a', 'b', 'c', 'd', 'e', 'f'][d]
}

/// The decimal representation of `n` (`u64::to_string`, `{}`).
pub open spec fn decimal(n: nat) -> Seq<char>
    decreases n,
{
    if n < 10 {
        seq![hex_digit(n as int)]
    } else {
        decimal(n / 10).push(hex_digit((n % 10) as int))
    }
}

/// The last `k` hexadecimal digits of `n`, zero-padded (`{:0kx}` when `n < 16^k`).
pub open spec fn hex_fixed(n: nat, k: nat) -> Seq<char>
    decreases k,
{
    if k == 0 {
        seq![]
    } else {
        hex_fixed(n / 16, (k - 1) as nat).push(hex_digit((n % 16) as int))
    }
}

/// `s` left-padded with `'0'` to at least `width` characters (`{:0width}`).
pub open spec fn zero_pad(s: Seq<char>, width: nat) -> Seq<char> {
    if s.len() >= width {
        s
    } else {
        Seq::new((width - s.len()) as nat, |i: int| '0') + s
    }
}

pub fn hex_digit_char(d: u64) -> (c: char)
    requires
        d < 16,
    ensures
        c == hex_digit(d as int),
{
    let table = ['0', '1', '2', '3', '4', '5', '6', '7', '8', '9', 'a', 'b', 'c', 'd', 'e', 'f'];
    assert(table@ == seq!['0', '1', '2', '3', '4', '5', '6', '7', '8', '9', 'a', 'b', 'c', 'd', 'e', 'f']);
    table[d as usize]
}

/// The decimal digits of `n`.
pub fn decimal_chars(n: u64) -> (r: Vec<char>)
    ensures
        r@ == decimal(n as nat),
{
    let mut q = n;
    let mut out: Vec<char> = Vec::new();
    while q >= 10
        invariant
            decimal(n as nat) == decimal(q as nat) + out@,
        decreases q,
    {
        let d = hex_digit_char(q % 10);
        let ghost old_out = out@;
        out.insert(0, d);
        proof {
            assert(out@ =~= seq![d] + old_out);
            assert(decimal(q as nat) == decimal((q / 10) as nat).push(d));
            assert(decimal((q / 10) as nat).push(d) + old_out =~= decimal((q / 10) as nat) + out@);
        }
        q = q / 10;
    }
    let d = hex_digit_char(q);
    let ghost old_out = out@;
    out.insert(0, d);
    assert(out@ =~= seq![d] + old_out);
    out
}

/// The last `k` hexadecimal digits of `n`, zero-padded.
pub fn hex_fixed_chars(n: u64, k: usize) -> (r: Vec<char>)
    ensures
        r@ == hex_fixed(n as nat, k as nat),
{
    let mut q = n;
    let mut i: usize = k;
    let mut out: Vec<char> = Vec::new();
    while i > 0
        invariant
            i <= k,
            hex_fixed(n as nat, k as nat) == hex_fixed(q as nat, i as nat) + out@,
        decreases i,
    {
        let d = hex_digit_char(q % 16);
        let ghost old_out = out@;
        out.insert(0, d);
        proof {
            assert(out@ =~= seq![d] + old_out);
            assert(hex_fixed(q as nat, i as nat) == hex_fixed((q / 16) as nat, (i - 1) as nat).push(d));
            assert(hex_fixed((q / 16) as nat, (i - 1) as nat).push(d) + old_out
                =~= hex_fixed((q / 16) as nat, (i - 1) as nat) + out@);
        }
        q = q / 16;
        i -= 1;
    }
    assert(hex_fixed(q as nat, 0) + out@ =~= out@);
    out
}

/// `s` left-padded with zeros to `width` characters.
pub fn zero_pad_chars(s: Vec<char>, width: usize) -> (r: Vec<char>)
    ensures
        r@ == zero_pad(s@, width as nat),
{
    if s.len() >= width {
        return s;
    }
    let mut out: Vec<char> = Vec::new();
    let pad = width - s.len();
    let mut i: usize = 0;
    while i < pad
        invariant
            i <= pad,
            out@ == Seq::new(i as nat, |j: int| '0'),
        decreases pad - i,
    {
        out.push('0');
        assert(out@ =~= Seq::new((i + 1) as nat, |j: int| '0'));
        i += 1;
    }
    let mut k: usize = 0;
    let ghost base = out@;
    while k < s.len()
        invariant
            k <= s.len(),
            out@ == base + s@.take(k as int),
        decreases s.len() - k,
    {
        out.push(s[k]);
        assert(s@.take(k + 1) == s@.take(k as int).push(s@[k as int]));
        k += 1;
    }
    assert(s@.take(s.len() as int) =~= s@);
    out
}


// ---------------------------------------------------------------------------
// Whole-sequence helpers
// ---------------------------------------------------------------------------

/// `s` with every `from` replaced by `to` (`str::replace` of one character).
pub open spec fn replace_char_seq(s: Seq<char>, from: char, to: char) -> Seq<char> {
    s.map_values(|c: char| if c == from { to } else { c })
}

/// The part of `s` before the first `c`, or all of `s`
/// (`s.split(c).next()`).
pub open spec fn before_char(s: Seq<char>, c: char) -> Seq<char> {
    match first_index_of(s, c) {
        Some(i) => s.take(i),
        None => s,
    }
}

/// Whether two character sequences are equal.
pub fn chars_eq(a: &Vec<char>, b: &Vec<char>) -> (r: bool)
    ensures
        r == (a@ == b@),
{
    if a.len() != b.len() {
        return false;
    }
    let r = matches_at(a, b, 0);
    proof {
        if r {
            assert(a@.subrange(0, b@.len() as int) =~= a@);
        } else if a@ == b@ {
            assert(a@.subrange(0, b@.len() as int) =~= a@);
        }
    }
    r
}

/// Whether `a` equals the literal `lit`.
pub fn chars_eq_str(a: &Vec<char>, lit: &str) -> (r: bool)
    ensures
        r == (a@ == lit@),
{
    let b = to_chars(lit);
    chars_eq(a, &b)
}

/// Whether `a` begins with the literal `lit`.
pub fn starts_with_str(a: &Vec<char>, lit: &str) -> (r: bool)
    ensures
        r == has_prefix(a@, lit@),
{
    let b = to_chars(lit);
    starts_with(a, &b)
}

/// Whether `a` ends with the literal `lit`.
pub fn ends_with_str(a: &Vec<char>, lit: &str) -> (r: bool)
    ensures
        r == has_suffix(a@, lit@),
{
    let b = to_chars(lit);
    ends_with(a, &b)
}

/// Whether the literal `lit` stands in `a`.
pub fn contains_str(a: &Vec<char>, lit: &str) -> (r: bool)
    ensures
        r == contains_seq(a@, lit@),
{
    let b = to_chars(lit);
    contains(a, &b)
}

/// `s` with every `from` replaced by `to`.
pub fn replace_char(s: &Vec<char>, from: char, to: char) -> (r: Vec<char>)
    ensures
        r@ == replace_char_seq(s@, from, to),
{
    let mut out: Vec<char> = Vec::new();
    let mut i: usize = 0;
    while i < s.len()
        invariant
            i <= s.len(),
            out@ == replace_char_seq(s@.take(i as int), from, to),
        decreases s.len() - i,
    {
        let c = s[i];
        out.push(if c == from { to } else { c });
        assert(replace_char_seq(s@.take(i + 1), from, to) =~= replace_char_seq(s@.take(i as int), from, to).push(
            if c == from { to } else { c }));
        i += 1;
    }
    assert(s@.take(s.len() as int) =~= s@);
    out
}

/// The part of `s` before the first `c`, or all of `s`.
pub fn before_char_exec(s: &Vec<char>, c: char) -> (r: Vec<char>)
    ensures
        r@ == before_char(s@, c),
{
    match find_char(s, c) {
        Some(i) => slice_chars(s, 0, i),
        None => {
            let r = slice_chars(s, 0, s.len());
            assert(s@.subrange(0, s@.len() as int) =~= s@);
            r
        },
    }
}

/// The characters `s[from..]`.
pub fn skip_chars(s: &Vec<char>, from: usize) -> (r: Vec<char>)
    requires
        from <= s.len(),
    ensures
        r@ == s@.skip(from as int),
{
    let r = slice_chars(s, from, s.len());
    assert(s@.subrange(from as int, s@.len() as int) =~= s@.skip(from as int));
    r
}

/// The characters of `a` followed by those of `b`.
pub fn concat_chars(a: &Vec<char>, b: &Vec<char>) -> (r: Vec<char>)
    ensures
        r@ == a@ + b@,
{
    let mut out = slice_chars(a, 0, a.len());
    assert(a@.subrange(0, a@.len() as int) =~= a@);
    let mut i: usize = 0;
    while i < b.len()
        invariant
            i <= b.len(),
            out@ == a@ + b@.take(i as int),
        decreases b.len() - i,
    {
        out.push(b[i]);
        assert(b@.take(i + 1) == b@.take(i as int).push(b@[i as int]));
        i += 1;
    }
    assert(b@.take(b.len() as int) =~= b@);
    out
}

/// `str::replace` with a non-empty pattern, from position `i` on: occurrences
/// of `p` are taken left to right without overlap, each replaced by `r`.
pub open spec fn replace_from(s: Seq<char>, p: Seq<char>, r: Seq<char>, i: int) -> Seq<char>
    decreases s.len() - i,
{
    if p.len() == 0 || i < 0 || i >= s.len() {
        Seq::empty()
    } else if occurs_at(s, p, i) {
        r + replace_from(s, p, r, i + p.len())
    } else {
        seq![s[i]] + replace_from(s, p, r, i + 1)
    }
}

/// `s.replace(p, r)` for a non-empty `p`.
pub open spec fn replace_all(s: Seq<char>, p: Seq<char>, r: Seq<char>) -> Seq<char> {
    replace_from(s, p, r, 0)
}

/// Every occurrence of `p` (non-empty) in `s` replaced by `r`.
pub fn replace_all_chars(s: &Vec<char>, p: &Vec<char>, r: &Vec<char>) -> (out: Vec<char>)
    requires
        p.len() > 0,
    ensures
        out@ == replace_all(s@, p@, r@),
{
    let mut out: Vec<char> = Vec::new();
    let mut i: usize = 0;
    while i < s.len()
        invariant
            i <= s.len(),
            p@.len() > 0,
            out@ + replace_from(s@, p@, r@, i as int) == replace_all(s@, p@, r@),
        decreases s.len() - i,
    {
        let ghost before = out@;
        if matches_at(s, p, i) {
            let mut k: usize = 0;
            while k < r.len()
                invariant
                    k <= r.len(),
                    out@ == before + r@.take(k as int),
                decreases r.len() - k,
            {
                out.push(r[k]);
                assert(r@.take(k + 1) == r@.take(k as int).push(r@[k as int]));
                k += 1;
            }
            assert(r@.take(r.len() as int) =~= r@);
            assert(before + (r@ + replace_from(s@, p@, r@, i + p@.len())) =~= out@ + replace_from(
                s@, p@, r@, i + p@.len()));
            i = i + p.len();
        } else {
            out.push(s[i]);
            assert(before + (seq![s@[i as int]] + replace_from(s@, p@, r@, i + 1)) =~= out@
                + replace_from(s@, p@, r@, i + 1));
            i = i + 1;
        }
    }
    assert(out@ + Seq::<char>::empty() =~= out@);
    out
}

/// `s.replace(pat, rep)` for literals, `pat` non-empty.
pub fn replace_str(s: &Vec<char>, pat: &str, rep: &str) -> (out: Vec<char>)
    requires
        pat@.len() > 0,
    ensures
        out@ == replace_all(s@, pat@, rep@),
{
    let p = to_chars(pat);
    let r = to_chars(rep);
    replace_all_chars(s, &p, &r)
}

/// The characters of each string.
pub open spec fn strs_view(v: Seq<String>) -> Seq<Seq<char>> {
    v.map_values(|s: String| s@)
}

/// How many bytes `c` takes in UTF-8 (`char::len_utf8`).
pub open spec fn utf8_width(c: char) -> nat {
    if (c as u32) < 0x80 {
        1
    } else if (c as u32) < 0x800 {
        2
    } else if (c as u32) < 0x10000 {
        3
    } else {
        4
    }
}

/// How many bytes `s` takes in UTF-8 (`str::len`).
pub open spec fn utf8_len(s: Seq<char>) -> nat
    decreases s.len(),
{
    if s.len() == 0 {
        0
    } else {
        utf8_len(s.drop_last()) + utf8_width(s.last())
    }
}

/// Whether the UTF-8 form of `s` is longer than `n` bytes.
pub fn utf8_len_exceeds(s: &Vec<char>, n: usize) -> (r: bool)
    ensures
        r == (utf8_len(s@) > n),
{
    let mut total: usize = 0;
    let mut i: usize = 0;
    while i < s.len()
        invariant
            i <= s.len(),
            total == utf8_len(s@.take(i as int)),
            total <= n,
        decreases s.len() - i,
    {
        let c = s[i];
        let code = c as u32;
        let w: usize = if code < 0x80 {
            1
        } else if code < 0x800 {
            2
        } else if code < 0x10000 {
            3
        } else {
            4
        };
        assert(s@.take(i + 1).drop_last() =~= s@.take(i as int));
        if w > n - total {
            proof {
                lemma_utf8_len_prefix_monotone(s@, i + 1);
            }
            return true;
        }
        total = total + w;
        i += 1;
    }
    assert(s@.take(s.len() as int) =~= s@);
    false
}

pub proof fn lemma_utf8_len_prefix_monotone(s: Seq<char>, k: int)
    requires
        0 <= k <= s.len(),
    ensures
        utf8_len(s.take(k)) <= utf8_len(s),
    decreases s.len() - k,
{
    if k < s.len() {
        lemma_utf8_len_prefix_monotone(s, k + 1);
        assert(s.take(k + 1).drop_last() =~= s.take(k));
    } else {
        assert(s.take(k) =~= s);
    }
}

proof fn lemma_encode_concat(a: Seq<char>, b: Seq<char>)
    ensures
        vstd::utf8::encode_utf8(a + b) == vstd::utf8::encode_utf8(a) + vstd::utf8::encode_utf8(b),
    decreases a.len(),
{
    if a.len() == 0 {
        assert(a + b =~= b);
        assert(vstd::utf8::encode_utf8(a) =~= Seq::<u8>::empty());
        assert(Seq::<u8>::empty() + vstd::utf8::encode_utf8(b) =~= vstd::utf8::encode_utf8(b));
    } else {
        assert((a + b).drop_first() =~= a.drop_first() + b);
        assert((a + b)[0] == a[0]);
        lemma_encode_concat(a.drop_first(), b);
        let e = vstd::utf8::encode_scalar(a[0] as u32);
        assert(e + (vstd::utf8::encode_utf8(a.drop_first()) + vstd::utf8::encode_utf8(b)) =~= (e
            + vstd::utf8::encode_utf8(a.drop_first())) + vstd::utf8::encode_utf8(b));
    }
}

/// A `char` is a Unicode scalar value.
proof fn lemma_char_is_scalar(c: char)
    ensures
        (c as u32) <= 0x10FFFF,
        !(0xD800 <= (c as u32) <= 0xDFFF),
{
}

/// The byte count `utf8_len` is the length of the UTF-8 encoding.
pub proof fn lemma_utf8_len_is_encoded_len(s: Seq<char>)
    ensures
        utf8_len(s) == vstd::utf8::encode_utf8(s).len(),
    decreases s.len(),
{
    if s.len() > 0 {
        lemma_utf8_len_is_encoded_len(s.drop_last());
        lemma_encode_concat(s.drop_last(), seq![s.last()]);
        assert(s.drop_last() + seq![s.last()] =~= s);
        let c = s.last();
        let one = seq![c];
        assert(one.drop_first() =~= Seq::<char>::empty());
        assert(one[0] == c);
        assert(vstd::utf8::encode_utf8(one.drop_first()) == Seq::<u8>::empty());
        assert(vstd::utf8::encode_utf8(one) == vstd::utf8::encode_scalar(c as u32) + Seq::<u8>::empty());
        lemma_char_is_scalar(c);
        assert(vstd::utf8::encode_scalar(c as u32).len() == utf8_width(c));
    }
}

/// The number of bytes of `s` in UTF-8.
pub fn byte_len(s: &str) -> (r: usize)
    ensures
        r == utf8_len(s@),
{
    let b = s.as_bytes();
    proof {
        lemma_utf8_len_is_encoded_len(s@);
    }
    b.len()
}

/// How many bytes `c` takes in UTF-8.
pub fn char_byte_width(c: char) -> (r: usize)
    ensures
        r == utf8_width(c),
{
    let code = c as u32;
    if code < 0x80 {
        1
    } else if code < 0x800 {
        2
    } else if code < 0x10000 {
        3
    } else {
        4
    }
}


// ---------------------------------------------------------------------------
// Display width (unicode-width, named) and splitting after whitespace
// ---------------------------------------------------------------------------

/// The characters of an optional string.
pub open spec fn opt_view(o: Option<String>) -> Option<Seq<char>> {
    match o {
        Some(s) => Some(s@),
        None => None,
    }
}

/// The number of terminal columns `unicode-width` gives a string.
pub uninterp spec fn display_width(s: Seq<char>) -> nat;

/// The number of terminal columns `unicode-width` gives a character, if any.
pub uninterp spec fn char_display_width(c: char) -> Option<nat>;

/// Whether every character of `s` is printable ASCII (space to `~`).
pub open spec fn printable_ascii(s: Seq<char>) -> bool {
    forall|i: int| 0 <= i < s.len() ==> ' ' <= #[trigger] s[i] && s[i] <= '~'
}

/// `UnicodeWidthStr::width` of `unicode-width`: a function of the string,
/// one column for each character of a string of printable ASCII (its
/// `width_in_str` gives each character below U+00A0 other than a line feed
/// one column and keeps no state across them).
#[verifier::external_body]
pub(crate) fn str_width(s: &str) -> (r: usize)
    ensures
        r == display_width(s@),
        printable_ascii(s@) ==> r == s@.len(),
{
    unicode_width::UnicodeWidthStr::width(s)
}

/// `UnicodeWidthChar::width` of `unicode-width`: a function of the
/// character; one column for printable ASCII, none for the control codes
/// (below a space, and U+007F to U+009F).
#[verifier::external_body]
pub(crate) fn char_width(c: char) -> (r: Option<usize>)
    ensures
        r matches Some(w) ==> char_display_width(c) == Some(w as nat),
        r is None ==> char_display_width(c) is None,
        ' ' <= c && c <= '~' ==> r == Some(1usize),
        (c < ' ' || ('\u{7f}' <= c && c < '\u{a0}')) ==> r is None,
{
    unicode_width::UnicodeWidthChar::width(c)
}

/// The position of the first whitespace character of `s`, or `s.len()`.
pub open spec fn first_ws(s: Seq<char>) -> int
    decreases s.len(),
{
    if s.len() == 0 {
        0
    } else if unicode_whitespace(s[0]) {
        0
    } else {
        1 + first_ws(s.skip(1))
    }
}

/// The pieces of `s` cut after each whitespace character, the whitespace
/// kept at the end of its piece (`str::split_inclusive(char::is_whitespace)`).
pub open spec fn inclusive_pieces(s: Seq<char>) -> Seq<Seq<char>>
    decreases s.len(),
{
    if s.len() == 0 {
        seq![]
    } else {
        proof {
            lemma_first_ws_bounds(s);
        }
        let k = first_ws(s);
        if k < s.len() {
            seq![s.take(k + 1)] + inclusive_pieces(s.skip(k + 1))
        } else {
            seq![s]
        }
    }
}

pub proof fn lemma_first_ws_bounds(s: Seq<char>)
    ensures
        0 <= first_ws(s) <= s.len(),
        first_ws(s) < s.len() ==> unicode_whitespace(s[first_ws(s)]),
        forall|j: int| 0 <= j < first_ws(s) ==> !unicode_whitespace(#[trigger] s[j]),
    decreases s.len(),
{
    if s.len() > 0 && !unicode_whitespace(s[0]) {
        lemma_first_ws_bounds(s.skip(1));
        assert forall|j: int| 0 <= j < first_ws(s) implies !unicode_whitespace(#[trigger] s[j]) by {
            if j > 0 {
                assert(s[j] == s.skip(1)[j - 1]);
            }
        }
    }
}

proof fn lemma_first_ws_at(s: Seq<char>, k: int)
    requires
        0 <= k <= s.len(),
        k < s.len() ==> unicode_whitespace(s[k]),
        forall|j: int| 0 <= j < k ==> !unicode_whitespace(#[trigger] s[j]),
    ensures
        first_ws(s) == k,
    decreases s.len(),
{
    if s.len() > 0 && k > 0 {
        assert(!unicode_whitespace(s[0]));
        assert forall|j: int| 0 <= j < k - 1 implies !unicode_whitespace(#[trigger] s.skip(1)[j]) by {
            assert(s.skip(1)[j] == s[j + 1]);
        }
        lemma_first_ws_at(s.skip(1), k - 1);
    }
}

/// The pieces of `s` cut after each whitespace character.
pub fn split_inclusive_ws(s: &Vec<char>) -> (r: Vec<Vec<char>>)
    ensures
        r@.map_values(|p: Vec<char>| p@) == inclusive_pieces(s@),
{
    let mut out: Vec<Vec<char>> = Vec::new();
    let mut start: usize = 0;
    let mut i: usize = 0;
    assert(s@.skip(0) =~= s@);
    assert(out@.map_values(|p: Vec<char>| p@) + inclusive_pieces(s@) =~= inclusive_pieces(s@));
    while i < s.len()
        invariant
            start <= i <= s.len(),
            forall|j: int| start <= j < i ==> !unicode_whitespace(#[trigger] s@[j]),
            inclusive_pieces(s@) == out@.map_values(|p: Vec<char>| p@) + inclusive_pieces(
                s@.skip(start as int),
            ),
        decreases s.len() - i,
    {
        if char_is_whitespace(s[i]) {
            let piece = slice_chars(s, start, i + 1);
            proof {
                let rest = s@.skip(start as int);
                assert forall|j: int| 0 <= j < i - start implies !unicode_whitespace(#[trigger] rest[j]) by {
                    assert(rest[j] == s@[start + j]);
                }
                assert(rest[i - start] == s@[i as int]);
                lemma_first_ws_at(rest, i - start);
                assert(rest.take(i - start + 1) =~= piece@);
                assert(rest.skip(i - start + 1) =~= s@.skip(i + 1));
            }
            let ghost before = out@;
            out.push(piece);
            assert(out@.map_values(|p: Vec<char>| p@) =~= before.map_values(|p: Vec<char>| p@).push(
                piece@,
            ));
            assert(before.map_values(|p: Vec<char>| p@) + (seq![piece@] + inclusive_pieces(
                s@.skip(i + 1),
            )) =~= out@.map_values(|p: Vec<char>| p@) + inclusive_pieces(s@.skip(i + 1)));
            start = i + 1;
        }
        i += 1;
    }
    if start < s.len() {
        let piece = slice_chars(s, start, s.len());
        proof {
            let rest = s@.skip(start as int);
            assert forall|j: int| 0 <= j < rest.len() implies !unicode_whitespace(#[trigger] rest[j]) by {
                assert(rest[j] == s@[start + j]);
            }
            lemma_first_ws_at(rest, rest.len() as int);
            assert(rest =~= piece@);
        }
        let ghost before = out@;
        out.push(piece);
        assert(out@.map_values(|p: Vec<char>| p@) =~= before.map_values(|p: Vec<char>| p@).push(piece@));
    } else {
        assert(s@.skip(start as int).len() == 0);
        assert(out@.map_values(|p: Vec<char>| p@) + inclusive_pieces(s@.skip(start as int)) =~= out@.map_values(
            |p: Vec<char>| p@,
        ));
    }
    out
}


// ---------------------------------------------------------------------------
// Repetition, padding and splitting on a character
// ---------------------------------------------------------------------------

/// `n` copies of `c`.
pub open spec fn repeated(c: char, n: nat) -> Seq<char> {
    Seq::new(n, |i: int| c)
}

/// A `String` of `n` copies of `c` (`str::repeat` of a one-character string).
pub fn repeat_char(c: char, n: usize) -> (r: String)
    ensures
        r@ == repeated(c, n as nat),
{
    let mut out = String::new();
    let mut i: usize = 0;
    while i < n
        invariant
            i <= n,
            out@ == repeated(c, i as nat),
        decreases n - i,
    {
        push_char(&mut out, c);
        assert(out@ =~= repeated(c, (i + 1) as nat));
        i += 1;
    }
    out
}

/// `s` right-aligned in `width` columns with spaces (`{:>width$}`).
pub open spec fn space_pad(s: Seq<char>, width: nat) -> Seq<char> {
    if s.len() >= width {
        s
    } else {
        repeated(' ', (width - s.len()) as nat) + s
    }
}

/// The parts of `s` between occurrences of `c` (`str::split` with a
/// character); there is always at least one part.
pub open spec fn split_on(s: Seq<char>, c: char) -> Seq<Seq<char>>
    decreases s.len(),
{
    match first_index_of(s, c) {
        Some(k) => if 0 <= k < s.len() {
            seq![s.take(k)] + split_on(s.skip(k + 1), c)
        } else {
            seq![s]
        },
        None => seq![s],
    }
}

/// The parts of `s` between occurrences of `c`.
pub fn split_on_char(s: &Vec<char>, c: char) -> (r: Vec<Vec<char>>)
    ensures
        r@.map_values(|p: Vec<char>| p@) == split_on(s@, c),
{
    let mut out: Vec<Vec<char>> = Vec::new();
    let mut rest = slice_chars(s, 0, s.len());
    assert(rest@ =~= s@);
    assert(out@.map_values(|p: Vec<char>| p@) + split_on(rest@, c) =~= split_on(s@, c));
    loop
        invariant
            out@.map_values(|p: Vec<char>| p@) + split_on(rest@, c) == split_on(s@, c),
        decreases rest@.len(),
    {
        match find_char(&rest, c) {
            Some(k) => {
                let part = slice_chars(&rest, 0, k);
                let next = skip_chars(&rest, k + 1);
                assert(part@ =~= rest@.take(k as int));
                let ghost before = out@;
                out.push(part);
                assert(out@.map_values(|p: Vec<char>| p@) =~= before.map_values(|p: Vec<char>| p@).push(
                    part@,
                ));
                assert(before.map_values(|p: Vec<char>| p@) + (seq![part@] + split_on(next@, c))
                    =~= out@.map_values(|p: Vec<char>| p@) + split_on(next@, c));
                rest = next;
            },
            None => {
                let ghost before = out@;
                let ghost rv = rest@;
                out.push(rest);
                assert(out@.map_values(|p: Vec<char>| p@) =~= before.map_values(|p: Vec<char>| p@).push(
                    rv,
                ));
                assert(before.map_values(|p: Vec<char>| p@) + seq![rv] =~= out@.map_values(
                    |p: Vec<char>| p@,
                ));
                return out;
            },
        }
    }
}

} // verus!
