//! Reading a spoken-article duration ("12:34", "1 hour 5 minutes", "3m20s")
//! as a number of seconds.
use crate::text::{
    char_is_alphabetic, char_is_alphanumeric, find_char, slice_chars, split_whitespace_spans,
    spans_well_formed, starts_with_str, chars_eq_str, to_chars, trim_bounds, trim_chars, trim_seq,
    unicode_alphabetic, unicode_alphanumeric, word_spans, words, has_prefix, ascii_lower,
};
use vstd::prelude::*;

verus! {

// ---------------------------------------------------------------------------
// Specification
// ---------------------------------------------------------------------------

/// Letters, digits, `:` and `.` are kept (ASCII letters lower-cased);
/// everything else becomes a space.
pub open spec fn duration_char(c: char) -> char {
    if unicode_alphanumeric(c) || c == ':' || c == '.' {
        ascii_lower(c)
    } else {
        ' '
    }
}

/// The value of a string of ASCII digits.
pub open spec fn digits_value(s: Seq<char>) -> int
    decreases s.len(),
{
    if s.len() == 0 {
        0
    } else {
        digits_value(s.drop_last()) * 10 + (s.last() as int - 48)
    }
}

pub open spec fn all_ascii_digits(s: Seq<char>) -> bool {
    forall|i: int| 0 <= i < s.len() ==> '0' <= #[trigger] s[i] && s[i] <= '9'
}

/// `str::parse::<u64>` on a string without sign characters: one or more ASCII
/// digits whose value fits in a `u64`.
pub open spec fn parse_u64(s: Seq<char>) -> Option<int> {
    if s.len() > 0 && all_ascii_digits(s) && digits_value(s) <= u64::MAX {
        Some(digits_value(s))
    } else {
        None
    }
}

/// The pieces of `s` between occurrences of `c` (`str::split`), empty pieces
/// included.
pub open spec fn split_on(s: Seq<char>, c: char) -> Seq<Seq<char>>
    decreases s.len(),
{
    match crate::text::first_index_of(s, c) {
        Some(i) => if 0 <= i < s.len() {
            seq![s.take(i)] + split_on(s.skip(i + 1), c)
        } else {
            seq![s]
        },
        None => seq![s],
    }
}

/// A `m:s` or `h:m:s` token's value in seconds.
pub open spec fn clock_value(tok: Seq<char>) -> Option<int> {
    let parts = split_on(tok, ':');
    if !tok.contains(':') {
        None
    } else if parts.len() == 2 {
        match (parse_u64(trim_seq(parts[0])), parse_u64(trim_seq(parts[1]))) {
            (Some(m), Some(s)) => Some(m * 60 + s),
            _ => None,
        }
    } else if parts.len() == 3 {
        match (parse_u64(trim_seq(parts[0])), parse_u64(trim_seq(parts[1])), parse_u64(trim_seq(parts[2]))) {
            (Some(h), Some(m), Some(s)) => Some(h * 3600 + m * 60 + s),
            _ => None,
        }
    } else {
        None
    }
}

/// The value of the first clock token at or after `i`.
pub open spec fn first_clock_value(ws: Seq<Seq<char>>, i: int) -> Option<int>
    decreases ws.len() - i,
{
    if i < 0 || i >= ws.len() {
        None
    } else {
        match clock_value(ws[i]) {
            Some(v) => Some(v),
            None => first_clock_value(ws, i + 1),
        }
    }
}

/// Seconds per unit for a unit word following a number (0: not a unit).
pub open spec fn unit_word_scale(u: Seq<char>) -> int {
    if has_prefix(u, "hour"@) || has_prefix(u, "hr"@) || u == "h"@ {
        3600
    } else if has_prefix(u, "minute"@) || has_prefix(u, "min"@) || u == "m"@ {
        60
    } else if has_prefix(u, "second"@) || has_prefix(u, "sec"@) || u == "s"@ {
        1
    } else {
        0
    }
}

/// Seconds per unit for a unit glued to a number (0: not a unit).
pub open spec fn unit_suffix_scale(u: Seq<char>) -> int {
    if has_prefix(u, "h"@) {
        3600
    } else if has_prefix(u, "m"@) {
        60
    } else if has_prefix(u, "s"@) {
        1
    } else {
        0
    }
}

/// The position of the first alphabetic character of `w`.
pub open spec fn first_alpha_from(w: Seq<char>, i: int) -> Option<int>
    decreases w.len() - i,
{
    if i < 0 || i >= w.len() {
        None
    } else if unicode_alphabetic(w[i]) {
        Some(i)
    } else {
        first_alpha_from(w, i + 1)
    }
}

/// The seconds a glued token such as `3m` or `20sec` stands for, if any.
pub open spec fn glued_term(w: Seq<char>) -> Option<int> {
    match first_alpha_from(w, 0) {
        Some(pos) => match parse_u64(w.take(pos)) {
            Some(num) => if unit_suffix_scale(w.skip(pos)) > 0 {
                Some(num * unit_suffix_scale(w.skip(pos)))
            } else {
                None
            },
            None => None,
        },
        None => None,
    }
}

/// The seconds named by the tokens from `i` on, and whether any were named:
/// a number followed by a unit word, or a number with a unit glued to it.
pub open spec fn unit_total(ws: Seq<Seq<char>>, i: int) -> (int, bool)
    decreases ws.len() - i,
{
    if i < 0 || i >= ws.len() {
        (0, false)
    } else {
        match parse_u64(ws[i]) {
            Some(num) => if i + 1 < ws.len() && unit_word_scale(ws[i + 1]) > 0 {
                let rest = unit_total(ws, i + 2);
                (rest.0 + num * unit_word_scale(ws[i + 1]), true)
            } else {
                unit_total(ws, i + 1)
            },
            None => match glued_term(ws[i]) {
                Some(v) => {
                    let rest = unit_total(ws, i + 1);
                    (rest.0 + v, true)
                },
                None => unit_total(ws, i + 1),
            },
        }
    }
}

/// A duration string with every character passed through `duration_char`.
pub open spec fn cleaned_duration(s: Seq<char>) -> Seq<char> {
    s.map_values(|c: char| duration_char(c))
}

/// The tokens of a duration string after cleaning.
pub open spec fn duration_tokens(s: Seq<char>) -> Seq<Seq<char>> {
    words(trim_seq(cleaned_duration(s)))
}

/// The number of seconds a duration string stands for, computed without
/// bound: the first clock token if there is one, else the sum of the
/// number-and-unit terms when that sum is positive.
pub open spec fn duration_seconds(s: Seq<char>) -> Option<int> {
    let ws = duration_tokens(s);
    if trim_seq(cleaned_duration(s)).len() == 0 {
        None
    } else if first_clock_value(ws, 0) is Some {
        first_clock_value(ws, 0)
    } else if unit_total(ws, 0).1 && unit_total(ws, 0).0 > 0 {
        Some(unit_total(ws, 0).0)
    } else {
        None
    }
}

/// The seconds count of `s` does not exceed what a `u64` holds (the
/// arithmetic of the reading never overflows).
pub open spec fn duration_fits(s: Seq<char>) -> bool {
    let ws = duration_tokens(s);
    if trim_seq(cleaned_duration(s)).len() == 0 {
        true
    } else if first_clock_value(ws, 0) is Some {
        first_clock_value(ws, 0)->0 <= u64::MAX
    } else {
        unit_total(ws, 0).0 <= u64::MAX
    }
}

// ---------------------------------------------------------------------------
// Lemmas
// ---------------------------------------------------------------------------

proof fn lemma_digits_value_nonneg(s: Seq<char>)
    requires
        all_ascii_digits(s),
    ensures
        digits_value(s) >= 0,
    decreases s.len(),
{
    if s.len() > 0 {
        assert(all_ascii_digits(s.drop_last()));
        lemma_digits_value_nonneg(s.drop_last());
        assert(s.last() == s[s.len() - 1]);
    }
}

proof fn lemma_unit_total_nonneg(ws: Seq<Seq<char>>, i: int)
    ensures
        unit_total(ws, i).0 >= 0,
    decreases ws.len() + 2 - i,
{
    if 0 <= i < ws.len() {
        lemma_unit_total_nonneg(ws, i + 1);
        lemma_unit_total_nonneg(ws, i + 2);
        if let Some(n) = parse_u64(ws[i]) {
            lemma_digits_value_nonneg(ws[i]);
        }
        if let Some(pos) = first_alpha_from(ws[i], 0) {
            if parse_u64(ws[i].take(pos)) is Some {
                lemma_digits_value_nonneg(ws[i].take(pos));
            }
        }
    }
}

proof fn lemma_first_alpha_from(w: Seq<char>, i: int)
    requires
        0 <= i,
    ensures
        first_alpha_from(w, i) matches Some(p) ==> i <= p < w.len() && unicode_alphabetic(w[p])
            && forall|j: int| i <= j < p ==> !unicode_alphabetic(#[trigger] w[j]),
        first_alpha_from(w, i) is None ==> forall|j: int| i <= j < w.len() ==> !unicode_alphabetic(
            #[trigger] w[j],
        ),
    decreases w.len() - i,
{
    if i < w.len() && !unicode_alphabetic(w[i]) {
        lemma_first_alpha_from(w, i + 1);
    }
}

// ---------------------------------------------------------------------------
// Implementation
// ---------------------------------------------------------------------------

/// `char::to_ascii_lowercase`.
pub fn ascii_lower_exec(c: char) -> (r: char)
    ensures
        r == ascii_lower(c),
{
    if 'A' <= c && c <= 'Z' {
        let u = (c as u32) + 32;
        let table = ['a', 'b', 'c', 'd', 'e', 'f', 'g', 'h', 'i', 'j', 'k', 'l', 'm', 'n', 'o', 'p',
            'q', 'r', 's', 't', 'u', 'v', 'w', 'x', 'y', 'z'];
        let k = ((c as u32) - 65) as usize;
        proof {
            assert(table@ == seq!['a', 'b', 'c', 'd', 'e', 'f', 'g', 'h', 'i', 'j', 'k', 'l', 'm', 'n',
                'o', 'p', 'q', 'r', 's', 't', 'u', 'v', 'w', 'x', 'y', 'z']);
            assert(table@[k as int] as u32 == u) by {
                assert(0 <= k < 26);
            }
        }
        table[k]
    } else {
        c
    }
}

/// `str::parse::<u64>` for a string that holds no sign characters.
pub fn parse_u64_chars(s: &Vec<char>) -> (r: Option<u64>)
    ensures
        r matches Some(v) ==> parse_u64(s@) == Some(v as int),
        r is None ==> parse_u64(s@) is None,
{
    if s.len() == 0 {
        return None;
    }
    let mut v: u64 = 0;
    let mut i: usize = 0;
    while i < s.len()
        invariant
            0 < s.len(),
            i <= s.len(),
            all_ascii_digits(s@.take(i as int)),
            v as int == digits_value(s@.take(i as int)),
        decreases s.len() - i,
    {
        let c = s[i];
        proof {
            assert(s@.take(i + 1).drop_last() =~= s@.take(i as int));
            assert(s@.take(i + 1).last() == c);
        }
        if c < '0' || c > '9' {
            proof {
                assert(!all_ascii_digits(s@)) by {
                    assert(s@[i as int] == c);
                }
            }
            return None;
        }
        let d = ((c as u32) - 48) as u64;
        proof {
            assert(all_ascii_digits(s@.take(i + 1))) by {
                assert forall|j: int| 0 <= j < i + 1 implies '0' <= #[trigger] s@.take(i + 1)[j]
                    && s@.take(i + 1)[j] <= '9' by {
                    if j < i {
                        assert(s@.take(i + 1)[j] == s@.take(i as int)[j]);
                    }
                }
            }
        }
        match v.checked_mul(10) {
            Some(v10) => match v10.checked_add(d) {
                Some(nv) => {
                    v = nv;
                },
                None => {
                    proof {
                        lemma_digits_above(s@, i as int + 1);
                    }
                    return None;
                },
            },
            None => {
                proof {
                    lemma_digits_value_nonneg(s@.take(i + 1));
                    lemma_digits_above(s@, i as int + 1);
                }
                return None;
            },
        }
        i += 1;
    }
    assert(s@.take(s.len() as int) =~= s@);
    Some(v)
}

/// Once a prefix of the digits exceeds the `u64` range, the whole does too
/// (or the string is not all digits).
proof fn lemma_digits_above(s: Seq<char>, k: int)
    requires
        0 < k <= s.len(),
        all_ascii_digits(s.take(k)),
        digits_value(s.take(k)) > u64::MAX,
    ensures
        parse_u64(s) is None,
    decreases s.len() - k,
{
    if k < s.len() {
        if all_ascii_digits(s) {
            let t = s.take(k + 1);
            assert(t.drop_last() =~= s.take(k));
            assert(all_ascii_digits(t)) by {
                assert forall|j: int| 0 <= j < t.len() implies '0' <= #[trigger] t[j] && t[j] <= '9' by {
                    assert(t[j] == s[j]);
                }
            }
            assert(t.last() == s[k]);
            assert(digits_value(t) >= digits_value(s.take(k)) * 10);
            lemma_digits_above(s, k + 1);
        }
    } else {
        assert(s.take(k) =~= s);
    }
}


/// The clock reading of one token, if it has one.
fn clock_value_exec(tok: &Vec<char>) -> (r: Result<Option<u64>, ()>)
    ensures
        r matches Ok(Some(v)) ==> clock_value(tok@) == Some(v as int),
        r matches Ok(None) ==> clock_value(tok@) is None,
        r is Err ==> (clock_value(tok@) matches Some(v) && v > u64::MAX),
{
    let p1 = match find_char(tok, ':') {
        Some(p) => p,
        None => {
            return Ok(None);
        },
    };
    let first = slice_chars(tok, 0, p1);
    let rest1 = slice_chars(tok, p1 + 1, tok.len());
    proof {
        assert(rest1@ =~= tok@.skip(p1 + 1));
        assert(tok@.contains(':'));
    }
    let ghost parts = split_on(tok@, ':');
    match find_char(&rest1, ':') {
        None => {
            proof {
                assert(split_on(rest1@, ':') == seq![rest1@]);
                assert(parts =~= seq![first@, rest1@]);
            }
            let a = parse_u64_chars(&trim_chars(&first));
            let b = parse_u64_chars(&trim_chars(&rest1));
            match (a, b) {
                (Some(m), Some(sec)) => match m.checked_mul(60) {
                    Some(m60) => match m60.checked_add(sec) {
                        Some(t) => Ok(Some(t)),
                        None => Err(()),
                    },
                    None => {
                        proof {
                            lemma_digits_value_nonneg(trim_seq(parts[1]));
                        }
                        Err(())
                    },
                },
                _ => Ok(None),
            }
        },
        Some(p2) => {
            let second = slice_chars(&rest1, 0, p2);
            let rest2 = slice_chars(&rest1, p2 + 1, rest1.len());
            proof {
                assert(rest2@ =~= rest1@.skip(p2 + 1));
            }
            match find_char(&rest2, ':') {
                None => {
                    proof {
                        assert(split_on(rest2@, ':') == seq![rest2@]);
                        assert(split_on(rest1@, ':') =~= seq![second@, rest2@]);
                        assert(parts =~= seq![first@, second@, rest2@]);
                    }
                    let a = parse_u64_chars(&trim_chars(&first));
                    let b = parse_u64_chars(&trim_chars(&second));
                    let c = parse_u64_chars(&trim_chars(&rest2));
                    match (a, b, c) {
                        (Some(h), Some(m), Some(sec)) => {
                            proof {
                                lemma_digits_value_nonneg(trim_seq(parts[0]));
                                lemma_digits_value_nonneg(trim_seq(parts[1]));
                                lemma_digits_value_nonneg(trim_seq(parts[2]));
                            }
                            let h3600 = match h.checked_mul(3600) {
                                Some(x) => x,
                                None => {
                                    return Err(());
                                },
                            };
                            let m60 = match m.checked_mul(60) {
                                Some(x) => x,
                                None => {
                                    return Err(());
                                },
                            };
                            let t1 = match h3600.checked_add(m60) {
                                Some(x) => x,
                                None => {
                                    return Err(());
                                },
                            };
                            match t1.checked_add(sec) {
                                Some(t) => Ok(Some(t)),
                                None => Err(()),
                            }
                        },
                        _ => Ok(None),
                    }
                },
                Some(p3) => {
                    proof {
                        let rest3 = rest2@.skip(p3 + 1);
                        assert(split_on(rest2@, ':') =~= seq![rest2@.take(p3 as int)] + split_on(rest3, ':'));
                        assert(split_on(rest1@, ':') =~= seq![second@] + split_on(rest2@, ':'));
                        assert(parts =~= seq![first@] + split_on(rest1@, ':'));
                        assert(parts.len() >= 4);
                    }
                    Ok(None)
                },
            }
        },
    }
}


fn unit_word_scale_exec(u: &Vec<char>) -> (r: u64)
    ensures
        r as int == unit_word_scale(u@),
{
    if starts_with_str(u, "hour") || starts_with_str(u, "hr") || chars_eq_str(u, "h") {
        3600
    } else if starts_with_str(u, "minute") || starts_with_str(u, "min") || chars_eq_str(u, "m") {
        60
    } else if starts_with_str(u, "second") || starts_with_str(u, "sec") || chars_eq_str(u, "s") {
        1
    } else {
        0
    }
}

fn unit_suffix_scale_exec(u: &Vec<char>) -> (r: u64)
    ensures
        r as int == unit_suffix_scale(u@),
{
    if starts_with_str(u, "h") {
        3600
    } else if starts_with_str(u, "m") {
        60
    } else if starts_with_str(u, "s") {
        1
    } else {
        0
    }
}

/// The seconds a glued token such as `3m` stands for.
fn glued_term_exec(w: &Vec<char>) -> (r: Result<Option<u64>, ()>)
    ensures
        r matches Ok(Some(v)) ==> glued_term(w@) == Some(v as int),
        r matches Ok(None) ==> glued_term(w@) is None,
        r is Err ==> (glued_term(w@) matches Some(v) && v > u64::MAX),
{
    let mut pos: usize = 0;
    while pos < w.len() && !char_is_alphabetic(w[pos])
        invariant
            pos <= w.len(),
            first_alpha_from(w@, 0) == first_alpha_from(w@, pos as int),
        decreases w.len() - pos,
    {
        pos += 1;
    }
    if pos == w.len() {
        return Ok(None);
    }
    let digits = slice_chars(w, 0, pos);
    let unit = slice_chars(w, pos, w.len());
    assert(unit@ =~= w@.skip(pos as int));
    match parse_u64_chars(&digits) {
        Some(num) => {
            let scale = unit_suffix_scale_exec(&unit);
            if scale == 0 {
                return Ok(None);
            }
            match num.checked_mul(scale) {
                Some(v) => Ok(Some(v)),
                None => Err(()),
            }
        },
        None => Ok(None),
    }
}

/// Reads a duration string with checked arithmetic: `Err` exactly when the
/// number of seconds does not fit in a `u64`.
pub fn checked_duration_to_secs(dur_str: &str) -> (r: Result<Option<u64>, ()>)
    ensures
        r is Err <==> !duration_fits(dur_str@),
        r matches Ok(v) ==> (match duration_seconds(dur_str@) {
            Some(x) => v == Some(x as u64) && x == v->0 as int,
            None => v is None,
        }),
{
    let raw = to_chars(dur_str);
    let mut clean: Vec<char> = Vec::new();
    let mut i: usize = 0;
    while i < raw.len()
        invariant
            i <= raw.len(),
            clean@ == cleaned_duration(raw@.take(i as int)),
        decreases raw.len() - i,
    {
        let c = raw[i];
        let keep = char_is_alphanumeric(c) || c == ':' || c == '.';
        clean.push(if keep { ascii_lower_exec(c) } else { ' ' });
        assert(cleaned_duration(raw@.take(i + 1)) =~= cleaned_duration(raw@.take(i as int)).push(
            duration_char(c),
        ));
        i += 1;
    }
    assert(raw@.take(raw.len() as int) =~= raw@);
    let s = trim_chars(&clean);
    let ghost ws = duration_tokens(dur_str@);
    if s.len() == 0 {
        return Ok(None);
    }
    let spans = split_whitespace_spans(&s);
    assert(ws == words(s@));
    let mut k: usize = 0;
    while k < spans.len()
        invariant
            k <= spans.len(),
            ws == words(s@),
            ws == duration_tokens(dur_str@),
            trim_seq(cleaned_duration(dur_str@)).len() > 0,
            spans@.len() == word_spans(s@).len(),
            forall|j: int| 0 <= j < spans@.len() ==> (#[trigger] spans@[j]).0 as int == word_spans(s@)[j].0
                && spans@[j].1 as int == word_spans(s@)[j].1,
            spans_well_formed(s@, word_spans(s@)),
            first_clock_value(ws, 0) == first_clock_value(ws, k as int),
        decreases spans.len() - k,
    {
        let (a, b) = spans[k];
        assert(0 <= word_spans(s@)[k as int].0 < word_spans(s@)[k as int].1 <= s@.len());
        let tok = slice_chars(&s, a, b);
        assert(tok@ == ws[k as int]);
        match clock_value_exec(&tok) {
            Ok(Some(v)) => {
                return Ok(Some(v));
            },
            Err(()) => {
                return Err(());
            },
            Ok(None) => {},
        }
        k += 1;
    }
    assert(first_clock_value(ws, spans.len() as int) is None);
    let mut total: u64 = 0;
    let mut found = false;
    let mut i: usize = 0;
    proof {
        lemma_unit_total_nonneg(ws, 0);
    }
    while i < spans.len()
        invariant
            i <= spans.len() + 1,
            ws == words(s@),
            ws == duration_tokens(dur_str@),
            trim_seq(cleaned_duration(dur_str@)).len() > 0,
            first_clock_value(ws, 0) is None,
            ws.len() == spans@.len(),
            spans@.len() == word_spans(s@).len(),
            forall|j: int| 0 <= j < spans@.len() ==> (#[trigger] spans@[j]).0 as int == word_spans(s@)[j].0
                && spans@[j].1 as int == word_spans(s@)[j].1,
            spans_well_formed(s@, word_spans(s@)),
            unit_total(ws, 0).0 == total + unit_total(ws, i as int).0,
            unit_total(ws, 0).1 == (found || unit_total(ws, i as int).1),
        decreases spans.len() + 1 - i,
    {
        proof {
            lemma_unit_total_nonneg(ws, i + 1);
            lemma_unit_total_nonneg(ws, i + 2);
        }
        let (a, b) = spans[i];
        assert(0 <= word_spans(s@)[i as int].0 < word_spans(s@)[i as int].1 <= s@.len());
        let w = slice_chars(&s, a, b);
        assert(w@ == ws[i as int]);
        match parse_u64_chars(&w) {
            Some(num) => {
                if i + 1 < spans.len() {
                    let (a2, b2) = spans[i + 1];
                    assert(0 <= word_spans(s@)[i + 1].0 < word_spans(s@)[i + 1].1 <= s@.len());
                    let unit = slice_chars(&s, a2, b2);
                    assert(unit@ == ws[i + 1]);
                    let scale = unit_word_scale_exec(&unit);
                    if scale > 0 {
                        let term = match num.checked_mul(scale) {
                            Some(x) => x,
                            None => {
                                return Err(());
                            },
                        };
                        total = match total.checked_add(term) {
                            Some(x) => x,
                            None => {
                                return Err(());
                            },
                        };
                        found = true;
                        i += 2;
                        continue;
                    }
                }
            },
            None => {
                match glued_term_exec(&w) {
                    Ok(Some(v)) => {
                        total = match total.checked_add(v) {
                            Some(x) => x,
                            None => {
                                return Err(());
                            },
                        };
                        found = true;
                    },
                    Ok(None) => {},
                    Err(()) => {
                        return Err(());
                    },
                }
            },
        }
        i += 1;
    }
    assert(unit_total(ws, i as int) == (0int, false));
    if found && total > 0 {
        Ok(Some(total))
    } else {
        Ok(None)
    }
}

/// Reads a spoken-article duration as seconds: the first `m:s` or `h:m:s`
/// token, else the sum of number-and-unit terms (`"1 hour 5 min"`, `"3m20s"`),
/// `None` when nothing positive is found.
pub fn parse_duration_to_secs(dur_str: &str) -> (r: Option<u64>)
    requires
        duration_fits(dur_str@),
    ensures
        match duration_seconds(dur_str@) {
            Some(x) => r == Some(x as u64) && x == r->0 as int,
            None => r is None,
        },
{
    match checked_duration_to_secs(dur_str) {
        Ok(v) => v,
        Err(()) => None,
    }
}

/// Whether reading `dur_str` stays within the `u64` range.
pub fn duration_in_range(dur_str: &str) -> (r: bool)
    ensures
        r == duration_fits(dur_str@),
{
    checked_duration_to_secs(dur_str).is_ok()
}

} // verus!
