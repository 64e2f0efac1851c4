//! Character references in text runs: `&amp;`, `&lt;`, `&gt;`, `&quot;`,
//! `&apos;`, `&nbsp;` and numeric ones (`&#91;`, `&#x5B;`).
use crate::text::{string_from_chars, to_chars};
use vstd::prelude::*;

verus! {

/// The value of `c` as a digit of base 10, or of base 16 when `hex`.
pub open spec fn digit_value(c: char, hex: bool) -> Option<nat> {
    if '0' <= c && c <= '9' {
        Some((c as u32 - '0' as u32) as nat)
    } else if hex && 'a' <= c && c <= 'f' {
        Some((c as u32 - 'a' as u32 + 10) as nat)
    } else if hex && 'A' <= c && c <= 'F' {
        Some((c as u32 - 'A' as u32 + 10) as nat)
    } else {
        None
    }
}

/// The number the digits `s` spell (base 16 when `hex`), if all are digits.
pub open spec fn digits_number(s: Seq<char>, hex: bool) -> Option<nat>
    decreases s.len(),
{
    if s.len() == 0 {
        Some(0)
    } else {
        match (digits_number(s.drop_last(), hex), digit_value(s.last(), hex)) {
            (Some(a), Some(d)) => Some(a * (if hex { 16nat } else { 10nat }) + d),
            _ => None,
        }
    }
}

/// A Unicode scalar value.
pub open spec fn is_scalar(v: nat) -> bool {
    v <= 0x10FFFF && !(0xD800 <= v <= 0xDFFF)
}

/// The character a numeric reference body (`#91`, `#x5B`) stands for.
pub open spec fn numeric_reference(name: Seq<char>) -> Option<char> {
    if name.len() < 2 || name[0] != '#' {
        None
    } else {
        let hex = name[1] == 'x' || name[1] == 'X';
        let digits = if hex { name.skip(2) } else { name.skip(1) };
        if digits.len() == 0 {
            None
        } else {
            match digits_number(digits, hex) {
                Some(v) => if is_scalar(v) { Some(v as char) } else { None },
                None => None,
            }
        }
    }
}

/// The character a reference body (what stands between `&` and `;`) stands for.
pub open spec fn reference_char(name: Seq<char>) -> Option<char> {
    if name == "amp"@ {
        Some('&')
    } else if name == "lt"@ {
        Some('<')
    } else if name == "gt"@ {
        Some('>')
    } else if name == "quot"@ {
        Some('"')
    } else if name == "apos"@ {
        Some('\'')
    } else if name == "nbsp"@ {
        Some('\u{a0}')
    } else {
        numeric_reference(name)
    }
}

/// The first `;` of `s` at a position in `k..limit`.
pub open spec fn semicolon_in(s: Seq<char>, k: int, limit: int) -> Option<int>
    decreases limit - k,
{
    if k >= limit || k >= s.len() || k < 0 {
        None
    } else if s[k] == ';' {
        Some(k)
    } else {
        semicolon_in(s, k + 1, limit)
    }
}

pub proof fn lemma_semicolon_in_bounds(s: Seq<char>, k: int, limit: int)
    ensures
        semicolon_in(s, k, limit) matches Some(j) ==> k <= j < s.len() && j < limit && s[j] == ';',
    decreases limit - k,
{
    if !(k >= limit || k >= s.len() || k < 0) && s[k] != ';' {
        lemma_semicolon_in_bounds(s, k + 1, limit);
    }
}

/// How many characters after an `&` its closing `;` is looked for.
pub open spec fn max_reference_len() -> int {
    10
}

/// `s` with each recognised reference replaced by its character, read left
/// to right; an `&` that starts no recognised reference stays as it is.
pub open spec fn decode_entities(s: Seq<char>) -> Seq<char>
    decreases s.len(),
{
    if s.len() == 0 {
        seq![]
    } else if s[0] == '&' {
        proof {
            lemma_semicolon_in_bounds(s, 1, max_reference_len() + 1);
        }
        match semicolon_in(s, 1, max_reference_len() + 1) {
            Some(j) => match reference_char(s.subrange(1, j)) {
                Some(c) => seq![c] + decode_entities(s.skip(j + 1)),
                None => seq!['&'] + decode_entities(s.skip(1)),
            },
            None => seq!['&'] + decode_entities(s.skip(1)),
        }
    } else {
        seq![s[0]] + decode_entities(s.skip(1))
    }
}

/// `char::from_u32`: `Some` exactly for Unicode scalar values.
#[verifier::external_body]
fn char_from_u32(v: u32) -> (r: Option<char>)
    ensures
        r == (if is_scalar(v as nat) { Some(v as char) } else { None }),
{
    char::from_u32(v)
}

proof fn lemma_number_grows(s: Seq<char>, k: int, hex: bool)
    requires
        0 <= k <= s.len(),
        digits_number(s, hex) is Some,
    ensures
        digits_number(s.take(k), hex) is Some,
        digits_number(s.take(k), hex)->0 <= digits_number(s, hex)->0,
    decreases s.len() - k,
{
    if k < s.len() {
        lemma_number_grows(s, k + 1, hex);
        assert(s.take(k + 1).drop_last() =~= s.take(k));
        let a = digits_number(s.take(k), hex)->0;
        let b: nat = if hex { 16 } else { 10 };
        assert(a <= a * b) by (nonlinear_arith)
            requires
                b >= 10,
        ;
    } else {
        assert(s.take(k) =~= s);
    }
}

fn digit_value_exec(c: char, hex: bool) -> (r: Option<u32>)
    ensures
        r matches Some(v) ==> digit_value(c, hex) == Some(v as nat) && v < 16,
        r is None ==> digit_value(c, hex) is None,
{
    if '0' <= c && c <= '9' {
        Some(c as u32 - '0' as u32)
    } else if hex && 'a' <= c && c <= 'f' {
        Some(c as u32 - 'a' as u32 + 10)
    } else if hex && 'A' <= c && c <= 'F' {
        Some(c as u32 - 'A' as u32 + 10)
    } else {
        None
    }
}

fn numeric_reference_exec(s: &Vec<char>, from: usize, to: usize) -> (r: Option<char>)
    requires
        from <= to <= s.len(),
    ensures
        r == numeric_reference(s@.subrange(from as int, to as int)),
{
    let ghost name = s@.subrange(from as int, to as int);
    if to - from < 2 || s[from] != '#' {
        return None;
    }
    let hex = s[from + 1] == 'x' || s[from + 1] == 'X';
    assert(name.len() >= 2 && name[0] == '#');
    assert(hex == (name[1] == 'x' || name[1] == 'X'));
    let start = if hex { from + 2 } else { from + 1 };
    let ghost digits = if hex { name.skip(2) } else { name.skip(1) };
    assert(digits =~= s@.subrange(start as int, to as int));
    if start == to {
        return None;
    }
    let base: u32 = if hex { 16 } else { 10 };
    let mut v: u32 = 0;
    let mut i = start;
    while i < to
        invariant
            start <= i <= to <= s.len(),
            base == (if hex { 16u32 } else { 10u32 }),
            digits == s@.subrange(start as int, to as int),
            name == s@.subrange(from as int, to as int),
            name.len() >= 2 && name[0] == '#',
            hex == (name[1] == 'x' || name[1] == 'X'),
            digits == (if hex { name.skip(2) } else { name.skip(1) }),
            digits.len() > 0,
            digits_number(digits.take(i - start), hex) == Some(v as nat),
            v <= 0x10FFFF,
        decreases to - i,
    {
        let c = s[i];
        assert(digits.take(i + 1 - start).drop_last() =~= digits.take(i - start));
        assert(digits.take(i + 1 - start).last() == c);
        match digit_value_exec(c, hex) {
            Some(d) => {
                assert(v * base + d <= 0x10FFFF * 16 + 16) by (nonlinear_arith)
                    requires
                        v <= 0x10FFFF,
                        base <= 16,
                        d < 16,
                ;
                let nv = v * base + d;
                if nv > 0x10FFFF {
                    proof {
                        assert(digits_number(digits.take(i + 1 - start), hex) == Some(nv as nat));
                        if digits_number(digits, hex) is Some {
                            lemma_number_grows(digits, i + 1 - start, hex);
                        }
                    }
                    return None;
                }
                v = nv;
            },
            None => {
                proof {
                    assert(digits_number(digits.take(i + 1 - start), hex) is None);
                    if digits_number(digits, hex) is Some {
                        lemma_number_grows(digits, i + 1 - start, hex);
                    }
                }
                return None;
            },
        }
        i += 1;
    }
    assert(digits.take(to - start) =~= digits);
    char_from_u32(v)
}

fn reference_char_exec(s: &Vec<char>, from: usize, to: usize) -> (r: Option<char>)
    requires
        from <= to <= s.len(),
    ensures
        r == reference_char(s@.subrange(from as int, to as int)),
{
    let ghost name = s@.subrange(from as int, to as int);
    proof {
        reveal_strlit("amp");
        reveal_strlit("lt");
        reveal_strlit("gt");
        reveal_strlit("quot");
        reveal_strlit("apos");
        reveal_strlit("nbsp");
    }
    let n = to - from;
    if n == 3 && s[from] == 'a' && s[from + 1] == 'm' && s[from + 2] == 'p' {
        assert(name =~= "amp"@);
        return Some('&');
    }
    if n == 2 && s[from] == 'l' && s[from + 1] == 't' {
        assert(name =~= "lt"@);
        return Some('<');
    }
    if n == 2 && s[from] == 'g' && s[from + 1] == 't' {
        assert(name =~= "gt"@);
        return Some('>');
    }
    if n == 4 && s[from] == 'q' && s[from + 1] == 'u' && s[from + 2] == 'o' && s[from + 3] == 't' {
        assert(name =~= "quot"@);
        return Some('"');
    }
    if n == 4 && s[from] == 'a' && s[from + 1] == 'p' && s[from + 2] == 'o' && s[from + 3] == 's' {
        assert(name =~= "apos"@);
        return Some('\'');
    }
    if n == 4 && s[from] == 'n' && s[from + 1] == 'b' && s[from + 2] == 's' && s[from + 3] == 'p' {
        assert(name =~= "nbsp"@);
        return Some('\u{a0}');
    }
    proof {
        if name == "amp"@ {
            assert(name[0] == 'a' && name[1] == 'm' && name[2] == 'p');
        }
        if name == "lt"@ {
            assert(name[0] == 'l' && name[1] == 't');
        }
        if name == "gt"@ {
            assert(name[0] == 'g' && name[1] == 't');
        }
        if name == "quot"@ {
            assert(name[0] == 'q' && name[1] == 'u' && name[2] == 'o' && name[3] == 't');
        }
        if name == "apos"@ {
            assert(name[0] == 'a' && name[1] == 'p' && name[2] == 'o' && name[3] == 's');
        }
        if name == "nbsp"@ {
            assert(name[0] == 'n' && name[1] == 'b' && name[2] == 's' && name[3] == 'p');
        }
    }
    numeric_reference_exec(s, from, to)
}

/// The position of the first `;` in `s[k..limit]`.
fn semicolon_in_exec(s: &Vec<char>, k: usize, limit: usize) -> (r: Option<usize>)
    ensures
        r matches Some(j) ==> semicolon_in(s@, k as int, limit as int) == Some(j as int) && k <= j
            < s.len() && j < limit,
        r is None ==> semicolon_in(s@, k as int, limit as int) is None,
{
    let mut i = k;
    while i < limit && i < s.len()
        invariant
            k <= i,
            semicolon_in(s@, k as int, limit as int) == semicolon_in(s@, i as int, limit as int),
        decreases limit - i,
    {
        if s[i] == ';' {
            return Some(i);
        }
        i += 1;
    }
    None
}

proof fn lemma_semicolon_shift(s: Seq<char>, i: int, k: int, limit: int)
    requires
        0 <= i < s.len(),
        1 <= k,
        limit == (if s.len() - i > 11 { i + 11 } else { s.len() as int }),
    ensures
        semicolon_in(s.skip(i), k, max_reference_len() + 1) == (match semicolon_in(s, i + k, limit) {
            Some(j) => Some(j - i),
            None => None,
        }),
    decreases max_reference_len() + 1 - k,
{
    if k < max_reference_len() + 1 && k < s.len() - i {
        assert(s.skip(i)[k] == s[i + k]);
        lemma_semicolon_shift(s, i, k + 1, limit);
    }
}

/// Replaces the character references in `text` by their characters
/// (left to right; unknown ones stay as written).
pub fn decode_html_entities(text: &str) -> (r: String)
    ensures
        r@ == decode_entities(text@),
{
    let s = to_chars(text);
    let mut out: Vec<char> = Vec::new();
    let mut i: usize = 0;
    assert(s@.skip(0) =~= s@);
    assert(Seq::<char>::empty() + decode_entities(s@) =~= decode_entities(s@));
    while i < s.len()
        invariant
            i <= s.len(),
            decode_entities(s@) == out@ + decode_entities(s@.skip(i as int)),
        decreases s.len() - i,
    {
        let ghost rest = s@.skip(i as int);
        assert(rest[0] == s@[i as int]);
        if s[i] == '&' {
            let limit = if s.len() - i > 11 { i + 11 } else { s.len() };
            let found = semicolon_in_exec(&s, i + 1, limit);
            proof {
                lemma_semicolon_shift(s@, i as int, 1, limit as int);
            }
            match found {
                Some(j) => {
                    let c = reference_char_exec(&s, i + 1, j);
                    assert(rest.subrange(1, j - i) =~= s@.subrange(i + 1, j as int));
                    match c {
                        Some(ch) => {
                            assert(rest.skip(j - i + 1) =~= s@.skip(j + 1));
                            let ghost prev = out@;
                            out.push(ch);
                            assert(prev + (seq![ch] + decode_entities(s@.skip(j + 1))) =~= out@
                                + decode_entities(s@.skip(j + 1)));
                            i = j + 1;
                        },
                        None => {
                            assert(rest.skip(1) =~= s@.skip(i + 1));
                            let ghost prev = out@;
                            out.push('&');
                            assert(prev + (seq!['&'] + decode_entities(s@.skip(i + 1))) =~= out@
                                + decode_entities(s@.skip(i + 1)));
                            i += 1;
                        },
                    }
                },
                None => {
                    assert(rest.skip(1) =~= s@.skip(i + 1));
                    let ghost prev = out@;
                    out.push('&');
                    assert(prev + (seq!['&'] + decode_entities(s@.skip(i + 1))) =~= out@
                        + decode_entities(s@.skip(i + 1)));
                    i += 1;
                },
            }
        } else {
            assert(rest.skip(1) =~= s@.skip(i + 1));
            let ghost prev = out@;
            out.push(s[i]);
            assert(prev + (seq![s@[i as int]] + decode_entities(s@.skip(i + 1))) =~= out@
                + decode_entities(s@.skip(i + 1)));
            i += 1;
        }
    }
    string_from_chars(&out)
}

} // verus!
