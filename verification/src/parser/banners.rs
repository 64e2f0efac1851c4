//! Article message boxes ("ambox"): their kind, label and cleaned text.
use crate::text::{
    contains_seq, contains_str, find, has_prefix, lowercase, rfind_seq, slice_chars,
    split_whitespace_spans, starts_with_str, chars_eq_str, str_to_lowercase, string_from_chars,
    to_chars, trim_chars, trim_seq, word_spans, words, find_seq, find_char, rfind,
    spans_well_formed,
};
use vstd::prelude::*;

verus! {

/// The severity class of an article message box.
#[derive(Debug, Clone, Copy, PartialEq, Eq, Structural)]
pub enum BannerType {
    /// Deletion, copyright and other serious issues.
    Delete,
    /// Citations, neutral point of view, accuracy.
    Content,
    /// Tone, formatting, cleanup.
    Style,
    /// Current events and general notices.
    Notice,
    /// Merge, split and move proposals.
    Move,
    /// Page protection.
    Protection,
}

/// A message box found at the top of an article.
#[derive(Debug, Clone, PartialEq, Eq)]
pub struct ArticleBanner {
    pub banner_type: BannerType,
    pub message: String,
}

/// The heading shown for each kind of banner.
pub open spec fn banner_label(t: BannerType) -> Seq<char> {
    match t {
        BannerType::Delete => "CRITICAL WARNING"@,
        BannerType::Content => "CONTENT WARNING"@,
        BannerType::Style => "STYLE WARNING"@,
        BannerType::Notice => "NOTICE"@,
        BannerType::Move => "PROPOSAL"@,
        BannerType::Protection => "PROTECTION NOTICE"@,
    }
}

impl BannerType {
    /// The heading shown for this kind of banner.
    pub fn label(&self) -> (r: &'static str)
        ensures
            r@ == banner_label(*self),
    {
        match self {
            BannerType::Delete => "CRITICAL WARNING",
            BannerType::Content => "CONTENT WARNING",
            BannerType::Style => "STYLE WARNING",
            BannerType::Notice => "NOTICE",
            BannerType::Move => "PROPOSAL",
            BannerType::Protection => "PROTECTION NOTICE",
        }
    }
}

/// One class name marks a real article message box.
pub open spec fn is_ambox_class(w: Seq<char>) -> bool {
    w == "ambox"@ || has_prefix(w, "ambox-"@)
}

/// Some class name in the attribute marks an article message box.
pub open spec fn has_ambox_class(class_attr: Seq<char>) -> bool {
    exists|k: int| 0 <= k < words(class_attr).len() && is_ambox_class(#[trigger] words(class_attr)[k])
}

pub open spec fn mentions_delete(l: Seq<char>) -> bool {
    contains_seq(l, "ambox-delete"@) || contains_seq(l, "ambox-speedy"@) || contains_seq(l, "ambox-serious"@)
        || contains_seq(l, "ambox-deletion"@)
}

pub open spec fn mentions_content(l: Seq<char>) -> bool {
    contains_seq(l, "ambox-content"@) || contains_seq(l, "ambox-unreferenced"@) || contains_seq(
        l,
        "ambox-dispute"@,
    ) || contains_seq(l, "ambox-neutral"@) || contains_seq(l, "ambox-accuracy"@)
}

pub open spec fn mentions_style(l: Seq<char>) -> bool {
    contains_seq(l, "ambox-style"@) || contains_seq(l, "ambox-tone"@) || contains_seq(l, "ambox-cleanup"@)
        || contains_seq(l, "ambox-lead_section"@) || contains_seq(l, "ambox-format"@)
}

pub open spec fn mentions_move(l: Seq<char>) -> bool {
    contains_seq(l, "ambox-move"@) || contains_seq(l, "ambox-merge"@) || contains_seq(l, "ambox-split"@)
        || contains_seq(l, "ambox-translate"@)
}

pub open spec fn mentions_protection(l: Seq<char>) -> bool {
    contains_seq(l, "ambox-protection"@) || contains_seq(l, "ambox-protected"@) || contains_seq(
        l,
        "ambox-semi-protected"@,
    )
}

pub open spec fn mentions_notice(l: Seq<char>) -> bool {
    contains_seq(l, "ambox-notice"@) || contains_seq(l, "ambox-current"@) || contains_seq(l, "ambox-event"@)
        || contains_seq(l, "ambox-talk"@)
}

/// The kind of banner a `class` attribute describes: none unless one class is
/// `ambox` or starts with `ambox-`; otherwise the first matching group in the
/// order delete, content, style, move, protection, notice, and style when no
/// group matches. Matching is on the lower-cased attribute.
pub open spec fn ambox_kind(class_attr: Seq<char>) -> Option<BannerType> {
    let l = lowercase(class_attr);
    if !has_ambox_class(class_attr) {
        None
    } else if mentions_delete(l) {
        Some(BannerType::Delete)
    } else if mentions_content(l) {
        Some(BannerType::Content)
    } else if mentions_style(l) {
        Some(BannerType::Style)
    } else if mentions_move(l) {
        Some(BannerType::Move)
    } else if mentions_protection(l) {
        Some(BannerType::Protection)
    } else if mentions_notice(l) {
        Some(BannerType::Notice)
    } else {
        Some(BannerType::Style)
    }
}

fn has_ambox_class_exec(c: &Vec<char>) -> (r: bool)
    ensures
        r == has_ambox_class(c@),
{
    let spans = split_whitespace_spans(c);
    let mut k: usize = 0;
    while k < spans.len()
        invariant
            k <= spans.len(),
            spans@.len() == word_spans(c@).len(),
            forall|j: int| 0 <= j < spans@.len() ==> (#[trigger] spans@[j]).0 as int == word_spans(c@)[j].0
                && spans@[j].1 as int == word_spans(c@)[j].1,
            spans_well_formed(c@, word_spans(c@)),
            forall|j: int| 0 <= j < k ==> !is_ambox_class(#[trigger] words(c@)[j]),
        decreases spans.len() - k,
    {
        let (a, b) = spans[k];
        assert(0 <= word_spans(c@)[k as int].0 < word_spans(c@)[k as int].1 <= c@.len());
        let w = slice_chars(c, a, b);
        assert(w@ == words(c@)[k as int]);
        if chars_eq_str(&w, "ambox") || starts_with_str(&w, "ambox-") {
            return true;
        }
        k += 1;
    }
    false
}

/// Classifies an element's `class` attribute as an article message box.
pub fn classify_ambox_class(class_attr: &str) -> (r: Option<BannerType>)
    ensures
        r == ambox_kind(class_attr@),
{
    let lower_s = str_to_lowercase(class_attr);
    let l = to_chars(lower_s.as_str());
    let c = to_chars(class_attr);
    if !has_ambox_class_exec(&c) {
        return None;
    }
    if contains_str(&l, "ambox-delete") || contains_str(&l, "ambox-speedy") || contains_str(
        &l,
        "ambox-serious",
    ) || contains_str(&l, "ambox-deletion") {
        return Some(BannerType::Delete);
    }
    if contains_str(&l, "ambox-content") || contains_str(&l, "ambox-unreferenced") || contains_str(
        &l,
        "ambox-dispute",
    ) || contains_str(&l, "ambox-neutral") || contains_str(&l, "ambox-accuracy") {
        return Some(BannerType::Content);
    }
    if contains_str(&l, "ambox-style") || contains_str(&l, "ambox-tone") || contains_str(
        &l,
        "ambox-cleanup",
    ) || contains_str(&l, "ambox-lead_section") || contains_str(&l, "ambox-format") {
        return Some(BannerType::Style);
    }
    if contains_str(&l, "ambox-move") || contains_str(&l, "ambox-merge") || contains_str(
        &l,
        "ambox-split",
    ) || contains_str(&l, "ambox-translate") {
        return Some(BannerType::Move);
    }
    if contains_str(&l, "ambox-protection") || contains_str(&l, "ambox-protected") || contains_str(
        &l,
        "ambox-semi-protected",
    ) {
        return Some(BannerType::Protection);
    }
    if contains_str(&l, "ambox-notice") || contains_str(&l, "ambox-current") || contains_str(
        &l,
        "ambox-event",
    ) || contains_str(&l, "ambox-talk") {
        return Some(BannerType::Notice);
    }
    Some(BannerType::Style)
}


/// A word that is a lone punctuation mark.
pub open spec fn is_punct_word(w: Seq<char>) -> bool {
    w == "."@ || w == ","@ || w == ":"@ || w == ";"@ || w == "!"@ || w == "?"@
}

/// Words joined by single spaces, with lone punctuation marks attached to the
/// word before them.
pub open spec fn joined_words(ws: Seq<Seq<char>>) -> Seq<char>
    decreases ws.len(),
{
    if ws.len() == 0 {
        seq![]
    } else {
        let prev = joined_words(ws.drop_last());
        let w = ws.last();
        if is_punct_word(w) {
            (if prev.len() > 0 && prev.last() == ' ' { prev.drop_last() } else { prev }) + w
        } else {
            (if prev.len() > 0 && prev.last() != ' ' { prev.push(' ') } else { prev }) + w
        }
    }
}

/// `s` up to the first occurrence of `p`, or all of `s`.
pub open spec fn cut_at(s: Seq<char>, p: Seq<char>) -> Seq<char> {
    match find_seq(s, p) {
        Some(i) => s.take(i),
        None => s,
    }
}

/// `s` without its last parenthesis when what follows it mentions a year
/// of 2000 to 2029.
pub open spec fn cut_dated_parenthetical(s: Seq<char>) -> Seq<char> {
    match rfind_seq(s, "("@) {
        Some(i) => {
            let tail = s.skip(i);
            if contains_seq(tail, "202"@) || contains_seq(tail, "201"@) || contains_seq(tail, "200"@) {
                s.take(i)
            } else {
                s
            }
        },
        None => s,
    }
}

/// The text of a message box as the reader shows it: words re-joined, the
/// "Learn how" note and a dated closing parenthesis dropped, trimmed.
pub open spec fn cleaned_ambox_text(raw: Seq<char>) -> Seq<char> {
    trim_seq(
        cut_dated_parenthetical(cut_at(cut_at(joined_words(words(raw)), "( Learn how"@), "(Learn how"@)),
    )
}

fn is_punct_word_exec(w: &Vec<char>) -> (r: bool)
    ensures
        r == is_punct_word(w@),
{
    chars_eq_str(w, ".") || chars_eq_str(w, ",") || chars_eq_str(w, ":") || chars_eq_str(w, ";")
        || chars_eq_str(w, "!") || chars_eq_str(w, "?")
}

fn cut_at_exec(s: Vec<char>, lit: &str) -> (r: Vec<char>)
    ensures
        r@ == cut_at(s@, lit@),
{
    let p = to_chars(lit);
    match find(&s, &p) {
        Some(i) => {
            proof {
                crate::text::lemma_find_from_sound(s@, p@, 0);
            }
            let n = i;
            assert(n <= s.len()) by {
                assert(crate::text::occurs_at(s@, p@, i as int));
            }
            slice_chars(&s, 0, n)
        },
        None => s,
    }
}

/// Tidies the text of an article message box.
pub fn clean_ambox_text(raw_text: &str) -> (r: String)
    ensures
        r@ == cleaned_ambox_text(raw_text@),
{
    let raw = to_chars(raw_text);
    let spans = split_whitespace_spans(&raw);
    let ghost ws = words(raw@);
    let mut clean: Vec<char> = Vec::new();
    let mut k: usize = 0;
    while k < spans.len()
        invariant
            k <= spans.len(),
            ws == words(raw@),
            spans@.len() == word_spans(raw@).len(),
            forall|j: int| 0 <= j < spans@.len() ==> (#[trigger] spans@[j]).0 as int == word_spans(raw@)[j].0
                && spans@[j].1 as int == word_spans(raw@)[j].1,
            spans_well_formed(raw@, word_spans(raw@)),
            clean@ == joined_words(ws.take(k as int)),
        decreases spans.len() - k,
    {
        let (a, b) = spans[k];
        assert(0 <= word_spans(raw@)[k as int].0 < word_spans(raw@)[k as int].1 <= raw@.len());
        let w = slice_chars(&raw, a, b);
        assert(w@ == ws[k as int]);
        let ghost prev = clean@;
        proof {
            assert(ws.take(k + 1).drop_last() =~= ws.take(k as int));
            assert(ws.take(k + 1).last() == ws[k as int]);
        }
        if is_punct_word_exec(&w) {
            if clean.len() > 0 && clean[clean.len() - 1] == ' ' {
                clean.pop();
            }
        } else {
            if clean.len() > 0 && clean[clean.len() - 1] != ' ' {
                clean.push(' ');
            }
        }
        let ghost mid = clean@;
        let mut i: usize = 0;
        while i < w.len()
            invariant
                i <= w.len(),
                clean@ == mid + w@.take(i as int),
            decreases w.len() - i,
        {
            clean.push(w[i]);
            assert(w@.take(i + 1) == w@.take(i as int).push(w@[i as int]));
            i += 1;
        }
        assert(w@.take(w.len() as int) =~= w@);
        assert(prev.len() > 0 ==> prev.drop_last() =~= prev.take(prev.len() - 1));
        k += 1;
    }
    assert(ws.take(spans.len() as int) =~= ws);
    let c1 = cut_at_exec(clean, "( Learn how");
    let c2 = cut_at_exec(c1, "(Learn how");
    let open_p = to_chars("(");
    let c3 = match rfind(&c2, &open_p) {
        Some(i) => {
            proof {
                crate::text::lemma_rfind_before_sound(c2@, open_p@, c2@.len() - open_p@.len());
            }
            assert(i <= c2.len()) by {
                assert(crate::text::occurs_at(c2@, open_p@, i as int));
            }
            let tail = slice_chars(&c2, i, c2.len());
            assert(tail@ =~= c2@.skip(i as int));
            if contains_str(&tail, "202") || contains_str(&tail, "201") || contains_str(&tail, "200") {
                slice_chars(&c2, 0, i)
            } else {
                c2
            }
        },
        None => c2,
    };
    let t = trim_chars(&c3);
    string_from_chars(&t)
}

} // verus!
