//! Regular-expression searches, made by the `regex` crate.
//!
//! What a search finds is not defined here: each search has a name, and the
//! functions below state that they return what the name stands for. The
//! rest of the library reasons about searches through these names only.

use regex::Regex;
use vstd::prelude::*;
use vstd::string::*;
use vstd::utf8::*;

verus! {

/// A half-open range of byte offsets into the UTF-8 encoding of a text.
#[derive(Clone, Copy, Debug)]
pub struct Span {
    pub start: usize,
    pub end: usize,
}

/// Where a pattern matched, and where its first two groups did.
#[derive(Clone, Copy, Debug)]
pub struct Captured {
    pub whole: Span,
    pub first: Option<Span>,
    pub second: Option<Span>,
}

impl Span {
    /// The span lies in `text` and cuts no character in two.
    pub open spec fn fits(self, text: Seq<char>) -> bool {
        let bytes = encode_utf8(text);
        &&& self.start <= self.end <= bytes.len()
        &&& is_char_boundary(bytes, self.start as int)
        &&& is_char_boundary(bytes, self.end as int)
    }

    /// The part of `text` that the span covers.
    pub open spec fn of(self, text: Seq<char>) -> Seq<char> {
        decode_utf8(encode_utf8(text).subrange(self.start as int, self.end as int))
    }

    /// The part of `text` before the span.
    pub open spec fn before(self, text: Seq<char>) -> Seq<char> {
        decode_utf8(encode_utf8(text).subrange(0, self.start as int))
    }

    /// The part of `text` after the span.
    pub open spec fn after(self, text: Seq<char>) -> Seq<char> {
        decode_utf8(encode_utf8(text).subrange(self.end as int, encode_utf8(text).len() as int))
    }
}

impl Captured {
    /// Every span lies in `text` and cuts no character in two.
    pub open spec fn fits(self, text: Seq<char>) -> bool {
        &&& self.whole.fits(text)
        &&& self.first matches Some(g) ==> g.fits(text)
        &&& self.second matches Some(g) ==> g.fits(text)
    }
}

/// The leftmost match of `pattern` in `text` with its first two groups, or
/// `None` where `pattern` does not match or is no valid pattern.
pub uninterp spec fn captured(pattern: Seq<char>, text: Seq<char>) -> Option<Captured>;

/// Whether `pattern` is a valid pattern that matches somewhere in `text`.
pub uninterp spec fn matched(pattern: Seq<char>, text: Seq<char>) -> bool;

/// `text` with each match of `pattern` replaced by `with`, or `text` itself
/// where `pattern` is no valid pattern.
pub uninterp spec fn substituted(pattern: Seq<char>, text: Seq<char>, with: Seq<char>) -> Seq<char>;

/// Compiles `pattern` with `Regex::new` and searches `text` with
/// `Regex::captures`; returns the spans of the whole match and of the
/// groups 1 and 2, and `None` where nothing matches or the pattern does
/// not compile.
///
/// Taken on trust: the result is what `captured` names, the same for the
/// same pattern and text; and, as `regex` documents of every match, each
/// span begins no later than it ends, ends within the text and lies on
/// character boundaries.
#[verifier::external_body]
pub(crate) fn captures(pattern: &str, text: &str) -> (found: Option<Captured>)
    ensures
        found == captured(pattern@, text@),
        found matches Some(c) ==> c.fits(text@),
{
    match Regex::new(pattern) {
        Ok(re) => match re.captures(text) {
            Some(caps) => Some(
                Captured {
                    whole: Span { start: caps.get_match().start(), end: caps.get_match().end() },
                    first: caps.get(1).map(|m| Span { start: m.start(), end: m.end() }),
                    second: caps.get(2).map(|m| Span { start: m.start(), end: m.end() }),
                },
            ),
            None => None,
        },
        Err(_) => None,
    }
}

/// Compiles `pattern` with `Regex::new` and asks `Regex::is_match` about
/// `text`; a pattern that does not compile matches nothing.
///
/// Taken on trust: the result is what `matched` names, the same for the
/// same pattern and text.
#[verifier::external_body]
pub(crate) fn is_match(pattern: &str, text: &str) -> (found: bool)
    ensures
        found == matched(pattern@, text@),
{
    match Regex::new(pattern) {
        Ok(re) => re.is_match(text),
        Err(_) => false,
    }
}

/// Compiles `pattern` with `Regex::new` and puts `with` in place of each
/// match in `text` with `Regex::replace_all`; a pattern that does not
/// compile changes nothing. In `with`, a `$` would refer to a group; the
/// library passes none.
///
/// Taken on trust: the result is what `substituted` names, the same for
/// the same pattern, text and replacement.
#[verifier::external_body]
pub(crate) fn replace_all(pattern: &str, text: &str, with: &str) -> (out: String)
    ensures
        out@ == substituted(pattern@, text@, with@),
{
    match Regex::new(pattern) {
        Ok(re) => re.replace_all(text, with).into_owned(),
        Err(_) => text.to_string(),
    }
}

/// A place that cuts no character in two lies within the text.
proof fn lemma_boundary_in_range(bytes: Seq<u8>, index: int)
    requires
        valid_utf8(bytes),
        is_char_boundary(bytes, index),
    ensures
        0 <= index <= bytes.len(),
    decreases bytes.len(),
{
    if index != 0 {
        lemma_boundary_in_range(pop_first_scalar(bytes), index - length_of_first_scalar(bytes));
    }
}

/// Tests whether `span` lies in `text` and cuts no character in two.
pub fn span_fits(text: &str, span: Span) -> (fits: bool)
    ensures
        fits == span.fits(text@),
{
    proof {
        encode_utf8_valid_utf8(text@);
        if is_char_boundary(encode_utf8(text@), span.end as int) {
            lemma_boundary_in_range(encode_utf8(text@), span.end as int);
        }
    }
    span.start <= span.end && text.is_char_boundary(span.start) && text.is_char_boundary(span.end)
}

/// Cuts the part that `span` covers out of `text`.
pub fn slice<'a>(text: &'a str, span: Span) -> (part: &'a str)
    requires
        span.fits(text@),
    ensures
        part@ == span.of(text@),
{
    broadcast use {
        encode_utf8_valid_utf8,
        encode_utf8_decode_utf8,
        valid_utf8_split,
    };

    let ghost bytes = encode_utf8(text@);
    let (head, _) = text.split_at(span.end);
    let ghost head_bytes = encode_utf8(head@);
    assert(head_bytes =~= bytes.subrange(0, span.end as int));
    proof {
        if span.start < span.end {
            assert(head_bytes[span.start as int] == bytes[span.start as int]);
            is_char_boundary_iff_not_is_continuation_byte(bytes, span.start as int);
            is_char_boundary_iff_not_is_continuation_byte(head_bytes, span.start as int);
        } else {
            is_char_boundary_start_end_of_seq(head_bytes);
        }
    }
    let (_, part) = head.split_at(span.start);
    assert(encode_utf8(part@) =~= bytes.subrange(span.start as int, span.end as int));
    part
}

/// Cuts the part before `span` out of `text`.
pub fn before<'a>(text: &'a str, span: Span) -> (part: &'a str)
    requires
        span.fits(text@),
    ensures
        part@ == span.before(text@),
{
    broadcast use encode_utf8_decode_utf8;

    let (head, _) = text.split_at(span.start);
    assert(encode_utf8(head@) =~= encode_utf8(text@).subrange(0, span.start as int));
    head
}

/// Cuts the part after `span` out of `text`.
pub fn after<'a>(text: &'a str, span: Span) -> (part: &'a str)
    requires
        span.fits(text@),
    ensures
        part@ == span.after(text@),
{
    broadcast use encode_utf8_decode_utf8;

    let (_, tail) = text.split_at(span.end);
    assert(encode_utf8(tail@) =~= encode_utf8(text@).subrange(
        span.end as int,
        encode_utf8(text@).len() as int,
    ));
    tail
}

} // verus!
