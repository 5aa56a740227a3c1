//! Classification of clipboard text: colour literal, e-mail address, URL or
//! plain text, decided on the trimmed text in that order.

use vstd::prelude::*;
use vstd::string::*;
use crate::entry::ContentKind;
use crate::text::{trimmed, trim_edges};

verus! {

/// A colour literal: `#` with three or six hexadecimal digits, or the
/// functional notations `rgb()`, `rgba()`, `hsl()` and `hsla()`.
pub const COLOR_PATTERN: &'static str =
    r"(?i)^\s*(#(?:[0-9a-f]{3}|[0-9a-f]{6})\b|rgba?\(\s*\d{1,3}\s*,\s*\d{1,3}\s*,\s*\d{1,3}(?:\s*,\s*(?:0|1|0?\.\d+))?\s*\)|hsla?\(\s*\d{1,3}(?:\.\d+)?\s*,\s*\d{1,3}%\s*,\s*\d{1,3}%(?:\s*,\s*(?:0|1|0?\.\d+))?\s*\))\s*$";

/// An e-mail address.
pub const EMAIL_PATTERN: &'static str = r"(?i)^[a-z0-9.!#$%&'*+/=?^_`{|}~-]+@[a-z0-9.-]+\.[a-z]{2,}$";

/// A URI with a scheme.
pub const URL_PATTERN: &'static str = r"(?i)^[a-z][a-z0-9+\-.]*://[^\s]+$";

/// What the `regex` crate answers when `pattern` is compiled and searched for
/// in `text`: nothing where the pattern does not compile, otherwise whether
/// the text holds a match.
pub uninterp spec fn regex_search(pattern: Seq<char>, text: Seq<char>) -> Option<bool>;

/// Compiles `pattern` with `regex::Regex::new` and asks `Regex::is_match`
/// whether `text` holds a match. A pattern that does not compile gives
/// `None`. The outcome depends on `pattern` and `text` alone and is taken on
/// trust under the name `regex_search`.
#[verifier::external_body]
fn search(pattern: &str, text: &str) -> (found: Option<bool>)
    ensures
        found == regex_search(pattern@, text@),
{
    match regex::Regex::new(pattern) {
        Ok(compiled) => Some(compiled.is_match(text)),
        Err(_) => None,
    }
}

/// Whether `pattern` compiles and `text` holds a match for it.
pub open spec fn accepts(pattern: Seq<char>, text: Seq<char>) -> bool {
    regex_search(pattern, text) == Some(true)
}

/// The kind that three pattern tests stand for: the first test that
/// succeeded decides, in the order colour, e-mail, URL; where none did, the
/// text is plain.
pub open spec fn kind_of(is_color: bool, is_email: bool, is_url: bool) -> ContentKind {
    if is_color {
        ContentKind::Color
    } else if is_email {
        ContentKind::Email
    } else if is_url {
        ContentKind::Url
    } else {
        ContentKind::Text
    }
}

/// Decides `kind_of` for pattern tests that have been made.
pub fn kind_from_matches(is_color: bool, is_email: bool, is_url: bool) -> (kind: ContentKind)
    ensures
        kind == kind_of(is_color, is_email, is_url),
        kind != ContentKind::RichText,
        kind != ContentKind::Image,
{
    if is_color {
        ContentKind::Color
    } else if is_email {
        ContentKind::Email
    } else if is_url {
        ContentKind::Url
    } else {
        ContentKind::Text
    }
}

/// The kind of a clipboard text.
pub open spec fn classified(text: Seq<char>) -> ContentKind {
    kind_of(
        accepts(COLOR_PATTERN@, trimmed(text)),
        accepts(EMAIL_PATTERN@, trimmed(text)),
        accepts(URL_PATTERN@, trimmed(text)),
    )
}

/// What is recorded of a clipboard text: plain text as it was observed, every
/// other kind trimmed.
pub open spec fn stored_content(text: Seq<char>) -> Seq<char> {
    if classified(text) == ContentKind::Text {
        text
    } else {
        trimmed(text)
    }
}

/// A clipboard text with its kind and the content to record for it.
pub struct Classified {
    pub kind: ContentKind,
    pub content: String,
}

/// Whether `text` holds a match for `pattern`; a pattern that does not
/// compile matches nothing.
fn test_pattern(pattern: &str, text: &str) -> (yes: bool)
    ensures
        yes == accepts(pattern@, text@),
{
    match search(pattern, text) {
        Some(found) => found,
        None => false,
    }
}

/// Classifies a clipboard text and picks the content to record for it.
pub fn classify(text: &str) -> (result: Classified)
    ensures
        result.kind == classified(text@),
        result.content@ == stored_content(text@),
        result.kind != ContentKind::RichText,
        result.kind != ContentKind::Image,
{
    let inner = trim_edges(text);
    let is_color = test_pattern(COLOR_PATTERN, inner);
    let is_email = !is_color && test_pattern(EMAIL_PATTERN, inner);
    let is_url = !is_color && !is_email && test_pattern(URL_PATTERN, inner);
    let kind = kind_from_matches(is_color, is_email, is_url);
    let content = match kind {
        ContentKind::Text => text.to_owned(),
        _ => inner.to_owned(),
    };
    Classified { kind, content }
}

} // verus!
