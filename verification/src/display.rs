//! The display-safe copy of an entry: the plain part of rich text, cut to the
//! configured number of characters.

use vstd::prelude::*;
use vstd::string::*;
use crate::entry::{ClipboardEntry, EntryView};
use crate::text::same_text;

verus! {

/// What `serde_json` finds under `key` in `text`: nothing where `text` does
/// not parse as JSON; otherwise the string that stands under `key`, or
/// nothing where the parsed value holds no string there.
pub uninterp spec fn json_string_member(text: Seq<char>, key: Seq<char>) -> Option<
    Option<Seq<char>>,
>;

/// The value of what a member lookup found.
pub open spec fn member_view(found: Option<Option<String>>) -> Option<Option<Seq<char>>> {
    match found {
        Some(Some(s)) => Some(Some(s@)),
        Some(None) => Some(None),
        None => None,
    }
}

/// Parses `text` with `serde_json::from_str` into a `serde_json::Value`,
/// indexes the value by `key` and reads the member with `Value::as_str`.
/// A parse error gives `None`. Indexing a value that is no object, or by a
/// key it lacks, gives JSON null, for which `as_str` answers `None`, as it
/// does for every member that is no string. The outcome depends on `text` and
/// `key` alone and is taken on trust under the name `json_string_member`.
#[verifier::external_body]
pub(crate) fn string_member(text: &str, key: &str) -> (found: Option<Option<String>>)
    ensures
        member_view(found) == json_string_member(text@, key@),
{
    match serde_json::from_str::<serde_json::Value>(text) {
        Ok(value) => Some(value[key].as_str().map(String::from)),
        Err(_) => None,
    }
}

/// The part of a rich-text payload that `member` stands for: the member
/// itself, the empty text where the payload holds no such string, and the
/// whole payload where it is no JSON at all.
pub open spec fn part_or_raw(content: Seq<char>, member: Option<Option<Seq<char>>>) -> Seq<char> {
    match member {
        Some(Some(part)) => part,
        Some(None) => Seq::empty(),
        None => content,
    }
}

/// Decides `part_or_raw` for a lookup that has been made.
pub fn part_of_member(content: &str, member: Option<Option<String>>) -> (part: String)
    ensures
        part@ == part_or_raw(content@, member_view(member)),
{
    match member {
        Some(Some(part)) => part,
        Some(None) => String::new(),
        None => content.to_owned(),
    }
}

/// The text shown for an entry before it is cut: for rich text the plain
/// part of the payload, for every other kind the content itself.
pub open spec fn plain_text(kind: Seq<char>, content: Seq<char>) -> Seq<char> {
    if kind == "rich_text"@ {
        part_or_raw(content, json_string_member(content, "plain"@))
    } else {
        content
    }
}

/// `text` cut to its first `limit` characters, with an ellipsis appended when
/// something was cut off. A negative limit cuts nothing.
pub open spec fn truncated(text: Seq<char>, limit: int) -> Seq<char> {
    if 0 <= limit < text.len() {
        text.subrange(0, limit) + "..."@
    } else {
        text
    }
}

/// Cuts `text` to `limit` characters: a longer text becomes its first `limit`
/// characters followed by an ellipsis, any other text stays as it is.
pub fn truncate(text: &str, limit: i32) -> (shown: String)
    ensures
        shown@ == truncated(text@, limit as int),
        0 <= limit < text@.len() ==> shown@ == text@.subrange(0, limit as int) + seq!['.', '.', '.'],
        limit >= text@.len() ==> shown@ == text@,
{
    proof {
        reveal_strlit("...");
        assert("..."@ =~= seq!['.', '.', '.']);
    }
    if limit < 0 {
        return text.to_owned();
    }
    let length = text.unicode_len();
    let keep = limit as usize;
    if keep < length {
        String::from_str(text.substring_char(0, keep)).concat("...")
    } else {
        text.to_owned()
    }
}

/// The content shown for an entry of this kind: images are shown whole, every
/// other kind is cut to `limit` characters.
pub open spec fn display_content(kind: Seq<char>, content: Seq<char>, limit: int) -> Seq<char> {
    if kind == "image"@ {
        plain_text(kind, content)
    } else {
        truncated(plain_text(kind, content), limit)
    }
}

/// An image is shown whole, whatever the limit. Every other kind but rich
/// text is shown as its content cut to the limit.
pub proof fn lemma_shown_content(kind: Seq<char>, content: Seq<char>, limit: int)
    ensures
        kind == "image"@ ==> display_content(kind, content, limit) == content,
        kind != "image"@ && kind != "rich_text"@ ==> display_content(kind, content, limit)
            == truncated(content, limit),
{
    reveal_strlit("image");
    reveal_strlit("rich_text");
    assert("image"@.len() == 5);
    assert("rich_text"@.len() == 9);
}

/// The display-safe copy of `e`: the same entry with its content replaced by
/// what is shown of it.
pub open spec fn display_view(e: EntryView, limit: int) -> EntryView {
    EntryView { content: display_content(e.entry_type, e.content, limit), ..e }
}

/// Builds the display-safe copy of `entry` for a limit of `limit` characters.
pub fn display_copy(entry: &ClipboardEntry, limit: i32) -> (shown: ClipboardEntry)
    ensures
        shown@ == display_view(entry@, limit as int),
{
    let kind = entry.entry_type.as_str();
    let plain = if same_text(kind, "rich_text") {
        part_of_member(entry.content.as_str(), string_member(entry.content.as_str(), "plain"))
    } else {
        entry.content.clone()
    };
    let content = if same_text(kind, "image") {
        plain
    } else {
        truncate(plain.as_str(), limit)
    };
    let copy = entry.clone();
    ClipboardEntry { content, ..copy }
}

} // verus!
