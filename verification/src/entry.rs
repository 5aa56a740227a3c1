//! One recorded clipboard observation and the kinds it can be of.

use vstd::prelude::*;
use vstd::string::*;

verus! {

/// The kind of content an entry holds.
#[derive(Clone, Copy, Debug, PartialEq, Eq, Structural)]
pub enum ContentKind {
    Text,
    Color,
    Email,
    Url,
    RichText,
    Image,
}

impl ContentKind {
    /// The name under which the kind is recorded.
    pub open spec fn name_spec(self) -> Seq<char> {
        match self {
            ContentKind::Text => "text"@,
            ContentKind::Color => "color"@,
            ContentKind::Email => "email"@,
            ContentKind::Url => "url"@,
            ContentKind::RichText => "rich_text"@,
            ContentKind::Image => "image"@,
        }
    }

    /// The name under which the kind is recorded.
    pub fn name(self) -> (name: &'static str)
        ensures
            name@ == self.name_spec(),
    {
        match self {
            ContentKind::Text => "text",
            ContentKind::Color => "color",
            ContentKind::Email => "email",
            ContentKind::Url => "url",
            ContentKind::RichText => "rich_text",
            ContentKind::Image => "image",
        }
    }
}

/// One recorded clipboard observation. The store assigns `id` and never
/// changes `entry_type`, `content` or `added_at` afterwards; `pinned` and
/// `forced_language` are the metadata a user may change.
#[derive(Debug)]
pub struct ClipboardEntry {
    pub id: i64,
    pub entry_type: String,
    pub content: String,
    pub added_at: String,
    pub pinned: bool,
    pub forced_language: Option<String>,
}

/// The mathematical value of a `ClipboardEntry`.
pub ghost struct EntryView {
    pub id: i64,
    pub entry_type: Seq<char>,
    pub content: Seq<char>,
    pub added_at: Seq<char>,
    pub pinned: bool,
    pub forced_language: Option<Seq<char>>,
}

impl View for ClipboardEntry {
    type V = EntryView;

    open spec fn view(&self) -> EntryView {
        EntryView {
            id: self.id,
            entry_type: self.entry_type@,
            content: self.content@,
            added_at: self.added_at@,
            pinned: self.pinned,
            forced_language: match self.forced_language {
                Some(language) => Some(language@),
                None => None,
            },
        }
    }
}

impl ClipboardEntry {
    /// The entry that a stored row stands for. The row holds the pinned flag
    /// as a number: zero is unpinned, every other number pinned.
    pub fn from_row(
        id: i64,
        entry_type: String,
        content: String,
        added_at: String,
        pinned: i32,
        forced_language: Option<String>,
    ) -> (entry: Self)
        ensures
            entry == (ClipboardEntry {
                id,
                entry_type,
                content,
                added_at,
                pinned: pinned != 0,
                forced_language,
            }),
    {
        ClipboardEntry { id, entry_type, content, added_at, pinned: pinned != 0, forced_language }
    }

    /// The number that a stored row holds for the entry's pinned flag.
    pub fn pinned_number(&self) -> (number: i32)
        ensures
            number == (if self.pinned {
                1i32
            } else {
                0i32
            }),
    {
        if self.pinned {
            1
        } else {
            0
        }
    }
}

/// The value of an entry that may be absent.
pub open spec fn entry_view(entry: Option<ClipboardEntry>) -> Option<EntryView> {
    match entry {
        Some(e) => Some(e@),
        None => None,
    }
}

impl Clone for ClipboardEntry {
    fn clone(&self) -> (copy: Self)
        ensures
            copy == *self,
    {
        ClipboardEntry {
            id: self.id,
            entry_type: self.entry_type.clone(),
            content: self.content.clone(),
            added_at: self.added_at.clone(),
            pinned: self.pinned,
            forced_language: match &self.forced_language {
                Some(language) => Some(language.clone()),
                None => None,
            },
        }
    }
}

} // verus!
