//! The entry log: an ordered, append-mostly record of clipboard entries with
//! pin, delete and annotate operations.

use vstd::prelude::*;
use vstd::string::*;
use crate::display::{display_copy, display_view};
use crate::entry::{ClipboardEntry, EntryView, entry_view};
use crate::text::{
    text_lt,
    text_before,
    same_text,
    lemma_lex_irreflexive,
    lemma_lex_transitive,
    lemma_lex_total,
    lemma_encoding_is_injective,
};

verus! {

/// The mathematical value of an `EntryStore`: its entries in the order in
/// which they were inserted, and the highest identifier issued so far.
pub ghost struct StoreView {
    pub entries: Seq<EntryView>,
    pub last_id: int,
}

/// What holds of every store: identifiers are positive, none is above the
/// highest one issued, and they increase strictly in insertion order.
pub open spec fn well_formed(s: StoreView) -> bool {
    &&& 0 <= s.last_id <= i64::MAX
    &&& forall|i: int| 0 <= i < s.entries.len() ==> 1 <= #[trigger] s.entries[i].id <= s.last_id
    &&& forall|i: int, j: int|
        0 <= i < j < s.entries.len() ==> #[trigger] s.entries[i].id < #[trigger] s.entries[j].id
}

/// Whether the store holds an entry with this identifier.
pub open spec fn holds(s: StoreView, id: i64) -> bool {
    exists|i: int| 0 <= i < s.entries.len() && #[trigger] s.entries[i].id == id
}

/// The entry with this identifier, if the store holds one.
pub open spec fn lookup(s: StoreView, id: i64) -> Option<EntryView> {
    if holds(s, id) {
        Some(s.entries[choose|i: int| 0 <= i < s.entries.len() && #[trigger] s.entries[i].id == id])
    } else {
        None
    }
}

/// In a well-formed store an identifier finds the one entry that bears it.
pub proof fn lemma_lookup(s: StoreView, i: int)
    requires
        well_formed(s),
        0 <= i < s.entries.len(),
    ensures
        lookup(s, s.entries[i].id) == Some(s.entries[i]),
{
    let id = s.entries[i].id;
    let k = choose|k: int| 0 <= k < s.entries.len() && #[trigger] s.entries[k].id == id;
    if k < i {
        assert(s.entries[k].id < s.entries[i].id);
    } else if i < k {
        assert(s.entries[i].id < s.entries[k].id);
    }
}

/// A well-formed store holds no more entries than it has issued identifiers.
pub proof fn lemma_count_bounded(s: StoreView)
    requires
        well_formed(s),
    ensures
        s.entries.len() <= s.last_id,
{
    lemma_ids_grow(s, s.entries.len() as int);
}

proof fn lemma_ids_grow(s: StoreView, n: int)
    requires
        well_formed(s),
        0 <= n <= s.entries.len(),
    ensures
        n > 0 ==> s.entries[n - 1].id >= n,
        n <= s.last_id,
    decreases n,
{
    if n > 1 {
        lemma_ids_grow(s, n - 1);
        assert(s.entries[n - 2].id < s.entries[n - 1].id);
    }
    if n > 0 {
        assert(1 <= s.entries[n - 1].id <= s.last_id);
    }
}

/// `a` is the newer of two entries: it bears the later timestamp, or the same
/// timestamp and the higher identifier.
pub open spec fn newer(a: EntryView, b: EntryView) -> bool {
    text_lt(b.added_at, a.added_at) || (a.added_at == b.added_at && a.id > b.id)
}

/// Of two entries not each is newer than the other, and none is newer than
/// itself.
pub proof fn lemma_newer_asymmetric(a: EntryView, b: EntryView)
    requires
        newer(a, b),
    ensures
        !newer(b, a),
{
    let x = vstd::utf8::encode_utf8(a.added_at);
    let y = vstd::utf8::encode_utf8(b.added_at);
    lemma_lex_irreflexive(x);
    if text_lt(b.added_at, a.added_at) && text_lt(a.added_at, b.added_at) {
        lemma_lex_transitive(x, y, x);
    }
}

/// What is newer than an entry is newer than all that the entry is newer
/// than.
pub proof fn lemma_newer_transitive(a: EntryView, b: EntryView, c: EntryView)
    requires
        newer(a, b),
        newer(b, c),
    ensures
        newer(a, c),
{
    let x = vstd::utf8::encode_utf8(a.added_at);
    let y = vstd::utf8::encode_utf8(b.added_at);
    let z = vstd::utf8::encode_utf8(c.added_at);
    if text_lt(b.added_at, a.added_at) && text_lt(c.added_at, b.added_at) {
        lemma_lex_transitive(z, y, x);
    }
}

/// Of two entries with different identifiers one is the newer.
pub proof fn lemma_newer_total(a: EntryView, b: EntryView)
    requires
        a.id != b.id,
    ensures
        newer(a, b) || newer(b, a),
{
    let x = vstd::utf8::encode_utf8(a.added_at);
    let y = vstd::utf8::encode_utf8(b.added_at);
    if x != y {
        lemma_lex_total(x, y);
    } else {
        lemma_encoding_is_injective(a.added_at, b.added_at);
    }
}

/// Why an operation on the store was refused.
#[derive(Clone, Copy, Debug, PartialEq, Eq, Structural)]
pub enum StoreError {
    /// Every identifier has been issued.
    IdentifiersExhausted,
}

/// The entry log. Its fields are private: every store a caller can hold is
/// well formed.
pub struct EntryStore {
    entries: Vec<ClipboardEntry>,
    last_id: i64,
}

/// The values of a run of entries.
pub open spec fn views(entries: Seq<ClipboardEntry>) -> Seq<EntryView> {
    entries.map_values(|e: ClipboardEntry| e@)
}

impl View for EntryStore {
    type V = StoreView;

    closed spec fn view(&self) -> StoreView {
        StoreView { entries: views(self.entries@), last_id: self.last_id as int }
    }
}

impl EntryStore {
    /// Every store is well formed.
    #[verifier::type_invariant]
    pub open spec fn inv(&self) -> bool {
        well_formed(self@)
    }

    /// A store without entries that has issued no identifier yet.
    pub fn new() -> (store: Self)
        ensures
            store@ == (StoreView { entries: Seq::empty(), last_id: 0 }),
    {
        let store = EntryStore { entries: Vec::new(), last_id: 0 };
        assert(store@.entries =~= Seq::empty());
        store
    }

    /// How many entries the store holds.
    pub fn len(&self) -> (n: usize)
        ensures
            n == self@.entries.len(),
    {
        self.entries.len()
    }
}

/// Where in `entries` the entry with this identifier stands.
fn position(entries: &Vec<ClipboardEntry>, id: i64) -> (at: Option<usize>)
    ensures
        match at {
            Some(p) => p < entries@.len() && entries@[p as int].id == id,
            None => forall|i: int| 0 <= i < entries@.len() ==> entries@[i].id != id,
        },
{
    let mut i: usize = 0;
    while i < entries.len()
        invariant
            i <= entries@.len(),
            forall|k: int| 0 <= k < i ==> entries@[k].id != id,
        decreases entries@.len() - i,
    {
        if entries[i].id == id {
            return Some(i);
        }
        i += 1;
    }
    None
}

/// The store after `entry_type` and `content` were recorded at `added_at`.
pub open spec fn inserted(
    s: StoreView,
    entry_type: Seq<char>,
    content: Seq<char>,
    pinned: bool,
    added_at: Seq<char>,
) -> StoreView {
    StoreView {
        entries: s.entries.push(
            EntryView {
                id: (s.last_id + 1) as i64,
                entry_type,
                content,
                added_at,
                pinned,
                forced_language: None,
            },
        ),
        last_id: s.last_id + 1,
    }
}

/// Appends a new entry and returns its identifier, which is one above the
/// highest identifier issued before, so that no identifier is ever used
/// twice. The entry is pinned when `pinned` is not zero. Fails only when no
/// identifier is left, and then changes nothing.
pub fn insert_clipboard_entry(
    store: &mut EntryStore,
    entry_type: &str,
    content: &str,
    pinned: i32,
    added_at: &str,
) -> (outcome: Result<i64, StoreError>)
    ensures
        well_formed(final(store)@),
        match outcome {
            Ok(id) => {
                &&& old(store)@.last_id < i64::MAX
                &&& id == old(store)@.last_id + 1
                &&& final(store)@ == inserted(
                    old(store)@,
                    entry_type@,
                    content@,
                    pinned != 0,
                    added_at@,
                )
            },
            Err(e) => {
                &&& e == StoreError::IdentifiersExhausted
                &&& old(store)@.last_id == i64::MAX
                &&& final(store)@ == old(store)@
            },
        },
{
    proof {
        use_type_invariant(&*store);
    }
    if store.last_id == i64::MAX {
        return Err(StoreError::IdentifiersExhausted);
    }
    let id: i64 = store.last_id + 1;
    let entry = ClipboardEntry {
        id,
        entry_type: entry_type.to_owned(),
        content: content.to_owned(),
        added_at: added_at.to_owned(),
        pinned: pinned != 0,
        forced_language: None,
    };
    let mut entries: Vec<ClipboardEntry> = Vec::new();
    std::mem::swap(&mut entries, &mut store.entries);
    entries.push(entry);
    store.last_id = id;
    proof {
        let before = old(store)@.entries;
        let after = views(entries@);
        assert(after =~= inserted(old(store)@, entry_type@, content@, pinned != 0, added_at@).entries);
        assert forall|i: int| 0 <= i < after.len() implies 1 <= #[trigger] after[i].id <= id by {
            if i < before.len() {
                assert(after[i] == before[i]);
            }
        }
        assert forall|i: int, j: int| 0 <= i < j < after.len() implies #[trigger] after[i].id
            < #[trigger] after[j].id by {
            assert(after[i] == before[i]);
            if j < before.len() {
                assert(after[j] == before[j]);
            }
        }
    }
    store.entries = entries;
    Ok(id)
}

/// The full, untruncated entry with this identifier, or nothing if the store
/// holds none.
pub fn get_item_by_id(store: &EntryStore, id: i64) -> (found: Option<ClipboardEntry>)
    ensures
        entry_view(found) == lookup(store@, id),
{
    proof {
        use_type_invariant(store);
    }
    match position(&store.entries, id) {
        Some(p) => {
            proof {
                assert(store@.entries[p as int] == store.entries@[p as int]@);
                lemma_lookup(store@, p as int);
            }
            Some(store.entries[p].clone())
        },
        None => {
            proof {
                assert forall|i: int| 0 <= i < store@.entries.len() implies store@.entries[i].id
                    != id by {
                    assert(store@.entries[i] == store.entries@[i]@);
                }
            }
            None
        },
    }
}

/// The display-safe copy of the entry with this identifier, if the store
/// holds one.
pub open spec fn lookup_display(s: StoreView, id: i64, limit: int) -> Option<EntryView> {
    match lookup(s, id) {
        Some(e) => Some(display_view(e, limit)),
        None => None,
    }
}

/// The entry with this identifier as it is shown: rich text reduced to its
/// plain part, and every kind but images cut to
/// `max_displayed_characters`. Nothing comes back if the store holds no such
/// entry.
pub fn get_truncated_item_by_id(store: &EntryStore, id: i64, max_displayed_characters: i32) -> (found:
    Option<ClipboardEntry>)
    ensures
        entry_view(found) == lookup_display(store@, id, max_displayed_characters as int),
{
    match get_item_by_id(store, id) {
        Some(entry) => Some(display_copy(&entry, max_displayed_characters)),
        None => None,
    }
}

/// The entries that bear another identifier than `id`.
pub open spec fn other_than(id: i64) -> spec_fn(EntryView) -> bool {
    |e: EntryView| e.id != id
}

/// The store without the entry that bears `id`; the other entries keep their
/// order and no identifier becomes free again.
pub open spec fn deleted(s: StoreView, id: i64) -> StoreView {
    StoreView { entries: s.entries.filter(other_than(id)), last_id: s.last_id }
}

/// The store without any entry; no identifier becomes free again.
pub open spec fn cleared(s: StoreView) -> StoreView {
    StoreView { entries: Seq::empty(), last_id: s.last_id }
}

/// `e` with its pinned flag set to `pinned`.
pub open spec fn with_pin(e: EntryView, pinned: bool) -> EntryView {
    EntryView { pinned, ..e }
}

/// `e` annotated with `language`.
pub open spec fn with_language(e: EntryView, language: Seq<char>) -> EntryView {
    EntryView { forced_language: Some(language), ..e }
}

/// The store in which the entry that bears `id`, if any, has its pinned flag
/// set to `pinned`.
pub open spec fn pin_set(s: StoreView, id: i64, pinned: bool) -> StoreView {
    StoreView {
        entries: s.entries.map_values(
            |e: EntryView|
                if e.id == id {
                    with_pin(e, pinned)
                } else {
                    e
                },
        ),
        last_id: s.last_id,
    }
}

/// The store in which no entry is pinned.
pub open spec fn unpinned_all(s: StoreView) -> StoreView {
    StoreView { entries: s.entries.map_values(|e: EntryView| with_pin(e, false)), last_id: s.last_id }
}

/// The store in which the entry that bears `id`, if any, is annotated with
/// `language`.
pub open spec fn language_set(s: StoreView, id: i64, language: Seq<char>) -> StoreView {
    StoreView {
        entries: s.entries.map_values(
            |e: EntryView|
                if e.id == id {
                    with_language(e, language)
                } else {
                    e
                },
        ),
        last_id: s.last_id,
    }
}

/// A filter keeps a sequence whose elements all pass it.
proof fn lemma_filter_keeps_all(s: Seq<EntryView>, pred: spec_fn(EntryView) -> bool)
    requires
        forall|i: int| 0 <= i < s.len() ==> pred(#[trigger] s[i]),
    ensures
        s.filter(pred) == s,
    decreases s.len(),
{
    reveal(Seq::filter);
    if s.len() > 0 {
        let rest = s.drop_last();
        assert forall|i: int| 0 <= i < rest.len() implies pred(#[trigger] rest[i]) by {
            assert(rest[i] == s[i]);
        }
        lemma_filter_keeps_all(rest, pred);
        assert(rest.push(s.last()) =~= s);
    }
}

/// A filter that only the element at `p` fails removes that element.
proof fn lemma_filter_drops_one(s: Seq<EntryView>, pred: spec_fn(EntryView) -> bool, p: int)
    requires
        0 <= p < s.len(),
        !pred(s[p]),
        forall|i: int| 0 <= i < s.len() && i != p ==> pred(#[trigger] s[i]),
    ensures
        s.filter(pred) == s.remove(p),
    decreases s.len(),
{
    reveal(Seq::filter);
    let rest = s.drop_last();
    if p == s.len() - 1 {
        assert forall|i: int| 0 <= i < rest.len() implies pred(#[trigger] rest[i]) by {
            assert(rest[i] == s[i]);
        }
        lemma_filter_keeps_all(rest, pred);
        assert(rest =~= s.remove(p));
    } else {
        assert(rest[p] == s[p]);
        assert forall|i: int| 0 <= i < rest.len() && i != p implies pred(#[trigger] rest[i]) by {
            assert(rest[i] == s[i]);
        }
        lemma_filter_drops_one(rest, pred, p);
        assert(pred(s[s.len() - 1]));
        assert(rest.remove(p).push(s.last()) =~= s.remove(p));
    }
}

/// Removes the entry that bears `id`. Where the store holds none, nothing
/// changes.
pub fn delete_item_by_id(store: &mut EntryStore, id: i64)
    ensures
        well_formed(final(store)@),
        final(store)@ == deleted(old(store)@, id),
{
    proof {
        use_type_invariant(&*store);
    }
    let ghost before = store@.entries;
    match position(&store.entries, id) {
        Some(p) => {
            let mut entries: Vec<ClipboardEntry> = Vec::new();
            std::mem::swap(&mut entries, &mut store.entries);
            let _ = entries.remove(p);
            proof {
                let after = views(entries@);
                assert(after =~= before.remove(p as int));
                assert forall|i: int| 0 <= i < before.len() && i != p implies other_than(id)(
                    #[trigger] before[i],
                ) by {
                    if i < p {
                        assert(before[i].id < before[p as int].id);
                    } else {
                        assert(before[p as int].id < before[i].id);
                    }
                }
                lemma_filter_drops_one(before, other_than(id), p as int);
                assert forall|i: int| 0 <= i < after.len() implies 1 <= #[trigger] after[i].id
                    <= store.last_id by {
                    if i < p {
                        assert(after[i] == before[i]);
                    } else {
                        assert(after[i] == before[i + 1]);
                    }
                }
                assert forall|i: int, j: int| 0 <= i < j < after.len() implies #[trigger] after[i].id
                    < #[trigger] after[j].id by {
                    let x = if i < p { i } else { i + 1 };
                    let y = if j < p { j } else { j + 1 };
                    assert(after[i] == before[x]);
                    assert(after[j] == before[y]);
                }
            }
            store.entries = entries;
        },
        None => {
            proof {
                assert forall|i: int| 0 <= i < before.len() implies other_than(id)(
                    #[trigger] before[i],
                ) by {
                    assert(before[i] == store.entries@[i]@);
                }
                lemma_filter_keeps_all(before, other_than(id));
            }
        },
    }
}

/// Removes every entry and returns how many there were.
pub fn delete_all_items(store: &mut EntryStore) -> (count: i64)
    ensures
        well_formed(final(store)@),
        final(store)@ == cleared(old(store)@),
        count == old(store)@.entries.len(),
{
    proof {
        use_type_invariant(&*store);
        lemma_count_bounded(store@);
    }
    let count = store.entries.len() as i64;
    let entries: Vec<ClipboardEntry> = Vec::new();
    proof {
        assert(views(entries@) =~= Seq::empty());
    }
    store.entries = entries;
    count
}

/// Sets the pinned flag of the entry at `id`, if there is one.
fn set_pinned(store: &mut EntryStore, id: i64, pinned: bool)
    ensures
        well_formed(final(store)@),
        final(store)@ == pin_set(old(store)@, id, pinned),
{
    proof {
        use_type_invariant(&*store);
    }
    let ghost before = store@.entries;
    match position(&store.entries, id) {
        Some(p) => {
            let mut entries: Vec<ClipboardEntry> = Vec::new();
            std::mem::swap(&mut entries, &mut store.entries);
            entries[p].pinned = pinned;
            proof {
                let after = views(entries@);
                assert forall|i: int| 0 <= i < after.len() implies #[trigger] after[i] == pin_set(
                    old(store)@,
                    id,
                    pinned,
                ).entries[i] by {
                    if i != p {
                        if i < p {
                            assert(before[i].id < before[p as int].id);
                        } else {
                            assert(before[p as int].id < before[i].id);
                        }
                    }
                }
                assert(after =~= pin_set(old(store)@, id, pinned).entries);
                assert forall|i: int| 0 <= i < after.len() implies 1 <= #[trigger] after[i].id
                    <= store.last_id by {
                    assert(after[i].id == before[i].id);
                }
                assert forall|i: int, j: int| 0 <= i < j < after.len() implies #[trigger] after[i].id
                    < #[trigger] after[j].id by {
                    assert(after[i].id == before[i].id);
                    assert(after[j].id == before[j].id);
                }
            }
            store.entries = entries;
        },
        None => {
            proof {
                assert forall|i: int| 0 <= i < before.len() implies #[trigger] before[i] == pin_set(
                    old(store)@,
                    id,
                    pinned,
                ).entries[i] by {
                    assert(before[i] == store.entries@[i]@);
                }
                assert(before =~= pin_set(old(store)@, id, pinned).entries);
            }
        },
    }
}

/// Pins the entry that bears `id`. Where the store holds none, nothing
/// changes.
pub fn pin_item_by_id(store: &mut EntryStore, id: i64)
    ensures
        well_formed(final(store)@),
        final(store)@ == pin_set(old(store)@, id, true),
{
    set_pinned(store, id, true)
}

/// Unpins the entry that bears `id`. Where the store holds none, nothing
/// changes.
pub fn unpin_item_by_id(store: &mut EntryStore, id: i64)
    ensures
        well_formed(final(store)@),
        final(store)@ == pin_set(old(store)@, id, false),
{
    set_pinned(store, id, false)
}

/// Unpins every entry and returns how many entries the store holds: each of
/// them counts, whether it was pinned or not.
pub fn unpin_all_items(store: &mut EntryStore) -> (count: i64)
    ensures
        well_formed(final(store)@),
        final(store)@ == unpinned_all(old(store)@),
        count == old(store)@.entries.len(),
{
    proof {
        use_type_invariant(&*store);
        lemma_count_bounded(store@);
    }
    let ghost before = store@.entries;
    let mut entries: Vec<ClipboardEntry> = Vec::new();
    std::mem::swap(&mut entries, &mut store.entries);
    let n = entries.len();
    let mut i: usize = 0;
    while i < n
        invariant
            i <= n,
            n == entries@.len(),
            n == before.len(),
            forall|k: int| 0 <= k < i ==> #[trigger] entries@[k]@ == with_pin(before[k], false),
            forall|k: int| i <= k < n ==> #[trigger] entries@[k]@ == before[k],
        decreases n - i,
    {
        let ghost prev = entries@;
        entries[i].pinned = false;
        proof {
            assert(entries@[i as int]@ == with_pin(prev[i as int]@, false));
            assert forall|k: int| 0 <= k < n && k != i implies #[trigger] entries@[k] == prev[k] by {}
        }
        i += 1;
    }
    proof {
        let after = views(entries@);
        assert(after =~= unpinned_all(old(store)@).entries);
        assert forall|k: int| 0 <= k < after.len() implies 1 <= #[trigger] after[k].id
            <= store.last_id by {
            assert(after[k].id == before[k].id);
        }
        assert forall|k: int, j: int| 0 <= k < j < after.len() implies #[trigger] after[k].id
            < #[trigger] after[j].id by {
            assert(after[k].id == before[k].id);
            assert(after[j].id == before[j].id);
        }
    }
    store.entries = entries;
    n as i64
}

/// Annotates the entry that bears `id` with `language` and tells whether the
/// store holds such an entry. Where it holds none, nothing changes.
pub fn set_forced_language(store: &mut EntryStore, id: i64, language: &str) -> (changed: bool)
    ensures
        well_formed(final(store)@),
        final(store)@ == language_set(old(store)@, id, language@),
        changed == holds(old(store)@, id),
{
    proof {
        use_type_invariant(&*store);
    }
    let ghost before = store@.entries;
    match position(&store.entries, id) {
        Some(p) => {
            let mut entries: Vec<ClipboardEntry> = Vec::new();
            std::mem::swap(&mut entries, &mut store.entries);
            entries[p].forced_language = Some(language.to_owned());
            proof {
                let after = views(entries@);
                assert(before[p as int].id == id);
                assert forall|i: int| 0 <= i < after.len() implies #[trigger] after[i]
                    == language_set(old(store)@, id, language@).entries[i] by {
                    if i != p {
                        if i < p {
                            assert(before[i].id < before[p as int].id);
                        } else {
                            assert(before[p as int].id < before[i].id);
                        }
                    }
                }
                assert(after =~= language_set(old(store)@, id, language@).entries);
                assert forall|i: int| 0 <= i < after.len() implies 1 <= #[trigger] after[i].id
                    <= store.last_id by {
                    assert(after[i].id == before[i].id);
                }
                assert forall|i: int, j: int| 0 <= i < j < after.len() implies #[trigger] after[i].id
                    < #[trigger] after[j].id by {
                    assert(after[i].id == before[i].id);
                    assert(after[j].id == before[j].id);
                }
            }
            store.entries = entries;
            true
        },
        None => {
            proof {
                assert forall|i: int| 0 <= i < before.len() implies #[trigger] before[i]
                    == language_set(old(store)@, id, language@).entries[i] by {
                    assert(before[i] == store.entries@[i]@);
                }
                assert(before =~= language_set(old(store)@, id, language@).entries);
                assert(!holds(old(store)@, id)) by {
                    assert forall|i: int| 0 <= i < before.len() implies #[trigger] before[i].id
                        != id by {
                        assert(before[i] == store.entries@[i]@);
                    }
                }
            }
            false
        },
    }
}

/// Sets the pinned flag of the entry that bears `id` to `state`. The answer
/// is always `true`: an unknown identifier is no failure.
pub fn toggle_pin(store: &mut EntryStore, id: i64, state: bool) -> (done: bool)
    ensures
        well_formed(final(store)@),
        final(store)@ == pin_set(old(store)@, id, state),
        done,
{
    if state {
        pin_item_by_id(store, id);
    } else {
        unpin_item_by_id(store, id);
    }
    true
}

/// Unpins every entry and tells whether the store holds any entry.
pub fn unpin_all(store: &mut EntryStore) -> (any: bool)
    ensures
        well_formed(final(store)@),
        final(store)@ == unpinned_all(old(store)@),
        any == (old(store)@.entries.len() > 0),
{
    let count = unpin_all_items(store);
    count > 0
}

/// Whether the store holds an entry of this kind.
pub open spec fn has_kind(s: StoreView, kind: Seq<char>) -> bool {
    exists|i: int| 0 <= i < s.entries.len() && #[trigger] s.entries[i].entry_type == kind
}

/// `e` is an entry of the store, is of this kind, and no entry of this kind
/// is newer.
pub open spec fn is_newest_of_kind(s: StoreView, kind: Seq<char>, e: EntryView) -> bool {
    &&& s.entries.contains(e)
    &&& e.entry_type == kind
    &&& forall|i: int|
        0 <= i < s.entries.len() && s.entries[i].entry_type == kind ==> !newer(
            #[trigger] s.entries[i],
            e,
        )
}

/// Decides `newer`.
fn is_newer(a: &ClipboardEntry, b: &ClipboardEntry) -> (yes: bool)
    ensures
        yes == newer(a@, b@),
{
    if text_before(b.added_at.as_str(), a.added_at.as_str()) {
        true
    } else if text_before(a.added_at.as_str(), b.added_at.as_str()) {
        proof {
            let x = vstd::utf8::encode_utf8(a@.added_at);
            lemma_lex_irreflexive(x);
        }
        false
    } else {
        proof {
            let x = vstd::utf8::encode_utf8(a@.added_at);
            let y = vstd::utf8::encode_utf8(b@.added_at);
            if x != y {
                lemma_lex_total(x, y);
            }
            lemma_encoding_is_injective(a@.added_at, b@.added_at);
        }
        a.id > b.id
    }
}

/// The newest entry whose kind is `item_type`, or nothing if the store holds
/// no entry of that kind.
pub fn get_last_item_copied(store: &EntryStore, item_type: &str) -> (found: Option<ClipboardEntry>)
    ensures
        match found {
            Some(e) => is_newest_of_kind(store@, item_type@, e@),
            None => !has_kind(store@, item_type@),
        },
{
    proof {
        use_type_invariant(store);
    }
    let ghost all = store@.entries;
    let n = store.entries.len();
    let mut best: Option<usize> = None;
    let mut i: usize = 0;
    while i < n
        invariant
            i <= n,
            n == store.entries@.len(),
            all == views(store.entries@),
            match best {
                Some(b) => {
                    &&& b < i
                    &&& all[b as int].entry_type == item_type@
                    &&& forall|k: int|
                        0 <= k < i && all[k].entry_type == item_type@ ==> !newer(
                            #[trigger] all[k],
                            all[b as int],
                        )
                },
                None => forall|k: int| 0 <= k < i ==> #[trigger] all[k].entry_type != item_type@,
            },
        decreases n - i,
    {
        proof {
            assert(all[i as int] == store.entries@[i as int]@);
        }
        if same_text(store.entries[i].entry_type.as_str(), item_type) {
            match best {
                Some(b) => {
                    proof {
                        assert(all[b as int] == store.entries@[b as int]@);
                    }
                    if is_newer(&store.entries[i], &store.entries[b]) {
                        proof {
                            let top = all[i as int];
                            assert forall|k: int|
                                0 <= k < i + 1 && all[k].entry_type == item_type@ implies !newer(
                                #[trigger] all[k],
                                top,
                            ) by {
                                if newer(all[k], top) {
                                    if k == i {
                                        lemma_newer_asymmetric(top, top);
                                    } else {
                                        lemma_newer_transitive(all[k], top, all[b as int]);
                                    }
                                }
                            }
                        }
                        best = Some(i);
                    }
                },
                None => {
                    proof {
                        let top = all[i as int];
                        if newer(top, top) {
                            lemma_newer_asymmetric(top, top);
                        }
                    }
                    best = Some(i);
                },
            }
        }
        i += 1;
    }
    match best {
        Some(b) => {
            proof {
                assert(all[b as int] == store.entries@[b as int]@);
            }
            Some(store.entries[b].clone())
        },
        None => None,
    }
}

/// `ids` lists the identifier of every entry of the store once, the newest
/// entry first.
pub open spec fn is_newest_first(s: StoreView, ids: Seq<i64>) -> bool {
    &&& ids.len() == s.entries.len()
    &&& forall|i: int| 0 <= i < s.entries.len() ==> ids.contains(#[trigger] s.entries[i].id)
    &&& forall|k: int| 0 <= k < ids.len() ==> lookup(s, #[trigger] ids[k]) is Some
    &&& forall|a: int, b: int|
        0 <= a < b < ids.len() ==> newer(
            lookup(s, #[trigger] ids[a]).unwrap(),
            lookup(s, #[trigger] ids[b]).unwrap(),
        )
}

/// `order` holds each index below `count` once, and the entries it points to
/// stand oldest first.
spec fn is_oldest_first(all: Seq<EntryView>, order: Seq<usize>, count: int) -> bool {
    &&& order.len() == count
    &&& forall|k: int| 0 <= k < order.len() ==> (#[trigger] order[k]) < count
    &&& forall|i: usize| (i as int) < count ==> #[trigger] order.contains(i)
    &&& forall|a: int, b: int|
        0 <= a < b < order.len() ==> newer(
            all[(#[trigger] order[b]) as int],
            all[(#[trigger] order[a]) as int],
        )
}

/// The identifiers of all entries, the newest entry first.
pub fn get_all_ids(store: &EntryStore) -> (ids: Vec<i64>)
    ensures
        is_newest_first(store@, ids@),
{
    proof {
        use_type_invariant(store);
    }
    let ghost all = store@.entries;
    let n = store.entries.len();
    let mut order: Vec<usize> = Vec::new();
    let mut j: usize = 0;
    while j < n
        invariant
            j <= n,
            n == store.entries@.len(),
            all == views(store.entries@),
            well_formed(store@),
            all == store@.entries,
            is_oldest_first(all, order@, j as int),
        decreases n - j,
    {
        let mut p: usize = order.len();
        while p > 0 && is_newer(&store.entries[order[p - 1]], &store.entries[j])
            invariant
                p <= order@.len(),
                j < n,
                n == store.entries@.len(),
                all == views(store.entries@),
                is_oldest_first(all, order@, j as int),
                forall|k: int|
                    p <= k < order@.len() ==> newer(all[(#[trigger] order@[k]) as int], all[j as int]),
            decreases p,
        {
            p -= 1;
        }
        let ghost prior = order@;
        order.insert(p, j);
        proof {
            let next = order@;
            let fresh = all[j as int];
            assert forall|k: int| 0 <= k < p implies newer(fresh, all[(#[trigger] prior[k]) as int]) by {
                let under = all[prior[p - 1] as int];
                assert(prior[p - 1] < j);
                assert(under.id < fresh.id);
                lemma_newer_total(under, fresh);
                if k < p - 1 {
                    lemma_newer_transitive(fresh, under, all[prior[k] as int]);
                }
            }
            assert forall|k: int| 0 <= k < next.len() implies (#[trigger] next[k]) < j + 1 by {
                if k < p {
                    assert(next[k] == prior[k]);
                } else if k > p {
                    assert(next[k] == prior[k - 1]);
                }
            }
            assert forall|i: usize| (i as int) < j + 1 implies #[trigger] next.contains(i) by {
                if i == j {
                    assert(next[p as int] == i);
                } else {
                    assert(prior.contains(i));
                    let k0 = choose|k: int| 0 <= k < prior.len() && prior[k] == i;
                    if k0 < p {
                        assert(next[k0] == i);
                    } else {
                        assert(next[k0 + 1] == i);
                    }
                }
            }
            assert forall|a: int, b: int| 0 <= a < b < next.len() implies newer(
                all[(#[trigger] next[b]) as int],
                all[(#[trigger] next[a]) as int],
            ) by {
                let x = if a < p { a } else { a - 1 };
                let y = if b < p { b } else { b - 1 };
                if a == p {
                    assert(next[b] == prior[y]);
                } else if b == p {
                    assert(next[a] == prior[x]);
                } else {
                    assert(next[a] == prior[x]);
                    assert(next[b] == prior[y]);
                }
            }
        }
        j += 1;
    }
    let mut ids: Vec<i64> = Vec::new();
    let mut k: usize = n;
    while k > 0
        invariant
            k <= n,
            n == store.entries@.len(),
            all == views(store.entries@),
            is_oldest_first(all, order@, n as int),
            ids@.len() == n - k,
            forall|m: int| 0 <= m < ids@.len() ==> #[trigger] ids@[m] == all[order@[n - 1 - m] as int].id,
        decreases k,
    {
        k -= 1;
        ids.push(store.entries[order[k]].id);
    }
    proof {
        let listed = ids@;
        assert forall|i: int| 0 <= i < all.len() implies listed.contains(#[trigger] all[i].id) by {
            assert(order@.contains(i as usize));
            let k0 = choose|k: int| 0 <= k < order@.len() && order@[k] == i as usize;
            assert(listed[n - 1 - k0] == all[i].id);
        }
        assert forall|m: int| 0 <= m < listed.len() implies lookup(store@, #[trigger] listed[m])
            == Some(all[order@[n - 1 - m] as int]) by {
            lemma_lookup(store@, order@[n - 1 - m] as int);
        }
        assert forall|a: int, b: int| 0 <= a < b < listed.len() implies newer(
            lookup(store@, #[trigger] listed[a]).unwrap(),
            lookup(store@, #[trigger] listed[b]).unwrap(),
        ) by {
            assert(lookup(store@, listed[a]) == Some(all[order@[n - 1 - a] as int]));
            assert(lookup(store@, listed[b]) == Some(all[order@[n - 1 - b] as int]));
        }
    }
    ids
}

/// Whether the identifiers of `entries` are positive and increase strictly.
pub open spec fn ordered(entries: Seq<EntryView>) -> bool {
    &&& forall|i: int| 0 <= i < entries.len() ==> 1 <= #[trigger] entries[i].id
    &&& forall|i: int, j: int|
        0 <= i < j < entries.len() ==> #[trigger] entries[i].id < #[trigger] entries[j].id
}

/// The highest identifier that a store with these entries has issued, where
/// `recorded` is what was noted of it: the highest of the two, and never
/// less than the identifier of the last entry.
pub open spec fn highest_issued(entries: Seq<EntryView>, recorded: int) -> int {
    let last: int = if entries.len() > 0 {
        entries.last().id as int
    } else {
        0
    };
    if recorded > last {
        recorded
    } else {
        last
    }
}

impl EntryStore {
    /// Rebuilds a store from the entries it held, in insertion order, and
    /// from what was noted of the highest identifier it had issued. Nothing
    /// comes back where the identifiers of the entries are not positive and
    /// strictly increasing.
    pub fn restore(entries: Vec<ClipboardEntry>, recorded: i64) -> (store: Option<Self>)
        ensures
            store is Some <==> ordered(views(entries@)),
            store matches Some(s) ==> s@ == (StoreView {
                entries: views(entries@),
                last_id: highest_issued(views(entries@), recorded as int),
            }),
    {
        let ghost rows = views(entries@);
        let n = entries.len();
        let mut i: usize = 0;
        while i < n
            invariant
                i <= n,
                n == entries@.len(),
                rows == views(entries@),
                forall|k: int| 0 <= k < i ==> 1 <= #[trigger] rows[k].id,
                forall|k: int| 0 < k < i ==> rows[k - 1].id < #[trigger] rows[k].id,
            decreases n - i,
        {
            proof {
                assert(rows[i as int] == entries@[i as int]@);
            }
            if entries[i].id < 1 {
                proof {
                    assert(!(1 <= rows[i as int].id));
                }
                return None;
            }
            if i > 0 {
                proof {
                    assert(rows[i - 1] == entries@[i - 1]@);
                }
                if entries[i - 1].id >= entries[i].id {
                    proof {
                        assert(!(rows[i - 1].id < rows[i as int].id));
                    }
                    return None;
                }
            }
            i += 1;
        }
        let last: i64 = if n > 0 {
            proof {
                assert(rows[n - 1] == entries@[n - 1]@);
            }
            entries[n - 1].id
        } else {
            0
        };
        let last_id: i64 = if recorded > last {
            recorded
        } else {
            last
        };
        proof {
            assert forall|a: int, b: int| 0 <= a < b < rows.len() implies #[trigger] rows[a].id
                < #[trigger] rows[b].id by {
                lemma_steps_increase(rows, a, b);
            }
            assert forall|k: int| 0 <= k < rows.len() implies #[trigger] rows[k].id <= last_id by {
                if k < n - 1 {
                    assert(rows[k].id < rows[n - 1].id);
                }
            }
        }
        Some(EntryStore { entries, last_id })
    }
}

/// Identifiers that increase from each entry to the next increase along the
/// whole sequence.
proof fn lemma_steps_increase(s: Seq<EntryView>, a: int, b: int)
    requires
        0 <= a < b < s.len(),
        forall|k: int| 0 < k < s.len() ==> s[k - 1].id < #[trigger] s[k].id,
    ensures
        s[a].id < s[b].id,
    decreases b - a,
{
    if a + 1 < b {
        lemma_steps_increase(s, a, b - 1);
    }
    assert(s[b - 1].id < s[b].id);
}

/// There is one newest entry of a kind at most.
pub proof fn lemma_newest_of_kind_is_unique(s: StoreView, kind: Seq<char>, a: EntryView, b: EntryView)
    requires
        well_formed(s),
        is_newest_of_kind(s, kind, a),
        is_newest_of_kind(s, kind, b),
    ensures
        a == b,
{
    let i = choose|i: int| 0 <= i < s.entries.len() && s.entries[i] == a;
    let j = choose|j: int| 0 <= j < s.entries.len() && s.entries[j] == b;
    if a.id != b.id {
        lemma_newer_total(a, b);
        assert(!newer(s.entries[i], b));
        assert(!newer(s.entries[j], a));
    }
    if i < j {
        assert(s.entries[i].id < s.entries[j].id);
    } else if j < i {
        assert(s.entries[j].id < s.entries[i].id);
    }
}

/// Two listings of the same store agree up to `upto`.
proof fn lemma_listings_agree(s: StoreView, a: Seq<i64>, b: Seq<i64>, upto: int)
    requires
        well_formed(s),
        is_newest_first(s, a),
        is_newest_first(s, b),
        0 <= upto <= a.len(),
    ensures
        forall|k: int| 0 <= k < upto ==> a[k] == b[k],
    decreases upto,
{
    if upto > 0 {
        lemma_listings_agree(s, a, b, upto - 1);
        let k = upto - 1;
        if a[k] != b[k] {
            let x = lookup(s, a[k]).unwrap();
            let y = lookup(s, b[k]).unwrap();
            lemma_lookup_finds(s, a[k]);
            lemma_lookup_finds(s, b[k]);
            // Each of the two stands further back in the other listing.
            assert(a.contains(y.id));
            let j = choose|j: int| 0 <= j < a.len() && a[j] == b[k];
            if j < k {
                lemma_listing_is_strict(s, b, j, k);
            }
            assert(newer(lookup(s, a[k]).unwrap(), lookup(s, a[j]).unwrap()));
            assert(b.contains(x.id));
            let i = choose|i: int| 0 <= i < b.len() && b[i] == a[k];
            if i < k {
                lemma_listing_is_strict(s, a, i, k);
            }
            assert(newer(lookup(s, b[k]).unwrap(), lookup(s, b[i]).unwrap()));
            lemma_newer_asymmetric(x, y);
        }
    }
}

/// What an identifier finds is an entry of the store that bears it.
proof fn lemma_lookup_finds(s: StoreView, id: i64)
    requires
        lookup(s, id) is Some,
    ensures
        lookup(s, id).unwrap().id == id,
        exists|i: int| 0 <= i < s.entries.len() && s.entries[i] == lookup(s, id).unwrap(),
{
    let i = choose|i: int| 0 <= i < s.entries.len() && #[trigger] s.entries[i].id == id;
    assert(s.entries[i] == lookup(s, id).unwrap());
}

/// No identifier stands twice in a listing.
proof fn lemma_listing_is_strict(s: StoreView, ids: Seq<i64>, i: int, j: int)
    requires
        is_newest_first(s, ids),
        0 <= i < j < ids.len(),
    ensures
        ids[i] != ids[j],
{
    if ids[i] == ids[j] {
        let x = lookup(s, ids[i]).unwrap();
        assert(newer(lookup(s, ids[i]).unwrap(), lookup(s, ids[j]).unwrap()));
        lemma_newer_asymmetric(x, x);
    }
}

/// A store has one listing of its identifiers, newest first.
pub proof fn lemma_listing_is_unique(s: StoreView, a: Seq<i64>, b: Seq<i64>)
    requires
        well_formed(s),
        is_newest_first(s, a),
        is_newest_first(s, b),
    ensures
        a == b,
{
    lemma_listings_agree(s, a, b, a.len() as int);
    assert(a =~= b);
}

/// Once every entry was deleted, the listing of identifiers is empty.
pub proof fn lemma_nothing_listed_after_delete_all(s: StoreView, ids: Seq<i64>)
    requires
        is_newest_first(cleared(s), ids),
    ensures
        ids == Seq::<i64>::empty(),
{
    assert(ids =~= Seq::<i64>::empty());
}

/// Once every entry was unpinned, no entry is pinned, whichever entry was
/// pinned before.
pub proof fn lemma_none_pinned_after_unpin_all(s: StoreView, id: i64)
    ensures
        forall|i: int|
            0 <= i < unpinned_all(pin_set(s, id, true)).entries.len() ==> !(
            #[trigger] unpinned_all(pin_set(s, id, true)).entries[i]).pinned,
        unpinned_all(pin_set(s, id, true)) == unpinned_all(s),
{
    assert(unpinned_all(pin_set(s, id, true)).entries =~= unpinned_all(s).entries);
}

/// Pinning, unpinning and annotating change nothing but the flag or the
/// annotation: every entry keeps its identifier, kind, content and
/// timestamp, and its place.
pub proof fn lemma_metadata_only(s: StoreView, id: i64, pinned: bool, language: Seq<char>, i: int)
    requires
        0 <= i < s.entries.len(),
    ensures
        same_record(s.entries[i], pin_set(s, id, pinned).entries[i]),
        same_record(s.entries[i], unpinned_all(s).entries[i]),
        same_record(s.entries[i], language_set(s, id, language).entries[i]),
{
}

/// Two entry values that differ at most in what a user may change.
pub open spec fn same_record(a: EntryView, b: EntryView) -> bool {
    &&& a.id == b.id
    &&& a.entry_type == b.entry_type
    &&& a.content == b.content
    &&& a.added_at == b.added_at
}

/// An identifier that was issued is never issued again: whatever is
/// inserted after an entry was deleted bears a higher identifier than the
/// deleted entry did.
pub proof fn lemma_identifier_not_reused(
    s: StoreView,
    i: int,
    entry_type: Seq<char>,
    content: Seq<char>,
    pinned: bool,
    added_at: Seq<char>,
)
    requires
        well_formed(s),
        0 <= i < s.entries.len(),
        s.last_id < i64::MAX,
    ensures
        inserted(deleted(s, s.entries[i].id), entry_type, content, pinned, added_at).entries.last().id
            > s.entries[i].id,
{
}

} // verus!
