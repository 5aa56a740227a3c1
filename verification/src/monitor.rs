//! The clipboard monitor: what becomes of each clipboard reading, and the
//! mirror and suppression flag that keep the monitor from recording what the
//! application wrote to the clipboard itself.

use vstd::prelude::*;
use vstd::string::*;
use crate::classify::{classify, classified, stored_content};
use crate::display::{
    display_copy,
    display_view,
    json_string_member,
    member_view,
    part_or_raw,
    part_of_member,
    string_member,
};
use crate::entry::{ClipboardEntry, ContentKind, EntryView};
use crate::settings::ClipboardPolicy;
use crate::store::{
    EntryStore,
    StoreError,
    StoreView,
    deleted,
    delete_item_by_id,
    get_item_by_id,
    get_last_item_copied,
    has_kind,
    inserted,
    insert_clipboard_entry,
    is_newest_of_kind,
    lookup,
    well_formed,
};
use crate::text::same_text;

verus! {

/// The time between two readings of the clipboard, in milliseconds.
pub const POLL_INTERVAL_MS: u64 = 20;

/// The time after which the window hides once an entry was copied back, in
/// milliseconds.
pub const AUTO_HIDE_DELAY_MS: u64 = 700;

/// The monitor's state: the text and the image it last observed or the
/// application last wrote itself, and whether readings are suppressed.
#[derive(Debug)]
pub struct ClipboardMonitor {
    pub last_text: String,
    pub last_image: String,
    pub suppressed: bool,
}

/// The mathematical value of a `ClipboardMonitor`.
pub ghost struct MonitorView {
    pub last_text: Seq<char>,
    pub last_image: Seq<char>,
    pub suppressed: bool,
}

impl View for ClipboardMonitor {
    type V = MonitorView;

    open spec fn view(&self) -> MonitorView {
        MonitorView {
            last_text: self.last_text@,
            last_image: self.last_image@,
            suppressed: self.suppressed,
        }
    }
}

/// What became of one clipboard reading.
#[derive(Debug)]
pub enum Observation {
    /// Nothing was recorded: readings are suppressed, or the reading is what
    /// the mirror holds.
    Unchanged,
    /// A new entry was recorded; this is its display-safe copy.
    Stored(ClipboardEntry),
    /// The reading was new, but the store refused the entry.
    Refused(StoreError),
}

/// The mathematical value of an `Observation`.
pub ghost enum ObservationView {
    Unchanged,
    Stored(EntryView),
    Refused(StoreError),
}

impl View for Observation {
    type V = ObservationView;

    open spec fn view(&self) -> ObservationView {
        match self {
            Observation::Unchanged => ObservationView::Unchanged,
            Observation::Stored(e) => ObservationView::Stored(e@),
            Observation::Refused(e) => ObservationView::Refused(*e),
        }
    }
}

/// What became of the readings of one tick.
#[derive(Debug)]
pub struct TickReport {
    pub text: Observation,
    pub image: Observation,
}

/// `slot` mirrors the newest entry of this kind: it holds that entry's
/// content, and is empty where the store holds no such entry.
pub open spec fn mirrors(s: StoreView, kind: Seq<char>, slot: Seq<char>) -> bool {
    if has_kind(s, kind) {
        exists|e: EntryView| is_newest_of_kind(s, kind, e) && slot == e.content
    } else {
        slot == Seq::<char>::empty()
    }
}

/// The store after a reading: unchanged where the reading is passed over or
/// no identifier is left, and otherwise with a new, unpinned entry of this
/// kind and content.
pub open spec fn recorded(
    s: StoreView,
    skip: bool,
    entry_type: Seq<char>,
    content: Seq<char>,
    now: Seq<char>,
) -> StoreView {
    if skip || s.last_id >= i64::MAX {
        s
    } else {
        inserted(s, entry_type, content, false, now)
    }
}

/// Whether a text reading is passed over: it is while readings are
/// suppressed, and when it is the text that the mirror holds.
pub open spec fn skips_text(m: MonitorView, text: Seq<char>) -> bool {
    m.suppressed || text == m.last_text
}

/// Whether an image reading is passed over: it is while readings are
/// suppressed, and when it is the image that the mirror holds.
pub open spec fn skips_image(m: MonitorView, image: Seq<char>) -> bool {
    m.suppressed || image == m.last_image
}

/// The monitor after a text reading: a reading that is not passed over
/// becomes the mirrored text.
pub open spec fn monitor_after_text(m: MonitorView, text: Seq<char>) -> MonitorView {
    if skips_text(m, text) {
        m
    } else {
        MonitorView { last_text: text, ..m }
    }
}

/// The store after a text reading: a reading that is not passed over is
/// recorded under the kind it is classified as.
pub open spec fn store_after_text(
    m: MonitorView,
    s: StoreView,
    text: Seq<char>,
    now: Seq<char>,
) -> StoreView {
    recorded(s, skips_text(m, text), classified(text).name_spec(), stored_content(text), now)
}

/// The monitor after an image reading: a reading that is not passed over
/// becomes the mirrored image.
pub open spec fn monitor_after_image(m: MonitorView, image: Seq<char>) -> MonitorView {
    if skips_image(m, image) {
        m
    } else {
        MonitorView { last_image: image, ..m }
    }
}

/// The store after an image reading: a reading that is not passed over is
/// recorded as an image, as it is.
pub open spec fn store_after_image(
    m: MonitorView,
    s: StoreView,
    image: Seq<char>,
    now: Seq<char>,
) -> StoreView {
    recorded(s, skips_image(m, image), ContentKind::Image.name_spec(), image, now)
}

/// What is reported of a reading: nothing where it was passed over, the
/// refusal where the store was full, and otherwise the display-safe copy of
/// the entry that was recorded last.
pub open spec fn reported(before: StoreView, after: StoreView, skip: bool, limit: int) -> ObservationView {
    if skip {
        ObservationView::Unchanged
    } else if before.last_id >= i64::MAX {
        ObservationView::Refused(StoreError::IdentifiersExhausted)
    } else {
        ObservationView::Stored(display_view(after.entries.last(), limit))
    }
}

impl ClipboardMonitor {
    /// A monitor that has observed nothing yet.
    pub fn new() -> (monitor: Self)
        ensures
            monitor@ == (MonitorView {
                last_text: Seq::empty(),
                last_image: Seq::empty(),
                suppressed: false,
            }),
    {
        ClipboardMonitor { last_text: String::new(), last_image: String::new(), suppressed: false }
    }

    /// The monitor with which watching starts: its slots mirror the newest
    /// `image` entry and the newest `text` entry of the store.
    pub fn resume(store: &EntryStore) -> (monitor: Self)
        ensures
            !monitor@.suppressed,
            mirrors(store@, "image"@, monitor@.last_image),
            mirrors(store@, "text"@, monitor@.last_text),
    {
        let last_image = match get_last_item_copied(store, "image") {
            Some(entry) => entry.content,
            None => String::new(),
        };
        let last_text = match get_last_item_copied(store, "text") {
            Some(entry) => entry.content,
            None => String::new(),
        };
        ClipboardMonitor { last_text, last_image, suppressed: false }
    }

    /// Whether the clipboard is to be read at this tick: it is not while
    /// readings are suppressed.
    pub fn should_read(&self) -> (yes: bool)
        ensures
            yes == !self@.suppressed,
    {
        !self.suppressed
    }

    /// Suppresses readings, before the application writes to the clipboard.
    pub fn suppress(&mut self)
        ensures
            final(self)@ == (MonitorView { suppressed: true, ..old(self)@ }),
    {
        self.suppressed = true;
    }

    /// Lets readings pass again, once the application's own write has
    /// settled.
    pub fn settle(&mut self)
        ensures
            final(self)@ == (MonitorView { suppressed: false, ..old(self)@ }),
    {
        self.suppressed = false;
    }

    /// Takes a text reading. A text that differs from the mirror is
    /// classified, recorded at `now` and mirrored, and its display-safe copy
    /// for `limit` characters is reported.
    pub fn observe_text(&mut self, store: &mut EntryStore, text: &str, now: &str, limit: i32) -> (seen:
        Observation)
        ensures
            well_formed(final(store)@),
            final(self)@ == monitor_after_text(old(self)@, text@),
            final(store)@ == store_after_text(old(self)@, old(store)@, text@, now@),
            seen@ == reported(
                old(store)@,
                final(store)@,
                skips_text(old(self)@, text@),
                limit as int,
            ),
    {
        proof {
            use_type_invariant(&*store);
        }
        if self.suppressed || same_text(text, self.last_text.as_str()) {
            return Observation::Unchanged;
        }
        let found = classify(text);
        self.last_text = text.to_owned();
        match insert_clipboard_entry(store, found.kind.name(), found.content.as_str(), 0, now) {
            Ok(id) => {
                let entry = ClipboardEntry {
                    id,
                    entry_type: found.kind.name().to_owned(),
                    content: found.content,
                    added_at: now.to_owned(),
                    pinned: false,
                    forced_language: None,
                };
                Observation::Stored(display_copy(&entry, limit))
            },
            Err(e) => Observation::Refused(e),
        }
    }

    /// Takes an image reading, in its encoded form. An image that differs
    /// from the mirror is recorded at `now` as it is and mirrored; it is
    /// reported whole.
    pub fn observe_image(&mut self, store: &mut EntryStore, image: &str, now: &str, limit: i32) -> (seen:
        Observation)
        ensures
            well_formed(final(store)@),
            final(self)@ == monitor_after_image(old(self)@, image@),
            final(store)@ == store_after_image(old(self)@, old(store)@, image@, now@),
            seen@ == reported(
                old(store)@,
                final(store)@,
                skips_image(old(self)@, image@),
                limit as int,
            ),
    {
        proof {
            use_type_invariant(&*store);
        }
        if self.suppressed || same_text(image, self.last_image.as_str()) {
            return Observation::Unchanged;
        }
        self.last_image = image.to_owned();
        match insert_clipboard_entry(store, ContentKind::Image.name(), image, 0, now) {
            Ok(id) => {
                let entry = ClipboardEntry {
                    id,
                    entry_type: ContentKind::Image.name().to_owned(),
                    content: image.to_owned(),
                    added_at: now.to_owned(),
                    pinned: false,
                    forced_language: None,
                };
                Observation::Stored(display_copy(&entry, limit))
            },
            Err(e) => Observation::Refused(e),
        }
    }
}

/// The value of a reading that may be missing.
pub open spec fn reading(text: Option<&str>) -> Option<Seq<char>> {
    match text {
        Some(t) => Some(t@),
        None => None,
    }
}

/// The monitor after the text reading of a tick, if there was one.
pub open spec fn monitor_after_text_reading(m: MonitorView, text: Option<Seq<char>>) -> MonitorView {
    match text {
        Some(t) => monitor_after_text(m, t),
        None => m,
    }
}

/// The store after the text reading of a tick, if there was one.
pub open spec fn store_after_text_reading(
    m: MonitorView,
    s: StoreView,
    text: Option<Seq<char>>,
    now: Seq<char>,
) -> StoreView {
    match text {
        Some(t) => store_after_text(m, s, t, now),
        None => s,
    }
}

/// The monitor after one tick: the text reading is taken first, then the
/// image reading; a missing reading changes nothing.
pub open spec fn monitor_after_tick(
    m: MonitorView,
    text: Option<Seq<char>>,
    image: Option<Seq<char>>,
) -> MonitorView {
    match image {
        Some(i) => monitor_after_image(monitor_after_text_reading(m, text), i),
        None => monitor_after_text_reading(m, text),
    }
}

/// The store after one tick.
pub open spec fn store_after_tick(
    m: MonitorView,
    s: StoreView,
    text: Option<Seq<char>>,
    image: Option<Seq<char>>,
    now: Seq<char>,
) -> StoreView {
    match image {
        Some(i) => store_after_image(
            monitor_after_text_reading(m, text),
            store_after_text_reading(m, s, text, now),
            i,
            now,
        ),
        None => store_after_text_reading(m, s, text, now),
    }
}

impl ClipboardMonitor {
    /// Takes the readings of one tick, the text first and the image second.
    /// A reading that could not be made is `None` and changes nothing.
    pub fn tick(
        &mut self,
        store: &mut EntryStore,
        text: Option<&str>,
        image: Option<&str>,
        now: &str,
        limit: i32,
    ) -> (report: TickReport)
        ensures
            well_formed(final(store)@),
            final(self)@ == monitor_after_tick(old(self)@, reading(text), reading(image)),
            final(store)@ == store_after_tick(
                old(self)@,
                old(store)@,
                reading(text),
                reading(image),
                now@,
            ),
            report.text@ == (match text {
                Some(t) => reported(
                    old(store)@,
                    store_after_text(old(self)@, old(store)@, t@, now@),
                    skips_text(old(self)@, t@),
                    limit as int,
                ),
                None => ObservationView::Unchanged,
            }),
            report.image@ == (match image {
                Some(i) => reported(
                    store_after_text_reading(old(self)@, old(store)@, reading(text), now@),
                    final(store)@,
                    skips_image(monitor_after_text_reading(old(self)@, reading(text)), i@),
                    limit as int,
                ),
                None => ObservationView::Unchanged,
            }),
    {
        proof {
            use_type_invariant(&*store);
        }
        let text_seen = match text {
            Some(t) => self.observe_text(store, t, now, limit),
            None => Observation::Unchanged,
        };
        let image_seen = match image {
            Some(i) => self.observe_image(store, i, now, limit),
            None => Observation::Unchanged,
        };
        TickReport { text: text_seen, image: image_seen }
    }
}

/// What is written to the clipboard when an entry is copied back.
#[derive(Debug)]
pub enum ClipboardPayload {
    /// An image, in its encoded form.
    Image(String),
    /// Rich text, with the plain text that stands for it.
    RichText { plain: String, rtf: String },
    /// Plain text.
    Text(String),
}

/// The mathematical value of a `ClipboardPayload`.
pub ghost enum PayloadView {
    Image(Seq<char>),
    RichText { plain: Seq<char>, rtf: Seq<char> },
    Text(Seq<char>),
}

impl View for ClipboardPayload {
    type V = PayloadView;

    open spec fn view(&self) -> PayloadView {
        match self {
            ClipboardPayload::Image(data) => PayloadView::Image(data@),
            ClipboardPayload::RichText { plain, rtf } => PayloadView::RichText {
                plain: plain@,
                rtf: rtf@,
            },
            ClipboardPayload::Text(text) => PayloadView::Text(text@),
        }
    }
}

/// What is to be done when an entry is copied back to the clipboard.
#[derive(Debug)]
pub struct PushPlan {
    /// What to write to the clipboard.
    pub payload: ClipboardPayload,
    /// Whether the entry has left the history, to be recorded anew.
    pub history_rewritten: bool,
    /// After how many milliseconds to hide the window, if at all.
    pub hide_after_ms: Option<u64>,
    /// Whether to paste once the window is hidden and the content settled.
    pub paste_when_settled: bool,
}

/// The payload for a rich-text entry, given what was found in its content
/// under `rtf` and under `plain`. Content that is no JSON is written as plain
/// text; a part that is missing is empty.
pub open spec fn rich_payload(
    content: Seq<char>,
    rtf: Option<Option<Seq<char>>>,
    plain: Option<Option<Seq<char>>>,
) -> PayloadView {
    if rtf is None {
        PayloadView::Text(content)
    } else {
        PayloadView::RichText { plain: part_or_raw(content, plain), rtf: part_or_raw(content, rtf) }
    }
}

/// Decides `rich_payload` for lookups that have been made.
pub fn rich_payload_from(content: &str, rtf: Option<Option<String>>, plain: Option<Option<String>>) -> (payload:
    ClipboardPayload)
    ensures
        payload@ == rich_payload(content@, member_view(rtf), member_view(plain)),
{
    if rtf.is_none() {
        ClipboardPayload::Text(content.to_owned())
    } else {
        ClipboardPayload::RichText {
            plain: part_of_member(content, plain),
            rtf: part_of_member(content, rtf),
        }
    }
}

/// What is written to the clipboard for an entry.
pub open spec fn payload_of(e: EntryView) -> PayloadView {
    if e.entry_type == "image"@ {
        PayloadView::Image(e.content)
    } else if e.entry_type == "rich_text"@ {
        rich_payload(
            e.content,
            json_string_member(e.content, "rtf"@),
            json_string_member(e.content, "plain"@),
        )
    } else {
        PayloadView::Text(e.content)
    }
}

/// The monitor after `e` was copied back. Where the history is rewritten
/// the monitor is left alone, so that it records the content anew. Otherwise
/// the slot for the entry's kind takes its content and readings are
/// suppressed.
pub open spec fn monitor_after_push(m: MonitorView, e: EntryView, rewrite: bool) -> MonitorView {
    if rewrite {
        m
    } else if e.entry_type == "image"@ {
        MonitorView { last_image: e.content, suppressed: true, ..m }
    } else {
        MonitorView { last_text: e.content, suppressed: true, ..m }
    }
}

/// The store after the entry at `id` was copied back: where the history is
/// rewritten, the entry leaves it.
pub open spec fn store_after_push(s: StoreView, id: i64, rewrite: bool) -> StoreView {
    if rewrite {
        deleted(s, id)
    } else {
        s
    }
}

/// Builds the payload for `entry`.
pub fn payload_for(entry: &ClipboardEntry) -> (payload: ClipboardPayload)
    ensures
        payload@ == payload_of(entry@),
{
    let kind = entry.entry_type.as_str();
    let content = entry.content.as_str();
    if same_text(kind, "image") {
        ClipboardPayload::Image(content.to_owned())
    } else if same_text(kind, "rich_text") {
        rich_payload_from(content, string_member(content, "rtf"), string_member(content, "plain"))
    } else {
        ClipboardPayload::Text(content.to_owned())
    }
}

/// Prepares copying the entry at `id` back to the clipboard. Nothing comes
/// back, and nothing changes, where the store holds no such entry.
/// Otherwise the plan says what to write, whether to hide the window after
/// `AUTO_HIDE_DELAY_MS` and whether to paste afterwards. Where the policy
/// rewrites the history the entry is removed; where it does not, the monitor
/// mirrors the entry and suppresses readings until `settle` is called.
pub fn push_to_clipboard(
    store: &mut EntryStore,
    monitor: &mut ClipboardMonitor,
    policy: &ClipboardPolicy,
    id: i64,
) -> (plan: Option<PushPlan>)
    ensures
        well_formed(final(store)@),
        match lookup(old(store)@, id) {
            Some(e) => {
                &&& plan matches Some(p)
                &&& p.payload@ == payload_of(e)
                &&& p.history_rewritten == policy.window_rewrite_history_on_copy
                &&& p.hide_after_ms == (if policy.auto_hide_on_copy {
                    Some(AUTO_HIDE_DELAY_MS)
                } else {
                    None
                })
                &&& p.paste_when_settled == policy.auto_paste_on_copy
                &&& final(monitor)@ == monitor_after_push(
                    old(monitor)@,
                    e,
                    policy.window_rewrite_history_on_copy,
                )
                &&& final(store)@ == store_after_push(
                    old(store)@,
                    id,
                    policy.window_rewrite_history_on_copy,
                )
            },
            None => {
                &&& plan is None
                &&& final(monitor)@ == old(monitor)@
                &&& final(store)@ == old(store)@
            },
        },
{
    proof {
        use_type_invariant(&*store);
    }
    let entry = match get_item_by_id(store, id) {
        Some(entry) => entry,
        None => {
            return None;
        },
    };
    let payload = payload_for(&entry);
    if policy.window_rewrite_history_on_copy {
        delete_item_by_id(store, id);
    } else {
        if same_text(entry.entry_type.as_str(), "image") {
            monitor.last_image = entry.content;
        } else {
            monitor.last_text = entry.content;
        }
        monitor.suppressed = true;
    }
    let hide_after_ms = if policy.auto_hide_on_copy {
        Some(AUTO_HIDE_DELAY_MS)
    } else {
        None
    };
    Some(
        PushPlan {
            payload,
            history_rewritten: policy.window_rewrite_history_on_copy,
            hide_after_ms,
            paste_when_settled: policy.auto_paste_on_copy,
        },
    )
}

/// What was read of the clipboard at one tick, and when.
pub ghost struct Reading {
    pub text: Option<Seq<char>>,
    pub image: Option<Seq<char>>,
    pub at: Seq<char>,
}

/// The monitor after a run of ticks.
pub open spec fn monitor_after_ticks(m: MonitorView, ticks: Seq<Reading>) -> MonitorView
    decreases ticks.len(),
{
    if ticks.len() == 0 {
        m
    } else {
        monitor_after_tick(
            monitor_after_ticks(m, ticks.drop_last()),
            ticks.last().text,
            ticks.last().image,
        )
    }
}

/// The store after a run of ticks.
pub open spec fn store_after_ticks(m: MonitorView, s: StoreView, ticks: Seq<Reading>) -> StoreView
    decreases ticks.len(),
{
    if ticks.len() == 0 {
        s
    } else {
        store_after_tick(
            monitor_after_ticks(m, ticks.drop_last()),
            store_after_ticks(m, s, ticks.drop_last()),
            ticks.last().text,
            ticks.last().image,
            ticks.last().at,
        )
    }
}

/// `values` with `next` at its end, where there is one.
pub open spec fn followed_by(values: Seq<Seq<char>>, next: Option<Seq<char>>) -> Seq<Seq<char>> {
    match next {
        Some(value) => values.push(value),
        None => values,
    }
}

/// The texts that were read in a run of ticks, in order.
pub open spec fn texts_read(ticks: Seq<Reading>) -> Seq<Seq<char>>
    decreases ticks.len(),
{
    if ticks.len() == 0 {
        Seq::empty()
    } else {
        followed_by(texts_read(ticks.drop_last()), ticks.last().text)
    }
}

/// The images that were read in a run of ticks, in order.
pub open spec fn images_read(ticks: Seq<Reading>) -> Seq<Seq<char>>
    decreases ticks.len(),
{
    if ticks.len() == 0 {
        Seq::empty()
    } else {
        followed_by(images_read(ticks.drop_last()), ticks.last().image)
    }
}

/// The number of maximal runs of equal values in `values`.
pub open spec fn runs(values: Seq<Seq<char>>) -> nat
    decreases values.len(),
{
    if values.len() == 0 {
        0
    } else if values.len() == 1 {
        1
    } else if values[values.len() - 2] == values.last() {
        runs(values.drop_last())
    } else {
        runs(values.drop_last()) + 1
    }
}

/// Whatever the clipboard goes through, the monitor records at most one
/// entry for each maximal run of equal texts and for each maximal run of
/// equal images that it reads, and it removes none.
pub proof fn lemma_one_entry_per_run(m: MonitorView, s: StoreView, ticks: Seq<Reading>)
    ensures
        s.entries.len() <= store_after_ticks(m, s, ticks).entries.len() <= s.entries.len() + runs(
            texts_read(ticks),
        ) + runs(images_read(ticks)),
        monitor_after_ticks(m, ticks).suppressed == m.suppressed,
        !m.suppressed && texts_read(ticks).len() > 0 ==> monitor_after_ticks(m, ticks).last_text
            == texts_read(ticks).last(),
        !m.suppressed && images_read(ticks).len() > 0 ==> monitor_after_ticks(m, ticks).last_image
            == images_read(ticks).last(),
        texts_read(ticks).len() == 0 ==> monitor_after_ticks(m, ticks).last_text == m.last_text,
        images_read(ticks).len() == 0 ==> monitor_after_ticks(m, ticks).last_image == m.last_image,
    decreases ticks.len(),
{
    if ticks.len() > 0 {
        let earlier = ticks.drop_last();
        lemma_one_entry_per_run(m, s, earlier);
        let texts = texts_read(earlier);
        let images = images_read(earlier);
        match ticks.last().text {
            Some(t) => {
                let all = texts.push(t);
                assert(all.drop_last() =~= texts);
                if texts.len() > 0 {
                    assert(all[all.len() - 2] == texts.last());
                }
            },
            None => {},
        }
        match ticks.last().image {
            Some(i) => {
                let all = images.push(i);
                assert(all.drop_last() =~= images);
                if images.len() > 0 {
                    assert(all[all.len() - 2] == images.last());
                }
            },
            None => {},
        }
    }
}

/// After an entry was copied back without rewriting the history, no reading
/// is recorded while readings are suppressed; and once they pass again, the
/// entry's own content, read back from the clipboard, is not recorded
/// either.
pub proof fn lemma_own_write_is_not_recorded(
    m: MonitorView,
    s: StoreView,
    e: EntryView,
    text: Option<Seq<char>>,
    image: Option<Seq<char>>,
    now: Seq<char>,
)
    ensures
        store_after_tick(monitor_after_push(m, e, false), s, text, image, now) == s,
        monitor_after_tick(monitor_after_push(m, e, false), text, image) == monitor_after_push(
            m,
            e,
            false,
        ),
        ({
            let settled = MonitorView { suppressed: false, ..monitor_after_push(m, e, false) };
            if e.entry_type == "image"@ {
                store_after_image(settled, s, e.content, now) == s
            } else {
                store_after_text(settled, s, e.content, now) == s
            }
        }),
{
}

} // verus!
