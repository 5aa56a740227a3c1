use tacticlip::entry::ClipboardEntry;
use tacticlip::store::{
    delete_all_items, delete_item_by_id, get_all_ids, get_item_by_id, get_last_item_copied,
    get_truncated_item_by_id, insert_clipboard_entry, pin_item_by_id, set_forced_language,
    toggle_pin, unpin_all, unpin_all_items, unpin_item_by_id, EntryStore, StoreError,
};

fn row(id: i64, kind: &str, content: &str, at: &str) -> ClipboardEntry {
    ClipboardEntry::from_row(id, kind.to_string(), content.to_string(), at.to_string(), 0, None)
}

fn filled() -> EntryStore {
    let mut store = EntryStore::new();
    insert_clipboard_entry(&mut store, "text", "one", 0, "2024-05-01 10:00:00").unwrap();
    insert_clipboard_entry(&mut store, "url", "https://example.com", 0, "2024-05-01 10:00:05")
        .unwrap();
    insert_clipboard_entry(&mut store, "text", "three", 1, "2024-05-01 10:00:09").unwrap();
    store
}

#[test]
fn new_store_is_empty() {
    let store = EntryStore::new();
    assert_eq!(store.len(), 0);
    assert_eq!(get_all_ids(&store), Vec::<i64>::new());
    assert!(get_item_by_id(&store, 1).is_none());
    assert!(get_last_item_copied(&store, "text").is_none());
}

#[test]
fn insert_assigns_identifiers_from_one_upwards() {
    let mut store = EntryStore::new();
    let a = insert_clipboard_entry(&mut store, "text", "one", 0, "2024-05-01 10:00:00");
    let b = insert_clipboard_entry(&mut store, "text", "two", 0, "2024-05-01 10:00:01");
    assert_eq!(a, Ok(1));
    assert_eq!(b, Ok(2));
    assert_eq!(store.len(), 2);
}

#[test]
fn insert_records_what_was_given() {
    let store = filled();
    let entry = get_item_by_id(&store, 2).unwrap();
    assert_eq!(entry.id, 2);
    assert_eq!(entry.entry_type, "url");
    assert_eq!(entry.content, "https://example.com");
    assert_eq!(entry.added_at, "2024-05-01 10:00:05");
    assert!(!entry.pinned);
    assert_eq!(entry.forced_language, None);
    assert!(get_item_by_id(&store, 3).unwrap().pinned);
}

#[test]
fn identifiers_are_never_reused() {
    let mut store = filled();
    delete_item_by_id(&mut store, 3);
    let id = insert_clipboard_entry(&mut store, "text", "four", 0, "2024-05-01 10:01:00");
    assert_eq!(id, Ok(4));
    delete_all_items(&mut store);
    let id = insert_clipboard_entry(&mut store, "text", "five", 0, "2024-05-01 10:02:00");
    assert_eq!(id, Ok(5));
}

#[test]
fn insert_fails_when_identifiers_are_exhausted() {
    let mut store = EntryStore::restore(Vec::new(), i64::MAX).unwrap();
    let outcome = insert_clipboard_entry(&mut store, "text", "late", 0, "2024-05-01 10:00:00");
    assert_eq!(outcome, Err(StoreError::IdentifiersExhausted));
    assert_eq!(store.len(), 0);
}

#[test]
fn last_identifier_can_still_be_issued() {
    let mut store = EntryStore::restore(Vec::new(), i64::MAX - 1).unwrap();
    let outcome = insert_clipboard_entry(&mut store, "text", "last", 0, "2024-05-01 10:00:00");
    assert_eq!(outcome, Ok(i64::MAX));
}

#[test]
fn ids_are_listed_newest_first() {
    let store = filled();
    assert_eq!(get_all_ids(&store), vec![3, 2, 1]);
}

#[test]
fn listing_goes_by_timestamp_not_by_insertion() {
    let mut store = EntryStore::new();
    insert_clipboard_entry(&mut store, "text", "late", 0, "2024-05-02 08:00:00").unwrap();
    insert_clipboard_entry(&mut store, "text", "early", 0, "2024-05-01 08:00:00").unwrap();
    insert_clipboard_entry(&mut store, "text", "middle", 0, "2024-05-01 20:00:00").unwrap();
    assert_eq!(get_all_ids(&store), vec![1, 3, 2]);
}

#[test]
fn equal_timestamps_list_the_later_insert_first() {
    let mut store = EntryStore::new();
    insert_clipboard_entry(&mut store, "text", "a", 0, "2024-05-01 08:00:00").unwrap();
    insert_clipboard_entry(&mut store, "text", "b", 0, "2024-05-01 08:00:00").unwrap();
    insert_clipboard_entry(&mut store, "text", "c", 0, "2024-05-01 07:00:00").unwrap();
    insert_clipboard_entry(&mut store, "text", "d", 0, "2024-05-01 08:00:00").unwrap();
    assert_eq!(get_all_ids(&store), vec![4, 2, 1, 3]);
}

#[test]
fn a_timestamp_sorts_after_its_own_prefix() {
    let mut store = EntryStore::new();
    insert_clipboard_entry(&mut store, "text", "long", 0, "2024-05-01 08:00:00.5").unwrap();
    insert_clipboard_entry(&mut store, "text", "short", 0, "2024-05-01 08:00:00").unwrap();
    assert_eq!(get_all_ids(&store), vec![1, 2]);
}

#[test]
fn get_last_item_copied_picks_the_newest_of_its_kind() {
    let mut store = filled();
    let last = get_last_item_copied(&store, "text").unwrap();
    assert_eq!(last.id, 3);
    assert_eq!(last.content, "three");
    let last = get_last_item_copied(&store, "url").unwrap();
    assert_eq!(last.id, 2);
    assert!(get_last_item_copied(&store, "image").is_none());
    insert_clipboard_entry(&mut store, "text", "old", 0, "2020-01-01 00:00:00").unwrap();
    assert_eq!(get_last_item_copied(&store, "text").unwrap().id, 3);
}

#[test]
fn get_item_by_id_returns_the_full_content() {
    let mut store = EntryStore::new();
    let long = "x".repeat(1000);
    insert_clipboard_entry(&mut store, "text", &long, 0, "2024-05-01 10:00:00").unwrap();
    assert_eq!(get_item_by_id(&store, 1).unwrap().content, long);
    assert!(get_item_by_id(&store, 2).is_none());
    assert!(get_item_by_id(&store, 0).is_none());
    assert!(get_item_by_id(&store, -1).is_none());
}

#[test]
fn get_truncated_item_by_id_cuts_the_content() {
    let mut store = EntryStore::new();
    insert_clipboard_entry(&mut store, "text", "abcdefghij", 0, "2024-05-01 10:00:00").unwrap();
    let shown = get_truncated_item_by_id(&store, 1, 4).unwrap();
    assert_eq!(shown.content, "abcd...");
    assert_eq!(shown.id, 1);
    assert_eq!(shown.entry_type, "text");
    assert_eq!(shown.added_at, "2024-05-01 10:00:00");
    assert_eq!(get_item_by_id(&store, 1).unwrap().content, "abcdefghij");
    assert!(get_truncated_item_by_id(&store, 9, 4).is_none());
}

#[test]
fn get_truncated_item_by_id_shows_the_plain_part_of_rich_text() {
    let mut store = EntryStore::new();
    let payload = "{\"plain\":\"hello world\",\"rtf\":\"{\\\\rtf1 hello world}\"}";
    insert_clipboard_entry(&mut store, "rich_text", payload, 0, "2024-05-01 10:00:00").unwrap();
    assert_eq!(get_truncated_item_by_id(&store, 1, 250).unwrap().content, "hello world");
    assert_eq!(get_truncated_item_by_id(&store, 1, 5).unwrap().content, "hello...");
    assert_eq!(get_item_by_id(&store, 1).unwrap().content, payload);
}

#[test]
fn delete_item_by_id_removes_one_entry() {
    let mut store = filled();
    delete_item_by_id(&mut store, 2);
    assert_eq!(get_all_ids(&store), vec![3, 1]);
    assert!(get_item_by_id(&store, 2).is_none());
    assert_eq!(get_item_by_id(&store, 1).unwrap().content, "one");
    assert_eq!(get_item_by_id(&store, 3).unwrap().content, "three");
}

#[test]
fn deleting_an_unknown_id_changes_nothing() {
    let mut store = filled();
    delete_item_by_id(&mut store, 42);
    assert_eq!(get_all_ids(&store), vec![3, 2, 1]);
    delete_item_by_id(&mut store, 2);
    delete_item_by_id(&mut store, 2);
    assert_eq!(get_all_ids(&store), vec![3, 1]);
}

#[test]
fn delete_all_then_list_is_empty() {
    let mut store = filled();
    assert_eq!(delete_all_items(&mut store), 3);
    assert_eq!(get_all_ids(&store), Vec::<i64>::new());
    assert_eq!(store.len(), 0);
    assert_eq!(delete_all_items(&mut store), 0);
}

#[test]
fn pin_and_unpin_change_one_flag() {
    let mut store = filled();
    pin_item_by_id(&mut store, 1);
    assert!(get_item_by_id(&store, 1).unwrap().pinned);
    assert!(!get_item_by_id(&store, 2).unwrap().pinned);
    assert!(get_item_by_id(&store, 3).unwrap().pinned);
    assert_eq!(get_item_by_id(&store, 1).unwrap().content, "one");
    unpin_item_by_id(&mut store, 3);
    assert!(get_item_by_id(&store, 1).unwrap().pinned);
    assert!(!get_item_by_id(&store, 3).unwrap().pinned);
    pin_item_by_id(&mut store, 77);
    unpin_item_by_id(&mut store, 77);
    assert_eq!(get_all_ids(&store), vec![3, 2, 1]);
}

#[test]
fn pin_then_unpin_all_leaves_nothing_pinned() {
    let mut store = filled();
    pin_item_by_id(&mut store, 2);
    assert_eq!(unpin_all_items(&mut store), 3);
    for id in get_all_ids(&store) {
        assert!(!get_item_by_id(&store, id).unwrap().pinned);
    }
    assert_eq!(get_item_by_id(&store, 2).unwrap().content, "https://example.com");
}

#[test]
fn unpin_all_items_counts_every_entry() {
    let mut store = EntryStore::new();
    assert_eq!(unpin_all_items(&mut store), 0);
    insert_clipboard_entry(&mut store, "text", "one", 0, "2024-05-01 10:00:00").unwrap();
    insert_clipboard_entry(&mut store, "text", "two", 0, "2024-05-01 10:00:01").unwrap();
    assert_eq!(unpin_all_items(&mut store), 2);
}

#[test]
fn toggle_pin_sets_the_given_state() {
    let mut store = filled();
    assert!(toggle_pin(&mut store, 1, true));
    assert!(get_item_by_id(&store, 1).unwrap().pinned);
    assert!(toggle_pin(&mut store, 1, false));
    assert!(!get_item_by_id(&store, 1).unwrap().pinned);
    assert!(toggle_pin(&mut store, 99, true));
}

#[test]
fn unpin_all_tells_whether_there_are_entries() {
    let mut store = EntryStore::new();
    assert!(!unpin_all(&mut store));
    let mut store = filled();
    assert!(unpin_all(&mut store));
    assert!(!get_item_by_id(&store, 3).unwrap().pinned);
}

#[test]
fn set_forced_language_annotates_one_entry() {
    let mut store = filled();
    assert!(set_forced_language(&mut store, 2, "rust"));
    assert_eq!(get_item_by_id(&store, 2).unwrap().forced_language, Some("rust".to_string()));
    assert_eq!(get_item_by_id(&store, 1).unwrap().forced_language, None);
    assert!(set_forced_language(&mut store, 2, "python"));
    assert_eq!(get_item_by_id(&store, 2).unwrap().forced_language, Some("python".to_string()));
    assert_eq!(get_item_by_id(&store, 2).unwrap().content, "https://example.com");
}

#[test]
fn set_forced_language_reports_an_unknown_id() {
    let mut store = filled();
    assert!(!set_forced_language(&mut store, 8, "rust"));
    assert_eq!(get_all_ids(&store), vec![3, 2, 1]);
    assert_eq!(get_item_by_id(&store, 1).unwrap().forced_language, None);
}

#[test]
fn restore_takes_well_formed_rows() {
    let rows = vec![
        row(2, "text", "two", "2024-05-01 10:00:00"),
        row(5, "text", "five", "2024-05-01 11:00:00"),
    ];
    let mut store = EntryStore::restore(rows, 7).unwrap();
    assert_eq!(get_all_ids(&store), vec![5, 2]);
    let id = insert_clipboard_entry(&mut store, "text", "next", 0, "2024-05-01 12:00:00");
    assert_eq!(id, Ok(8));
}

#[test]
fn restore_refuses_rows_out_of_order() {
    let at = "2024-05-01 10:00:00";
    assert!(EntryStore::restore(vec![row(2, "text", "a", at), row(2, "text", "b", at)], 7).is_none());
    assert!(EntryStore::restore(vec![row(3, "text", "a", at), row(2, "text", "b", at)], 7).is_none());
    assert!(EntryStore::restore(vec![row(0, "text", "a", at)], 7).is_none());
    assert!(EntryStore::restore(vec![row(-4, "text", "a", at), row(1, "text", "b", at)], 7).is_none());
    assert!(EntryStore::restore(vec![row(7, "text", "a", at)], 7).is_some());
    assert!(EntryStore::restore(Vec::new(), 0).is_some());
}

#[test]
fn restore_issues_above_the_highest_identifier_known() {
    let at = "2024-05-01 10:00:00";
    let mut store = EntryStore::restore(vec![row(8, "text", "a", at)], 7).unwrap();
    assert_eq!(insert_clipboard_entry(&mut store, "text", "b", 0, at), Ok(9));
    let mut store = EntryStore::restore(vec![row(3, "text", "a", at)], 7).unwrap();
    assert_eq!(insert_clipboard_entry(&mut store, "text", "b", 0, at), Ok(8));
    let mut store = EntryStore::restore(Vec::new(), -5).unwrap();
    assert_eq!(insert_clipboard_entry(&mut store, "text", "b", 0, at), Ok(1));
    let mut store = EntryStore::restore(vec![row(i64::MAX, "text", "a", at)], 0).unwrap();
    assert_eq!(
        insert_clipboard_entry(&mut store, "text", "b", 0, at),
        Err(StoreError::IdentifiersExhausted)
    );
}

#[test]
fn a_row_is_pinned_unless_its_number_is_zero() {
    let at = "2024-05-01 10:00:00".to_string();
    let language = Some("rust".to_string());
    let entry = ClipboardEntry::from_row(4, "url".to_string(), "x".to_string(), at, 1, language);
    assert_eq!(entry.id, 4);
    assert_eq!(entry.entry_type, "url");
    assert_eq!(entry.content, "x");
    assert_eq!(entry.added_at, "2024-05-01 10:00:00");
    assert!(entry.pinned);
    assert_eq!(entry.forced_language, Some("rust".to_string()));
    assert_eq!(entry.pinned_number(), 1);
    assert!(row(1, "text", "a", "t").pinned_number() == 0);
    let odd = ClipboardEntry::from_row(1, String::new(), String::new(), String::new(), -3, None);
    assert!(odd.pinned);
    assert_eq!(odd.pinned_number(), 1);
}
