use tacticlip::schema::{
    add_column_statement, create_table_statement, expected_columns, missing_columns, ColumnSpec,
};

fn names(columns: &[ColumnSpec]) -> Vec<&'static str> {
    columns.iter().map(|column| column.name).collect()
}

fn owned(names: &[&str]) -> Vec<String> {
    names.iter().map(|name| name.to_string()).collect()
}

#[test]
fn the_table_has_five_columns_besides_the_identifier() {
    let columns = expected_columns();
    assert_eq!(names(&columns), vec!["type", "content", "added_at", "pinned", "forced_language"]);
    assert_eq!(columns[0].declaration, "TEXT NOT NULL");
    assert_eq!(columns[2].declaration, "TIMESTAMP DEFAULT CURRENT_TIMESTAMP");
    assert_eq!(columns[3].declaration, "INTEGER NOT NULL DEFAULT 0");
    assert_eq!(columns[4].declaration, "TEXT DEFAULT NULL");
}

#[test]
fn a_complete_table_lacks_nothing() {
    let existing = owned(&["id", "type", "content", "added_at", "pinned", "forced_language"]);
    assert!(missing_columns(&existing).is_empty());
}

#[test]
fn an_older_table_lacks_the_later_columns() {
    let existing = owned(&["id", "type", "content", "added_at"]);
    assert_eq!(names(&missing_columns(&existing)), vec!["pinned", "forced_language"]);
    let existing = owned(&["id", "content", "pinned"]);
    assert_eq!(names(&missing_columns(&existing)), vec!["type", "added_at", "forced_language"]);
}

#[test]
fn an_empty_table_lacks_every_column() {
    assert_eq!(missing_columns(&Vec::new()).len(), 5);
}

#[test]
fn column_names_are_compared_exactly() {
    let existing = owned(&["Type", "content ", "pinned_at"]);
    assert_eq!(missing_columns(&existing).len(), 5);
}

#[test]
fn a_second_migration_adds_nothing() {
    let mut existing = owned(&["id", "type", "extra"]);
    let before = existing.clone();
    for column in missing_columns(&existing) {
        existing.push(column.name.to_string());
    }
    assert_eq!(
        existing,
        owned(&["id", "type", "extra", "content", "added_at", "pinned", "forced_language"])
    );
    assert_eq!(&existing[..before.len()], &before[..]);
    assert!(missing_columns(&existing).is_empty());
}

#[test]
fn the_statements_name_the_entry_table() {
    assert!(create_table_statement().starts_with("CREATE TABLE IF NOT EXISTS clipboard_entries ("));
    assert!(create_table_statement().contains("id INTEGER PRIMARY KEY AUTOINCREMENT"));
    let column = ColumnSpec { name: "pinned", declaration: "INTEGER NOT NULL DEFAULT 0" };
    assert_eq!(
        add_column_statement(&column),
        "ALTER TABLE clipboard_entries ADD COLUMN pinned INTEGER NOT NULL DEFAULT 0"
    );
}
