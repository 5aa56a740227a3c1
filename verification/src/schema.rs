//! The layout of the table that backs the entry log, and the additive
//! migration that brings an older table up to it.

use vstd::prelude::*;
use vstd::string::*;
use crate::text::same_text;

verus! {

/// A column of the entry table: its name and the rest of its definition.
#[derive(Clone, Copy, Debug)]
pub struct ColumnSpec {
    pub name: &'static str,
    pub declaration: &'static str,
}

/// The mathematical value of a `ColumnSpec`.
pub ghost struct ColumnView {
    pub name: Seq<char>,
    pub declaration: Seq<char>,
}

impl View for ColumnSpec {
    type V = ColumnView;

    open spec fn view(&self) -> ColumnView {
        ColumnView { name: self.name@, declaration: self.declaration@ }
    }
}

/// The values of a run of columns.
pub open spec fn column_views(columns: Seq<ColumnSpec>) -> Seq<ColumnView> {
    columns.map_values(|c: ColumnSpec| c@)
}

/// The values of a run of names.
pub open spec fn name_views(names: Seq<String>) -> Seq<Seq<char>> {
    names.map_values(|n: String| n@)
}

/// The columns that every entry table has besides its identifier, in the
/// order in which they are added.
pub open spec fn expected() -> Seq<ColumnView> {
    seq![
        ColumnView { name: "type"@, declaration: "TEXT NOT NULL"@ },
        ColumnView { name: "content"@, declaration: "TEXT NOT NULL"@ },
        ColumnView { name: "added_at"@, declaration: "TIMESTAMP DEFAULT CURRENT_TIMESTAMP"@ },
        ColumnView { name: "pinned"@, declaration: "INTEGER NOT NULL DEFAULT 0"@ },
        ColumnView { name: "forced_language"@, declaration: "TEXT DEFAULT NULL"@ },
    ]
}

/// The columns that every entry table has besides its identifier.
pub fn expected_columns() -> (columns: Vec<ColumnSpec>)
    ensures
        column_views(columns@) == expected(),
{
    let mut columns: Vec<ColumnSpec> = Vec::new();
    columns.push(ColumnSpec { name: "type", declaration: "TEXT NOT NULL" });
    columns.push(ColumnSpec { name: "content", declaration: "TEXT NOT NULL" });
    columns.push(
        ColumnSpec { name: "added_at", declaration: "TIMESTAMP DEFAULT CURRENT_TIMESTAMP" },
    );
    columns.push(ColumnSpec { name: "pinned", declaration: "INTEGER NOT NULL DEFAULT 0" });
    columns.push(ColumnSpec { name: "forced_language", declaration: "TEXT DEFAULT NULL" });
    assert(column_views(columns@) =~= expected());
    columns
}

/// The columns whose name is not among `existing`.
pub open spec fn absent_from(existing: Seq<Seq<char>>) -> spec_fn(ColumnView) -> bool {
    |c: ColumnView| !existing.contains(c.name)
}

/// The expected columns that a table with the columns `existing` lacks, in
/// the order in which they are added.
pub open spec fn missing(existing: Seq<Seq<char>>) -> Seq<ColumnView> {
    expected().filter(absent_from(existing))
}

/// The columns of a table with the columns `existing` after the migration:
/// what was there stays, in its order, and what was missing follows.
pub open spec fn migrated(existing: Seq<Seq<char>>) -> Seq<Seq<char>> {
    existing + missing(existing).map_values(|c: ColumnView| c.name)
}

/// Whether `name` is among `names`.
fn has_name(names: &Vec<String>, name: &str) -> (yes: bool)
    ensures
        yes == name_views(names@).contains(name@),
{
    let mut i: usize = 0;
    while i < names.len()
        invariant
            i <= names@.len(),
            forall|k: int| 0 <= k < i ==> name_views(names@)[k] != name@,
        decreases names@.len() - i,
    {
        if same_text(names[i].as_str(), name) {
            assert(name_views(names@)[i as int] == name@);
            return true;
        }
        i += 1;
    }
    false
}

/// The columns to add to a table that has the columns `existing`: each
/// expected column whose name is not among them, and no other.
pub fn missing_columns(existing: &Vec<String>) -> (columns: Vec<ColumnSpec>)
    ensures
        column_views(columns@) == missing(name_views(existing@)),
{
    let all = expected_columns();
    let ghost pred = absent_from(name_views(existing@));
    let mut columns: Vec<ColumnSpec> = Vec::new();
    let mut i: usize = 0;
    proof {
        reveal(Seq::filter);
        assert(expected().take(0) =~= Seq::empty());
        assert(column_views(columns@) =~= expected().take(0).filter(pred));
    }
    while i < all.len()
        invariant
            i <= all@.len(),
            column_views(all@) == expected(),
            pred == absent_from(name_views(existing@)),
            column_views(columns@) == expected().take(i as int).filter(pred),
        decreases all@.len() - i,
    {
        let column = all[i];
        proof {
            reveal(Seq::filter);
            let upto = expected().take(i as int + 1);
            assert(upto.drop_last() =~= expected().take(i as int));
            assert(upto.last() == column@) by {
                assert(column_views(all@)[i as int] == all@[i as int]@);
            }
        }
        if !has_name(existing, column.name) {
            columns.push(column);
            proof {
                assert(column_views(columns@) =~= expected().take(i as int).filter(pred).push(
                    column@,
                ));
            }
        }
        i += 1;
    }
    proof {
        assert(expected().take(all@.len() as int) =~= expected());
    }
    columns
}

/// The statement that creates the entry table where there is none.
pub fn create_table_statement() -> (statement: &'static str)
    ensures
        statement@ == "CREATE TABLE IF NOT EXISTS clipboard_entries (id INTEGER PRIMARY KEY AUTOINCREMENT, type TEXT NOT NULL, content TEXT NOT NULL, added_at TIMESTAMP DEFAULT CURRENT_TIMESTAMP, pinned INTEGER NOT NULL DEFAULT 0, forced_language TEXT DEFAULT NULL)"@,
{
    "CREATE TABLE IF NOT EXISTS clipboard_entries (id INTEGER PRIMARY KEY AUTOINCREMENT, type TEXT NOT NULL, content TEXT NOT NULL, added_at TIMESTAMP DEFAULT CURRENT_TIMESTAMP, pinned INTEGER NOT NULL DEFAULT 0, forced_language TEXT DEFAULT NULL)"
}

/// The statement that adds `column` to the entry table.
pub open spec fn add_column_text(column: ColumnView) -> Seq<char> {
    "ALTER TABLE clipboard_entries ADD COLUMN "@ + column.name + " "@ + column.declaration
}

/// Writes the statement that adds `column` to the entry table.
pub fn add_column_statement(column: &ColumnSpec) -> (statement: String)
    ensures
        statement@ == add_column_text(column@),
{
    String::from_str("ALTER TABLE clipboard_entries ADD COLUMN ").concat(column.name).concat(
        " ",
    ).concat(column.declaration)
}

/// A filter that no element passes leaves nothing.
proof fn lemma_filter_keeps_none(s: Seq<ColumnView>, pred: spec_fn(ColumnView) -> bool)
    requires
        forall|i: int| 0 <= i < s.len() ==> !pred(#[trigger] s[i]),
    ensures
        s.filter(pred) == Seq::<ColumnView>::empty(),
    decreases s.len(),
{
    reveal(Seq::filter);
    if s.len() > 0 {
        let rest = s.drop_last();
        assert forall|i: int| 0 <= i < rest.len() implies !pred(#[trigger] rest[i]) by {
            assert(rest[i] == s[i]);
        }
        lemma_filter_keeps_none(rest, pred);
    }
}

/// Every element of a sequence that passes a filter is in what the filter
/// leaves.
proof fn lemma_filter_keeps_passing(s: Seq<ColumnView>, pred: spec_fn(ColumnView) -> bool, i: int)
    requires
        0 <= i < s.len(),
        pred(s[i]),
    ensures
        s.filter(pred).contains(s[i]),
    decreases s.len(),
{
    reveal(Seq::filter);
    let rest = s.drop_last();
    if i == s.len() - 1 {
        let kept = rest.filter(pred).push(s.last());
        assert(kept[kept.len() - 1] == s[i]);
    } else {
        assert(rest[i] == s[i]);
        lemma_filter_keeps_passing(rest, pred, i);
        let k = choose|k: int| 0 <= k < rest.filter(pred).len() && rest.filter(pred)[k] == s[i];
        if pred(s.last()) {
            assert(rest.filter(pred).push(s.last())[k] == s[i]);
        }
    }
}

/// The migration is idempotent and loses nothing: a migrated table lacks no
/// column, so that a second migration adds none, and the columns that were
/// there before the migration are still there, in their order.
pub proof fn lemma_migration_is_idempotent(existing: Seq<Seq<char>>)
    ensures
        missing(migrated(existing)) == Seq::<ColumnView>::empty(),
        migrated(migrated(existing)) == migrated(existing),
        migrated(existing).take(existing.len() as int) == existing,
{
    let after = migrated(existing);
    let added = missing(existing).map_values(|c: ColumnView| c.name);
    assert forall|i: int| 0 <= i < expected().len() implies !absent_from(after)(
        #[trigger] expected()[i],
    ) by {
        let column = expected()[i];
        if existing.contains(column.name) {
            let k = choose|k: int| 0 <= k < existing.len() && existing[k] == column.name;
            assert(after[k] == column.name);
        } else {
            lemma_filter_keeps_passing(expected(), absent_from(existing), i);
            let k = choose|k: int|
                0 <= k < missing(existing).len() && missing(existing)[k] == column;
            assert(added[k] == column.name);
            assert(after[existing.len() + k] == column.name);
        }
    }
    lemma_filter_keeps_none(expected(), absent_from(after));
    assert(migrated(after) =~= after);
    assert(after.take(existing.len() as int) =~= existing);
}

} // verus!
