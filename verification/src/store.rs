//! The table content reader and the store collaborator's surface: table
//! listing, raw-byte table reading with a non-fatal fallback row, and the
//! statistics snapshot. Every call into the storage engine stands behind a
//! trusted item; the rendering of what comes back is verified.

use redb::ReadableDatabase;
use vstd::prelude::*;

verus! {

use crate::interpret::interp;
use crate::interpret::interpret;
use vstd::string::*;

#[verifier::external_type_specification]
#[verifier::external_body]
pub struct ExDatabase(redb::Database);

#[verifier::external_type_specification]
#[verifier::external_body]
pub struct ExReadTransaction(redb::ReadTransaction);

#[verifier::external_type_specification]
#[verifier::external_body]
pub struct ExTransactionError(redb::TransactionError);

#[verifier::external_type_specification]
#[verifier::external_body]
pub struct ExStorageError(redb::StorageError);

#[verifier::external_type_specification]
#[verifier::external_body]
pub struct ExTableError(redb::TableError);

/// The library's own error kinds, one per failure of the storage engine or
/// of the surrounding session.
#[derive(Debug, Clone, Copy, PartialEq, Eq, Structural)]
pub enum AppError {
    DatabaseError,
    StorageError,
    TransactionError,
    TableError,
    CommitError,
    IoError,
}

/// Properties of the open store that are fixed for the session.
#[derive(Debug, Clone, Copy, PartialEq, Eq, Structural)]
pub struct DbProperties {
    pub file_size: u64,
    pub num_tables: usize,
}

/// A point-in-time snapshot of the store's statistics, re-read on every
/// render frame.
#[derive(Debug, Clone, Copy, PartialEq, Eq, Structural)]
pub struct DbStats {
    pub tree_height: u32,
    pub allocated_pages: u64,
    pub stored_bytes: u64,
    pub metadata_bytes: u64,
    pub fragmented_bytes: u64,
}

/// Relies on redb::Database::begin_read: it opens a read-only view over the
/// store, or fails with a transaction error.
#[verifier::external_body]
fn begin_read(db: &redb::Database) -> (r: Result<redb::ReadTransaction, redb::TransactionError>) {
    db.begin_read()
}

/// True when no two of the names are the same string.
pub open spec fn distinct_names(names: Seq<String>) -> bool {
    forall|i: int, j: int|
        0 <= i < j < names.len() ==> (#[trigger] names[i])@ != (#[trigger] names[j])@
}

/// True when none of the names is the empty string.
pub open spec fn nonempty_names(names: Seq<String>) -> bool {
    forall|i: int| 0 <= i < names.len() ==> (#[trigger] names[i])@.len() > 0
}

/// Relies on redb::ReadTransaction::list_tables and
/// redb::UntypedTableHandle::name: the names of all tables of the view, in
/// the order the engine's listing yields them. The engine keeps one master
/// entry per table name, and every creation path rejects an empty name, so
/// the listed names are pairwise distinct and non-empty.
#[verifier::external_body]
fn list_table_names(txn: &redb::ReadTransaction) -> (r: Result<
    Vec<String>,
    redb::StorageError,
>)
    ensures
        r matches Ok(names) ==> distinct_names(names@) && nonempty_names(names@),
{
    match txn.list_tables() {
        Ok(tables) => Ok(tables.map(|t| redb::TableHandle::name(&t).to_string()).collect()),
        Err(e) => Err(e),
    }
}

/// True when byte sequence `a` orders strictly before `b` in the usual
/// lexicographic order: at the first differing position the smaller byte
/// wins, and a proper prefix comes first.
pub open spec fn lex_lt(a: Seq<u8>, b: Seq<u8>) -> bool
    decreases a.len(),
{
    if b.len() == 0 {
        false
    } else if a.len() == 0 {
        true
    } else if a[0] < b[0] {
        true
    } else if a[0] > b[0] {
        false
    } else {
        lex_lt(a.drop_first(), b.drop_first())
    }
}

/// Relies on redb::ReadTransaction::open_table with a raw `&[u8]`/`&[u8]`
/// table descriptor, and on redb::ReadableTable::iter: the named table's
/// entries as raw key and value bytes, in the table's native key order —
/// byte keys compare lexicographically and the tree iterates them
/// ascending, so the keys come strictly increasing. Opening fails when the
/// table does not exist or its stored descriptor does not match the raw
/// one. The descriptor's constructor panics on an empty name, so the name
/// must be non-empty.
#[verifier::external_body]
fn read_raw_entries(txn: &redb::ReadTransaction, name: &str) -> (r: Result<
    Vec<(Vec<u8>, Vec<u8>)>,
    redb::TableError,
>)
    requires
        name@.len() > 0,
    ensures
        r matches Ok(entries) ==> forall|i: int, j: int|
            0 <= i < j < entries@.len() ==> lex_lt(
                (#[trigger] entries@[i]).0@,
                (#[trigger] entries@[j]).0@,
            ),
{
    let def: redb::TableDefinition<&[u8], &[u8]> = redb::TableDefinition::new(name);
    let table = txn.open_table(def)?;
    let mut out: Vec<(Vec<u8>, Vec<u8>)> = Vec::new();
    for entry in redb::ReadableTable::iter(&table)? {
        let (k, v) = entry?;
        out.push((k.value().to_vec(), v.value().to_vec()));
    }
    Ok(out)
}

/// Relies on redb::Database::begin_write and redb::WriteTransaction::stats:
/// the live statistics snapshot of the store, or nothing when either call
/// fails.
#[verifier::external_body]
pub fn get_database_stats(db: &redb::Database) -> (r: Option<DbStats>) {
    let txn = db.begin_write().ok()?;
    let stats = txn.stats().ok()?;
    Some(DbStats {
        tree_height: stats.tree_height(),
        allocated_pages: stats.allocated_pages(),
        stored_bytes: stats.stored_bytes(),
        metadata_bytes: stats.metadata_bytes(),
        fragmented_bytes: stats.fragmented_bytes(),
    })
}

/// Lists the tables stored in the database, in the engine's listing order.
/// The listed names are pairwise distinct and non-empty; beyond that they
/// are whatever the engine's listing yields at this instant. Failure names
/// the step that failed.
pub fn get_table_names(db: &redb::Database) -> (r: Result<Vec<String>, AppError>)
    ensures
        r matches Ok(names) ==> distinct_names(names@) && nonempty_names(names@),
        r is Err ==> r->Err_0 == AppError::TransactionError || r->Err_0 == AppError::StorageError,
{
    match begin_read(db) {
        Err(_) => Err(AppError::TransactionError),
        Ok(txn) => match list_table_names(&txn) {
            Err(_) => Err(AppError::StorageError),
            Ok(names) => Ok(names),
        },
    }
}

/// The sentinel key of the fallback content row.
pub open spec fn fallback_key() -> Seq<char> {
    "Error"@
}

/// The sentinel value of the fallback content row.
pub open spec fn fallback_value() -> Seq<char> {
    "Table could not be read"@
}

/// True of a content snapshot that is exactly the single fallback row.
pub open spec fn is_fallback_content(rows: Seq<(String, String)>) -> bool {
    rows.len() == 1 && rows[0].0@ == fallback_key() && rows[0].1@ == fallback_value()
}

/// True when the rows are, pair for pair and in order, the renderings of
/// the given raw entries.
pub open spec fn renders_entries(
    rows: Seq<(String, String)>,
    entries: Seq<(Seq<u8>, Seq<u8>)>,
) -> bool {
    &&& rows.len() == entries.len()
    &&& forall|i: int|
        0 <= i < rows.len() ==> (#[trigger] rows[i]).0@ == interp(entries[i].0) && rows[i].1@
            == interp(entries[i].1)
}

/// True when the entries' keys come strictly increasing in lexicographic
/// byte order.
pub open spec fn ascending_keys(entries: Seq<(Seq<u8>, Seq<u8>)>) -> bool {
    forall|i: int, j: int|
        0 <= i < j < entries.len() ==> lex_lt((#[trigger] entries[i]).0, (#[trigger] entries[j]).0)
}

/// True of a content snapshot that renders some sequence of raw entries
/// whose keys ascend: one rendered pair per entry, in the table's native
/// key order.
pub open spec fn is_sorted_rendering(rows: Seq<(String, String)>) -> bool {
    exists|entries: Seq<(Seq<u8>, Seq<u8>)>|
        #[trigger] renders_entries(rows, entries) && ascending_keys(entries)
}

/// True of every content snapshot a table read can produce: the fallback
/// row, or one rendered pair per entry in ascending key order.
pub open spec fn is_read_outcome(rows: Seq<(String, String)>) -> bool {
    is_fallback_content(rows) || is_sorted_rendering(rows)
}

/// The single-row content that signals a failed table read.
pub fn fallback_content() -> (r: Vec<(String, String)>)
    ensures
        is_fallback_content(r@),
{
    let mut r: Vec<(String, String)> = Vec::new();
    r.push((String::from_str("Error"), String::from_str("Table could not be read")));
    r
}

/// Renders raw table entries: one rendered pair per entry, each raw key and
/// each raw value put independently through the byte interpreter.
pub fn render_entries(entries: &Vec<(Vec<u8>, Vec<u8>)>) -> (r: Vec<(String, String)>)
    ensures
        r@.len() == entries@.len(),
        forall|i: int|
            0 <= i < entries@.len() ==> (#[trigger] r@[i]).0@ == interp(entries@[i].0@)
                && r@[i].1@ == interp(entries@[i].1@),
{
    let mut r: Vec<(String, String)> = Vec::new();
    let mut idx: usize = 0;
    while idx < entries.len()
        invariant
            idx <= entries@.len(),
            r@.len() == idx,
            forall|i: int|
                0 <= i < idx ==> (#[trigger] r@[i]).0@ == interp(entries@[i].0@) && r@[i].1@
                    == interp(entries@[i].1@),
        decreases entries@.len() - idx,
    {
        let key_rendering = interpret(entries[idx].0.as_slice());
        let value_rendering = interpret(entries[idx].1.as_slice());
        r.push((key_rendering, value_rendering));
        idx = idx + 1;
    }
    r
}

/// Reads the named table's content through the raw byte descriptor and
/// renders every entry; any failure along the way, an empty table name
/// included, is recovered locally as the fallback row, never an error to
/// the caller.
pub fn read_table(db: &redb::Database, name: &str) -> (r: Vec<(String, String)>)
    ensures
        is_read_outcome(r@),
        name@.len() == 0 ==> is_fallback_content(r@),
{
    if name.is_empty() {
        return fallback_content();
    }
    match begin_read(db) {
        Err(_) => fallback_content(),
        Ok(txn) => match read_raw_entries(&txn, name) {
            Err(_) => fallback_content(),
            Ok(entries) => {
                let r = render_entries(&entries);
                proof {
                    let es = Seq::new(
                        entries@.len(),
                        |i: int| (entries@[i].0@, entries@[i].1@),
                    );
                    assert forall|i: int| 0 <= i < r@.len() implies (#[trigger] r@[i]).0@
                        == interp(es[i].0) && r@[i].1@ == interp(es[i].1) by {
                        assert(r@[i].0@ == interp(entries@[i].0@));
                        assert(r@[i].1@ == interp(entries@[i].1@));
                    }
                    assert(renders_entries(r@, es));
                    assert forall|i: int, j: int| 0 <= i < j < es.len() implies lex_lt(
                        (#[trigger] es[i]).0,
                        (#[trigger] es[j]).0,
                    ) by {
                        assert(lex_lt(entries@[i].0@, entries@[j].0@));
                    }
                    assert(ascending_keys(es));
                    assert(is_sorted_rendering(r@));
                }
                r
            },
        },
    }
}

} // verus!
