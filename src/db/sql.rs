//! SQL statements of the relational backend, one table per [`TableId`], with
//! columns `(id, uuid, data)`.
use vstd::prelude::*;
use vstd::string::*;

use super::table::StoreError;
use super::{table_name, TableId};

verus! {

/// `CREATE TABLE IF NOT EXISTS` for a table; `data` is `UNIQUE` when `unique_data`.
pub open spec fn create_table_text(name: Seq<char>, unique_data: bool) -> Seq<char> {
    "CREATE TABLE IF NOT EXISTS "@ + name
        + " (id INTEGER PRIMARY KEY, uuid TEXT NOT NULL UNIQUE, data TEXT NOT NULL"@ + (
    if unique_data {
        " UNIQUE)"@
    } else {
        ")"@
    })
}

/// Creates table `id` if it is absent, with its uniqueness policy.
pub fn create_table(id: TableId, unique_data: bool) -> (r: String)
    ensures
        r@ == create_table_text(table_name(id), unique_data),
{
    let mut s = String::from_str("CREATE TABLE IF NOT EXISTS ");
    s.append(id.name());
    s.append(" (id INTEGER PRIMARY KEY, uuid TEXT NOT NULL UNIQUE, data TEXT NOT NULL");
    if unique_data {
        s.append(" UNIQUE)");
    } else {
        s.append(")");
    }
    s
}

/// `prefix`, the table's name, then `suffix`.
fn around_name(prefix: &str, id: TableId, suffix: &str) -> (r: String)
    ensures
        r@ == prefix@ + table_name(id) + suffix@,
{
    let mut s = String::from_str(prefix);
    s.append(id.name());
    s.append(suffix);
    s
}

/// Inserts one row; binds `uuid`, then `data`.
pub fn insert(id: TableId) -> (r: String)
    ensures
        r@ == "INSERT INTO "@ + table_name(id) + " (uuid, data) VALUES (?, ?)"@,
{
    around_name("INSERT INTO ", id, " (uuid, data) VALUES (?, ?)")
}

/// Replaces the data of one row; binds `data`, then `uuid`.
pub fn update(id: TableId) -> (r: String)
    ensures
        r@ == "UPDATE "@ + table_name(id) + " SET data=? WHERE uuid=?"@,
{
    around_name("UPDATE ", id, " SET data=? WHERE uuid=?")
}

/// Inserts a row or, when its uuid is taken, replaces its data in the same
/// statement; binds `uuid`, then `data`.
pub fn upsert(id: TableId) -> (r: String)
    ensures
        r@ == "INSERT INTO "@ + table_name(id)
            + " (uuid, data) VALUES (?, ?) ON CONFLICT(uuid) DO UPDATE SET data=excluded.data"@,
{
    around_name(
        "INSERT INTO ",
        id,
        " (uuid, data) VALUES (?, ?) ON CONFLICT(uuid) DO UPDATE SET data=excluded.data",
    )
}

/// Deletes one row; binds `uuid`.
pub fn delete(id: TableId) -> (r: String)
    ensures
        r@ == "DELETE FROM "@ + table_name(id) + " WHERE uuid=?"@,
{
    around_name("DELETE FROM ", id, " WHERE uuid=?")
}

/// Deletes every row.
pub fn delete_all(id: TableId) -> (r: String)
    ensures
        r@ == "DELETE FROM "@ + table_name(id),
{
    proof {
        reveal_strlit("");
    }
    let r = around_name("DELETE FROM ", id, "");
    assert(r@ =~= "DELETE FROM "@ + table_name(id));
    r
}

/// Selects one row; binds `uuid`.
pub fn select(id: TableId) -> (r: String)
    ensures
        r@ == "SELECT uuid, data FROM "@ + table_name(id) + " WHERE uuid=?"@,
{
    around_name("SELECT uuid, data FROM ", id, " WHERE uuid=?")
}

/// Selects every row in insertion order.
pub fn select_all(id: TableId) -> (r: String)
    ensures
        r@ == "SELECT uuid, data FROM "@ + table_name(id) + " ORDER BY id"@,
{
    around_name("SELECT uuid, data FROM ", id, " ORDER BY id")
}

/// Finds the table in the catalogue; binds the table's name.
pub fn table_exists() -> (r: &'static str)
    ensures
        r@ == "SELECT name FROM sqlite_master WHERE type='table' AND name=?"@,
{
    "SELECT name FROM sqlite_master WHERE type='table' AND name=?"
}

/// Drops the table.
pub fn drop_table(id: TableId) -> (r: String)
    ensures
        r@ == "DROP TABLE "@ + table_name(id),
{
    proof {
        reveal_strlit("");
    }
    let r = around_name("DROP TABLE ", id, "");
    assert(r@ =~= "DROP TABLE "@ + table_name(id));
    r
}


/// How a statement failed on the backend.
pub enum BackendFailure {
    /// A query for one row found none.
    RowNotFound,
    /// A `UNIQUE` constraint refused the write.
    UniqueViolation,
    /// Anything else, with the backend's message.
    Other(String),
}

/// The store error for a backend failure.
pub fn store_error(f: BackendFailure) -> (r: StoreError)
    ensures
        r == match f {
            BackendFailure::RowNotFound => StoreError::NotFound,
            BackendFailure::UniqueViolation => StoreError::ConstraintViolation,
            BackendFailure::Other(m) => StoreError::Io(m),
        },
{
    match f {
        BackendFailure::RowNotFound => StoreError::NotFound,
        BackendFailure::UniqueViolation => StoreError::ConstraintViolation,
        BackendFailure::Other(m) => StoreError::Io(m),
    }
}

/// The result of an `UPDATE` that changed `rows_affected` rows: none changed
/// means no row has the uuid.
pub fn update_result(rows_affected: u64) -> (r: Result<(), StoreError>)
    ensures
        rows_affected == 0 ==> r == Err::<(), StoreError>(StoreError::NotFound),
        rows_affected > 0 ==> r is Ok,
{
    if rows_affected == 0 {
        Err(StoreError::NotFound)
    } else {
        Ok(())
    }
}

} // verus!
