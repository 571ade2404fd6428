//! Entry operations on the tables of a [`Database`], each addressed by a [`TableId`].
//! An operation on a table that does not exist fails with `StoreError::Io` and
//! changes nothing.
use vstd::prelude::*;

use super::table::{
    entry_result_view, insert_run, rows_of, spec_delete, spec_get, spec_insert, spec_update,
    spec_upsert, ComEntry, Row, StoreError, Table, TableView,
};
use super::{no_such_table, Database, TableId};

verus! {

/// Creates table `id` with the given policy if it does not exist; idempotent.
pub fn create(db: &mut Database, id: TableId, unique_data: bool) -> (r: Result<(), StoreError>)
    requires
        old(db).wf(),
    ensures
        final(db).wf(),
        r is Ok,
        final(db).same_except(old(db), id),
        final(db).table(id) == match old(db).table(id) {
            Some(t) => Some(t),
            None => Some(TableView { unique_data, rows: Seq::empty() }),
        },
{
    match db.take(id) {
        Some(t) => db.put(id, Some(t)),
        None => db.put(id, Some(Table::new(unique_data))),
    }
    Ok(())
}

/// Creates table `id`, with only uuids unique, if it does not exist.
pub fn new(db: &mut Database, id: TableId) -> (r: Result<(), StoreError>)
    requires
        old(db).wf(),
    ensures
        final(db).wf(),
        r is Ok,
        final(db).same_except(old(db), id),
        final(db).table(id) == match old(db).table(id) {
            Some(t) => Some(t),
            None => Some(TableView { unique_data: false, rows: Seq::empty() }),
        },
{
    create(db, id, false)
}

/// Creates table `id`, with uuids and data unique, if it does not exist.
pub fn new_with_unique(db: &mut Database, id: TableId) -> (r: Result<(), StoreError>)
    requires
        old(db).wf(),
    ensures
        final(db).wf(),
        r is Ok,
        final(db).same_except(old(db), id),
        final(db).table(id) == match old(db).table(id) {
            Some(t) => Some(t),
            None => Some(TableView { unique_data: true, rows: Seq::empty() }),
        },
{
    create(db, id, true)
}

/// Inserts `(uuid, data)`; a taken uuid, or taken data under the uniqueness
/// policy, is a constraint violation.
pub fn insert(db: &mut Database, id: TableId, uuid: &str, data: &str) -> (r: Result<(), StoreError>)
    requires
        old(db).wf(),
    ensures
        final(db).wf(),
        final(db).same_except(old(db), id),
        match old(db).table(id) {
            Some(t) => final(db).table(id) == Some(spec_insert(t, uuid@, data@).0) && r == spec_insert(
                t,
                uuid@,
                data@,
            ).1,
            None => final(db).table(id) is None && r matches Err(StoreError::Io(_)),
        },
{
    match db.take(id) {
        Some(mut t) => {
            let r = t.insert(uuid, data);
            db.put(id, Some(t));
            r
        },
        None => Err(no_such_table()),
    }
}

/// Inserts `entries` in order and stops at the first conflict; returns how many
/// went in and, if one did not, its error.
pub fn insert_all(db: &mut Database, id: TableId, entries: Vec<ComEntry>) -> (r: (
    usize,
    Result<(), StoreError>,
))
    requires
        old(db).wf(),
    ensures
        final(db).wf(),
        final(db).same_except(old(db), id),
        match old(db).table(id) {
            Some(t) => {
                &&& r.0 as nat == insert_run(t, rows_of(entries@))
                &&& final(db).table(id) == Some(
                    t.with_rows(t.rows + rows_of(entries@).take(r.0 as int)),
                )
                &&& r.0 == entries.len() ==> r.1 is Ok
                &&& r.0 < entries.len() ==> r.1 == Err::<(), StoreError>(
                    StoreError::ConstraintViolation,
                )
            },
            None => r.0 == 0 && final(db).table(id) is None && r.1 matches Err(StoreError::Io(_)),
        },
{
    match db.take(id) {
        Some(mut t) => {
            let r = t.insert_all(entries);
            db.put(id, Some(t));
            r
        },
        None => (0, Err(no_such_table())),
    }
}

/// Replaces the data under `uuid`; a missing uuid is `NotFound`.
pub fn update(db: &mut Database, id: TableId, uuid: &str, data: &str) -> (r: Result<(), StoreError>)
    requires
        old(db).wf(),
    ensures
        final(db).wf(),
        final(db).same_except(old(db), id),
        match old(db).table(id) {
            Some(t) => final(db).table(id) == Some(spec_update(t, uuid@, data@).0) && r == spec_update(
                t,
                uuid@,
                data@,
            ).1,
            None => final(db).table(id) is None && r matches Err(StoreError::Io(_)),
        },
{
    match db.take(id) {
        Some(mut t) => {
            let r = t.update(uuid, data);
            db.put(id, Some(t));
            r
        },
        None => Err(no_such_table()),
    }
}

/// Updates the row under `uuid` if it exists, else inserts it, as one step.
pub fn upsert(db: &mut Database, id: TableId, uuid: &str, data: &str) -> (r: Result<(), StoreError>)
    requires
        old(db).wf(),
    ensures
        final(db).wf(),
        final(db).same_except(old(db), id),
        match old(db).table(id) {
            Some(t) => final(db).table(id) == Some(spec_upsert(t, uuid@, data@).0) && r == spec_upsert(
                t,
                uuid@,
                data@,
            ).1,
            None => final(db).table(id) is None && r matches Err(StoreError::Io(_)),
        },
{
    match db.take(id) {
        Some(mut t) => {
            let r = t.upsert(uuid, data);
            db.put(id, Some(t));
            r
        },
        None => Err(no_such_table()),
    }
}

/// Removes the row under `uuid`; an absent uuid is no error.
pub fn delete(db: &mut Database, id: TableId, uuid: &str) -> (r: Result<(), StoreError>)
    requires
        old(db).wf(),
    ensures
        final(db).wf(),
        final(db).same_except(old(db), id),
        match old(db).table(id) {
            Some(t) => final(db).table(id) == Some(spec_delete(t, uuid@)) && r is Ok,
            None => final(db).table(id) is None && r matches Err(StoreError::Io(_)),
        },
{
    match db.take(id) {
        Some(mut t) => {
            t.delete(uuid);
            db.put(id, Some(t));
            Ok(())
        },
        None => Err(no_such_table()),
    }
}

/// Removes every row of the table.
pub fn delete_all(db: &mut Database, id: TableId) -> (r: Result<(), StoreError>)
    requires
        old(db).wf(),
    ensures
        final(db).wf(),
        final(db).same_except(old(db), id),
        match old(db).table(id) {
            Some(t) => final(db).table(id) == Some(t.with_rows(Seq::empty())) && r is Ok,
            None => final(db).table(id) is None && r matches Err(StoreError::Io(_)),
        },
{
    match db.take(id) {
        Some(mut t) => {
            t.delete_all();
            db.put(id, Some(t));
            Ok(())
        },
        None => Err(no_such_table()),
    }
}

/// The entry under `uuid`, or `NotFound`.
pub fn select(db: &Database, id: TableId, uuid: &str) -> (r: Result<ComEntry, StoreError>)
    requires
        db.wf(),
    ensures
        match db.table(id) {
            Some(t) => entry_result_view(r) == spec_get(t, uuid@),
            None => r matches Err(StoreError::Io(_)),
        },
{
    match db.get(id) {
        Some(t) => t.select(uuid),
        None => Err(no_such_table()),
    }
}

/// Every entry of the table, in insertion order.
pub fn select_all(db: &Database, id: TableId) -> (r: Result<Vec<ComEntry>, StoreError>)
    requires
        db.wf(),
    ensures
        match db.table(id) {
            Some(t) => r matches Ok(v) && rows_of(v@) == t.rows,
            None => r matches Err(StoreError::Io(_)),
        },
{
    match db.get(id) {
        Some(t) => Ok(t.select_all()),
        None => Err(no_such_table()),
    }
}

/// Whether `select` of `uuid` would succeed.
pub fn is_exist(db: &Database, id: TableId, uuid: &str) -> (r: bool)
    requires
        db.wf(),
    ensures
        r == (match db.table(id) {
            Some(t) => spec_get(t, uuid@) is Ok,
            None => false,
        }),
{
    select(db, id, uuid).is_ok()
}

} // verus!
