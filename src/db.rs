//! The entry store: a fixed set of logical tables of `(uuid, data)` entries.
//!
//! [`Database`] holds the tables in memory and states, operation by operation,
//! what the store does; [`sql`] gives the statements that carry out the same
//! operations on a relational backend.
use vstd::prelude::*;

pub mod entry;
pub mod sql;
pub mod table;

use crate::text::same_text;
use table::{StoreError, Table, TableView};

verus! {

/// Number of logical tables.
pub const TABLE_COUNT: usize = 5;

/// The logical tables of the store.
#[derive(Clone, Copy, PartialEq, Eq, Structural, Debug)]
pub enum TableId {
    /// Feedback records.
    Feedback,
    /// Feed items in Chinese; data is unique.
    RssCn,
    /// Feed items in English; data is unique.
    RssEn,
    /// Backup blobs, one per token.
    Backup,
    /// Version metadata.
    Versions,
}

pub open spec fn slot_of(id: TableId) -> int {
    match id {
        TableId::Feedback => 0,
        TableId::RssCn => 1,
        TableId::RssEn => 2,
        TableId::Backup => 3,
        TableId::Versions => 4,
    }
}

/// The physical name of a table.
pub open spec fn table_name(id: TableId) -> Seq<char> {
    match id {
        TableId::Feedback => "rssbox_android_feedback"@,
        TableId::RssCn => "rssbox_android_rss_cn"@,
        TableId::RssEn => "rssbox_android_rss_en"@,
        TableId::Backup => "rssbox_android_backup"@,
        TableId::Versions => "versions"@,
    }
}

/// Whether a table is created with unique data: the feed-item tables.
pub open spec fn default_unique(id: TableId) -> bool {
    id == TableId::RssCn || id == TableId::RssEn
}

impl TableId {
    fn slot(&self) -> (r: usize)
        ensures
            r as int == slot_of(*self),
            r < TABLE_COUNT,
    {
        match self {
            TableId::Feedback => 0,
            TableId::RssCn => 1,
            TableId::RssEn => 2,
            TableId::Backup => 3,
            TableId::Versions => 4,
        }
    }

    /// The physical name of the table.
    pub fn name(&self) -> (r: &'static str)
        ensures
            r@ == table_name(*self),
    {
        match self {
            TableId::Feedback => "rssbox_android_feedback",
            TableId::RssCn => "rssbox_android_rss_cn",
            TableId::RssEn => "rssbox_android_rss_en",
            TableId::Backup => "rssbox_android_backup",
            TableId::Versions => "versions",
        }
    }

    /// Whether the table keeps its data unique.
    pub fn unique_data(&self) -> (r: bool)
        ensures
            r == default_unique(*self),
    {
        match self {
            TableId::RssCn | TableId::RssEn => true,
            _ => false,
        }
    }

    /// Every table, in a fixed order.
    pub fn all() -> (r: Vec<TableId>)
        ensures
            r@.len() == TABLE_COUNT,
            forall|id: TableId| #[trigger] r@.contains(id),
    {
        let r = vec![
            TableId::Feedback,
            TableId::RssCn,
            TableId::RssEn,
            TableId::Backup,
            TableId::Versions,
        ];
        assert forall|id: TableId| #[trigger] r@.contains(id) by {
            assert(r@[slot_of(id)] == id);
        }
        r
    }
}

/// The feed-item table of a language: `cn` for Chinese, anything else English.
pub fn rss_table(language: &str) -> (r: TableId)
    ensures
        r == if language@ == "cn"@ {
            TableId::RssCn
        } else {
            TableId::RssEn
        },
{
    if same_text(language, "cn") {
        TableId::RssCn
    } else {
        TableId::RssEn
    }
}

/// The table that a slot holds, as seen from outside.
pub open spec fn slot_view(s: Option<Table>) -> Option<TableView> {
    match s {
        Some(t) => Some(t@),
        None => None,
    }
}

/// The store: each logical table either exists, with its rows, or does not.
pub struct Database {
    tables: Vec<Option<Table>>,
}

impl Database {
    /// What table `id` holds, if it exists.
    pub closed spec fn table(&self, id: TableId) -> Option<TableView> {
        slot_view(self.tables@[slot_of(id)])
    }

    pub closed spec fn wf(&self) -> bool {
        &&& self.tables@.len() == TABLE_COUNT
        &&& forall|i: int|
            0 <= i < TABLE_COUNT ==> (#[trigger] self.tables@[i] matches Some(t) ==> t.wf())
    }

    /// Every table other than `id` is as in `other`.
    pub open spec fn same_except(&self, other: &Database, id: TableId) -> bool {
        forall|o: TableId| o != id ==> #[trigger] self.table(o) == other.table(o)
    }

    /// A store in which no table exists yet.
    pub fn new() -> (r: Database)
        ensures
            r.wf(),
            forall|id: TableId| (#[trigger] r.table(id)) is None,
    {
        let mut tables: Vec<Option<Table>> = Vec::new();
        let mut i: usize = 0;
        while i < TABLE_COUNT
            invariant
                i <= TABLE_COUNT,
                tables@.len() == i,
                forall|j: int| 0 <= j < i ==> (#[trigger] tables@[j]) is None,
            decreases TABLE_COUNT - i,
        {
            tables.push(None);
            i = i + 1;
        }
        Database { tables }
    }

    /// Takes table `id` out, leaving it absent.
    pub(crate) fn take(&mut self, id: TableId) -> (r: Option<Table>)
        requires
            old(self).wf(),
        ensures
            final(self).wf(),
            final(self).table(id) is None,
            final(self).same_except(old(self), id),
            slot_view(r) == old(self).table(id),
            r matches Some(t) ==> t.wf(),
    {
        let k = id.slot();
        let mut out: Option<Table> = None;
        self.tables.set_and_swap(k, &mut out);
        assert(old(self).tables@[k as int] matches Some(t) ==> t.wf());
        assert forall|o: TableId| o != id implies #[trigger] self.table(o) == old(self).table(o) by {
            assert(slot_of(o) != slot_of(id));
        }
        out
    }

    /// Puts table `id` back, or leaves it absent.
    pub(crate) fn put(&mut self, id: TableId, t: Option<Table>)
        requires
            old(self).wf(),
            t matches Some(t) ==> t.wf(),
        ensures
            final(self).wf(),
            final(self).table(id) == slot_view(t),
            final(self).same_except(old(self), id),
    {
        let k = id.slot();
        self.tables.set(k, t);
        assert forall|o: TableId| o != id implies #[trigger] self.table(o) == old(self).table(o) by {
            assert(slot_of(o) != slot_of(id));
        }
    }
}

/// The error for an operation on a table that does not exist.
pub fn no_such_table() -> (r: StoreError)
    ensures
        r matches StoreError::Io(_),
{
    StoreError::Io(String::from_str("no such table"))
}

/// Creates every table that does not exist yet, each with its own uniqueness
/// policy; existing tables are left as they are.
pub fn init(db: &mut Database)
    requires
        old(db).wf(),
    ensures
        final(db).wf(),
        forall|id: TableId|
            #[trigger] final(db).table(id) == match old(db).table(id) {
                Some(t) => Some(t),
                None => Some(TableView { unique_data: default_unique(id), rows: Seq::empty() }),
            },
{
    let _ = entry::create(db, TableId::Feedback, TableId::Feedback.unique_data());
    let _ = entry::create(db, TableId::RssCn, TableId::RssCn.unique_data());
    let _ = entry::create(db, TableId::RssEn, TableId::RssEn.unique_data());
    let _ = entry::create(db, TableId::Backup, TableId::Backup.unique_data());
    let _ = entry::create(db, TableId::Versions, TableId::Versions.unique_data());
}

/// Succeeds exactly when table `id` exists.
pub fn is_table_exist(db: &Database, id: TableId) -> (r: Result<(), StoreError>)
    requires
        db.wf(),
    ensures
        r is Ok <==> db.table(id) is Some,
        r is Err ==> r matches Err(StoreError::Io(_)),
{
    if db.has_table(id) {
        Ok(())
    } else {
        Err(no_such_table())
    }
}

/// Drops table `id`; fails if it does not exist.
pub fn drop_table(db: &mut Database, id: TableId) -> (r: Result<(), StoreError>)
    requires
        old(db).wf(),
    ensures
        final(db).wf(),
        final(db).table(id) is None,
        final(db).same_except(old(db), id),
        r is Ok <==> old(db).table(id) is Some,
        r is Err ==> r matches Err(StoreError::Io(_)),
{
    match db.take(id) {
        Some(_) => Ok(()),
        None => Err(no_such_table()),
    }
}

impl Database {
    /// Table `id`, if it exists.
    pub fn get(&self, id: TableId) -> (r: Option<&Table>)
        requires
            self.wf(),
        ensures
            match r {
                Some(t) => self.table(id) == Some(t@) && t.wf(),
                None => self.table(id) is None,
            },
    {
        match &self.tables[id.slot()] {
            Some(t) => Some(t),
            None => None,
        }
    }

    /// Whether table `id` exists.
    pub fn has_table(&self, id: TableId) -> (r: bool)
        requires
            self.wf(),
        ensures
            r == self.table(id) is Some,
    {
        self.tables[id.slot()].is_some()
    }
}

} // verus!
