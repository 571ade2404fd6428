//! One table of `(uuid, data)` entries, kept in insertion order.
use vstd::prelude::*;
use crate::text::same_text;

verus! {

/// A stored entry as plain text: `(uuid, data)`.
pub type Row = (Seq<char>, Seq<char>);

/// One stored record.
#[derive(Debug)]
pub struct ComEntry {
    pub uuid: String,
    pub data: String,
}

impl View for ComEntry {
    type V = Row;

    open spec fn view(&self) -> Row {
        (self.uuid@, self.data@)
    }
}

impl ComEntry {
    pub fn new(uuid: &str, data: &str) -> (r: ComEntry)
        ensures
            r@ == (uuid@, data@),
    {
        ComEntry { uuid: String::from_str(uuid), data: String::from_str(data) }
    }

    pub fn duplicate(&self) -> (r: ComEntry)
        ensures
            r@ == self@,
    {
        ComEntry { uuid: self.uuid.clone(), data: self.data.clone() }
    }
}

/// Why a store operation failed.
#[derive(Debug)]
pub enum StoreError {
    /// A uniqueness constraint would be broken.
    ConstraintViolation,
    /// No row has the requested uuid.
    NotFound,
    /// The storage engine failed, or the table does not exist.
    Io(String),
}

/// The data stored under uuid `u`, if any.
pub open spec fn lookup(rows: Seq<Row>, u: Seq<char>) -> Option<Seq<char>>
    decreases rows.len(),
{
    if rows.len() == 0 {
        None
    } else if rows.last().0 == u {
        Some(rows.last().1)
    } else {
        lookup(rows.drop_last(), u)
    }
}

pub open spec fn has_uuid(rows: Seq<Row>, u: Seq<char>) -> bool {
    exists|i: int| 0 <= i < rows.len() && (#[trigger] rows[i]).0 == u
}

pub open spec fn has_data(rows: Seq<Row>, d: Seq<char>) -> bool {
    exists|i: int| 0 <= i < rows.len() && (#[trigger] rows[i]).1 == d
}

/// Some row other than the one under `u` holds `d`.
pub open spec fn data_taken_by_other(rows: Seq<Row>, u: Seq<char>, d: Seq<char>) -> bool {
    exists|i: int| 0 <= i < rows.len() && (#[trigger] rows[i]).1 == d && rows[i].0 != u
}

/// Uuids are unique; with the uniqueness policy on, data is unique too.
pub open spec fn rows_wf(rows: Seq<Row>, unique_data: bool) -> bool {
    forall|i: int, j: int|
        0 <= i < j < rows.len() ==> (#[trigger] rows[i]).0 != (#[trigger] rows[j]).0 && (
        unique_data ==> rows[i].1 != rows[j].1)
}

pub open spec fn insert_allowed(rows: Seq<Row>, unique_data: bool, u: Seq<char>, d: Seq<char>) -> bool {
    !has_uuid(rows, u) && !(unique_data && has_data(rows, d))
}

/// Rows whose uuid is not `u`.
pub open spec fn keeps(u: Seq<char>) -> spec_fn(Row) -> bool {
    |r: Row| r.0 != u
}

/// The rows whose uuid is not `u`, in their order.
pub open spec fn without_uuid(rows: Seq<Row>, u: Seq<char>) -> Seq<Row> {
    rows.filter(keeps(u))
}

/// Entries as rows.
pub open spec fn rows_of(entries: Seq<ComEntry>) -> Seq<Row> {
    entries.map_values(|e: ComEntry| e@)
}

/// The rows with the data under `u` replaced by `d`.
pub open spec fn with_data(rows: Seq<Row>, u: Seq<char>, d: Seq<char>) -> Seq<Row> {
    rows.map_values(|r: Row| if r.0 == u { (u, d) } else { r })
}

/// What a table holds: its uniqueness policy and its rows in insertion order.
pub struct TableView {
    pub unique_data: bool,
    pub rows: Seq<Row>,
}

impl TableView {
    pub open spec fn wf(self) -> bool {
        rows_wf(self.rows, self.unique_data)
    }

    pub open spec fn with_rows(self, rows: Seq<Row>) -> TableView {
        TableView { unique_data: self.unique_data, rows }
    }
}

/// The table and result after `insert(u, d)`.
pub open spec fn spec_insert(t: TableView, u: Seq<char>, d: Seq<char>) -> (TableView, Result<(), StoreError>) {
    if insert_allowed(t.rows, t.unique_data, u, d) {
        (t.with_rows(t.rows.push((u, d))), Ok(()))
    } else {
        (t, Err(StoreError::ConstraintViolation))
    }
}

/// The table and result after `update(u, d)`.
pub open spec fn spec_update(t: TableView, u: Seq<char>, d: Seq<char>) -> (TableView, Result<(), StoreError>) {
    if !has_uuid(t.rows, u) {
        (t, Err(StoreError::NotFound))
    } else if t.unique_data && data_taken_by_other(t.rows, u, d) {
        (t, Err(StoreError::ConstraintViolation))
    } else {
        (t.with_rows(with_data(t.rows, u, d)), Ok(()))
    }
}

/// The table and result after an atomic insert-or-update of `(u, d)`.
pub open spec fn spec_upsert(t: TableView, u: Seq<char>, d: Seq<char>) -> (TableView, Result<(), StoreError>) {
    if has_uuid(t.rows, u) {
        spec_update(t, u, d)
    } else {
        spec_insert(t, u, d)
    }
}

/// The table after `delete(u)`.
pub open spec fn spec_delete(t: TableView, u: Seq<char>) -> TableView {
    t.with_rows(without_uuid(t.rows, u))
}

/// What `get(u)` returns.
pub open spec fn spec_get(t: TableView, u: Seq<char>) -> Result<Row, StoreError> {
    match lookup(t.rows, u) {
        Some(d) => Ok((u, d)),
        None => Err(StoreError::NotFound),
    }
}

/// How many of `entries` are inserted, one after another, before the first conflict.
pub open spec fn insert_run(t: TableView, entries: Seq<Row>) -> nat
    decreases entries.len(),
{
    if entries.len() == 0 {
        0
    } else if insert_allowed(t.rows, t.unique_data, entries[0].0, entries[0].1) {
        1 + insert_run(t.with_rows(t.rows.push(entries[0])), entries.drop_first())
    } else {
        0
    }
}

pub open spec fn entry_result_view(r: Result<ComEntry, StoreError>) -> Result<Row, StoreError> {
    match r {
        Ok(e) => Ok(e@),
        Err(e) => Err(e),
    }
}

pub proof fn lemma_lookup_absent(rows: Seq<Row>, u: Seq<char>)
    requires
        !has_uuid(rows, u),
    ensures
        lookup(rows, u) is None,
    decreases rows.len(),
{
    if rows.len() > 0 {
        assert(rows.last() == rows[rows.len() - 1]);
        assert forall|i: int| 0 <= i < rows.drop_last().len() implies (
        #[trigger] rows.drop_last()[i]).0 != u by {
            assert(rows.drop_last()[i] == rows[i]);
        }
        lemma_lookup_absent(rows.drop_last(), u);
    }
}

pub proof fn lemma_lookup_at(rows: Seq<Row>, unique_data: bool, k: int)
    requires
        rows_wf(rows, unique_data),
        0 <= k < rows.len(),
    ensures
        lookup(rows, rows[k].0) == Some(rows[k].1),
    decreases rows.len(),
{
    if k < rows.len() - 1 {
        assert(rows[k].0 != rows[rows.len() - 1].0);
        assert(rows.drop_last()[k] == rows[k]);
        assert(rows_wf(rows.drop_last(), unique_data)) by {
            assert forall|i: int, j: int| 0 <= i < j < rows.drop_last().len() implies (
            #[trigger] rows.drop_last()[i]).0 != (#[trigger] rows.drop_last()[j]).0 && (
            unique_data ==> rows.drop_last()[i].1 != rows.drop_last()[j].1) by {
                assert(rows.drop_last()[i] == rows[i]);
                assert(rows.drop_last()[j] == rows[j]);
            }
        }
        lemma_lookup_at(rows.drop_last(), unique_data, k);
    }
}

/// Whatever a filter keeps comes from the sequence filtered.
pub proof fn lemma_filter_from(rows: Seq<Row>, p: spec_fn(Row) -> bool)
    ensures
        forall|i: int| 0 <= i < rows.filter(p).len() ==> rows.contains(#[trigger] rows.filter(p)[i]),
    decreases rows.len(),
{
    reveal(Seq::filter);
    if rows.len() > 0 {
        let init = rows.drop_last();
        lemma_filter_from(init, p);
        let fi = init.filter(p);
        assert forall|i: int| 0 <= i < rows.filter(p).len() implies rows.contains(
            #[trigger] rows.filter(p)[i],
        ) by {
            if i < fi.len() {
                assert(rows.filter(p)[i] == fi[i]);
                assert(init.contains(fi[i]));
                let k = choose|k: int| 0 <= k < init.len() && init[k] == fi[i];
                assert(rows[k] == init[k]);
            } else {
                assert(rows.filter(p)[i] == rows[rows.len() - 1]);
            }
        }
    }
}

/// Removing rows keeps the table well formed.
pub proof fn lemma_without_wf(rows: Seq<Row>, unique_data: bool, u: Seq<char>)
    requires
        rows_wf(rows, unique_data),
    ensures
        rows_wf(without_uuid(rows, u), unique_data),
        !has_uuid(without_uuid(rows, u), u),
        without_uuid(rows, u).len() <= rows.len(),
        has_uuid(rows, u) ==> without_uuid(rows, u).len() == rows.len() - 1,
        !has_uuid(rows, u) ==> without_uuid(rows, u) == rows,
    decreases rows.len(),
{
    reveal(Seq::filter);
    let p = keeps(u);
    if rows.len() > 0 {
        let init = rows.drop_last();
        let x = rows.last();
        assert(rows_wf(init, unique_data)) by {
            assert forall|i: int, j: int| 0 <= i < j < init.len() implies (
            #[trigger] init[i]).0 != (#[trigger] init[j]).0 && (unique_data ==> init[i].1
                != init[j].1) by {
                assert(init[i] == rows[i]);
                assert(init[j] == rows[j]);
            }
        }
        lemma_without_wf(init, unique_data, u);
        let fi = without_uuid(init, u);
        lemma_filter_from(init, p);
        assert(rows.filter(p) == if p(x) { fi.push(x) } else { fi });
        assert forall|i: int| 0 <= i < init.len() implies (#[trigger] init[i]).0 != x.0 && (
        unique_data ==> init[i].1 != x.1) by {
            assert(init[i] == rows[i]);
            assert(x == rows[rows.len() - 1]);
        }
        if p(x) {
            let w = fi.push(x);
            assert forall|i: int, j: int| 0 <= i < j < w.len() implies (#[trigger] w[i]).0 != (
            #[trigger] w[j]).0 && (unique_data ==> w[i].1 != w[j].1) by {
                if j == w.len() - 1 {
                    assert(fi[i] == init.filter(p)[i]);
                    assert(init.contains(fi[i]));
                    let k = choose|k: int| 0 <= k < init.len() && init[k] == fi[i];
                    assert(w[i] == init[k]);
                } else {
                    assert(w[i] == fi[i]);
                    assert(w[j] == fi[j]);
                }
            }
            assert(!has_uuid(w, u)) by {
                assert forall|i: int| 0 <= i < w.len() implies (#[trigger] w[i]).0 != u by {
                    if i < w.len() - 1 {
                        assert(w[i] == fi[i]);
                    }
                }
            }
            if has_uuid(rows, u) {
                let k = choose|k: int| 0 <= k < rows.len() && (#[trigger] rows[k]).0 == u;
                assert(k != rows.len() - 1);
                assert(init[k] == rows[k]);
                assert(has_uuid(init, u));
            } else {
                assert(!has_uuid(init, u)) by {
                    assert forall|i: int| 0 <= i < init.len() implies (#[trigger] init[i]).0 != u by {
                        assert(init[i] == rows[i]);
                    }
                }
                assert(rows =~= init.push(x));
            }
        } else {
            assert(x == rows[rows.len() - 1]);
            assert(has_uuid(rows, u));
            assert(!has_uuid(init, u)) by {
                assert forall|i: int| 0 <= i < init.len() implies (#[trigger] init[i]).0 != u by {
                    assert(init[i] == rows[i]);
                }
            }
        }
    } else {
        assert(rows.filter(p) =~= rows);
    }
}

/// A table of entries in insertion order, with a uniqueness policy on `data`.
pub struct Table {
    unique_data: bool,
    rows: Vec<ComEntry>,
}

impl View for Table {
    type V = TableView;

    closed spec fn view(&self) -> TableView {
        TableView { unique_data: self.unique_data, rows: rows_of(self.rows@) }
    }
}

impl Table {
    pub open spec fn wf(&self) -> bool {
        self@.wf()
    }

    /// An empty table with the given uniqueness policy.
    pub fn new(unique_data: bool) -> (r: Table)
        ensures
            r@ == (TableView { unique_data, rows: Seq::empty() }),
            r.wf(),
    {
        let r = Table { unique_data, rows: Vec::new() };
        assert(r@.rows =~= Seq::<Row>::empty());
        r
    }

    pub fn unique_data(&self) -> (r: bool)
        ensures
            r == self@.unique_data,
    {
        self.unique_data
    }

    pub fn len(&self) -> (r: usize)
        ensures
            r == self@.rows.len(),
    {
        self.rows.len()
    }

    /// Index of the row under `uuid`.
    fn find(&self, uuid: &str) -> (r: Option<usize>)
        ensures
            match r {
                Some(k) => k < self@.rows.len() && self@.rows[k as int].0 == uuid@,
                None => !has_uuid(self@.rows, uuid@),
            },
    {
        let mut i: usize = 0;
        while i < self.rows.len()
            invariant
                i <= self.rows.len(),
                forall|j: int| 0 <= j < i ==> (#[trigger] self@.rows[j]).0 != uuid@,
            decreases self.rows.len() - i,
        {
            if same_text(self.rows[i].uuid.as_str(), uuid) {
                return Some(i);
            }
            i = i + 1;
        }
        None
    }

    /// Whether some row holds `data`, leaving aside the row under `uuid` if `skip_uuid`.
    fn holds_data(&self, data: &str, uuid: &str, skip_uuid: bool) -> (r: bool)
        ensures
            skip_uuid ==> r == data_taken_by_other(self@.rows, uuid@, data@),
            !skip_uuid ==> r == has_data(self@.rows, data@),
    {
        let mut i: usize = 0;
        while i < self.rows.len()
            invariant
                i <= self.rows.len(),
                forall|j: int|
                    0 <= j < i ==> (#[trigger] self@.rows[j]).1 != data@ || (skip_uuid
                        && self@.rows[j].0 == uuid@),
            decreases self.rows.len() - i,
        {
            if same_text(self.rows[i].data.as_str(), data) {
                if !skip_uuid || !same_text(self.rows[i].uuid.as_str(), uuid) {
                    assert(self@.rows[i as int] == self.rows@[i as int]@);
                    return true;
                }
            }
            i = i + 1;
        }
        false
    }

    /// Adds `(uuid, data)` at the end, unless the uuid is taken or, with the
    /// uniqueness policy on, the data is.
    pub fn insert(&mut self, uuid: &str, data: &str) -> (r: Result<(), StoreError>)
        requires
            old(self).wf(),
        ensures
            final(self).wf(),
            (final(self)@, r) == spec_insert(old(self)@, uuid@, data@),
    {
        let taken = match self.find(uuid) {
            Some(_) => true,
            None => self.unique_data && self.holds_data(data, uuid, false),
        };
        if taken {
            return Err(StoreError::ConstraintViolation);
        }
        let ghost before = self@.rows;
        self.rows.push(ComEntry::new(uuid, data));
        assert(self@.rows =~= before.push((uuid@, data@)));
        assert forall|i: int, j: int| 0 <= i < j < self@.rows.len() implies (
        #[trigger] self@.rows[i]).0 != (#[trigger] self@.rows[j]).0 && (self@.unique_data
            ==> self@.rows[i].1 != self@.rows[j].1) by {
            if j == before.len() {
                assert(self@.rows[i] == before[i]);
            } else {
                assert(self@.rows[i] == before[i]);
                assert(self@.rows[j] == before[j]);
            }
        }
        Ok(())
    }

    /// Replaces the data under `uuid`.
    pub fn update(&mut self, uuid: &str, data: &str) -> (r: Result<(), StoreError>)
        requires
            old(self).wf(),
        ensures
            final(self).wf(),
            (final(self)@, r) == spec_update(old(self)@, uuid@, data@),
    {
        let k = match self.find(uuid) {
            Some(k) => k,
            None => return Err(StoreError::NotFound),
        };
        if self.unique_data && self.holds_data(data, uuid, true) {
            return Err(StoreError::ConstraintViolation);
        }
        let ghost before = self@.rows;
        self.rows.set(k, ComEntry::new(uuid, data));
        assert(self@.rows =~= with_data(before, uuid@, data@)) by {
            assert forall|i: int| 0 <= i < before.len() implies #[trigger] self@.rows[i] == (
            if before[i].0 == uuid@ {
                (uuid@, data@)
            } else {
                before[i]
            }) by {
                if i != k {
                    assert(self@.rows[i] == before[i]);
                    if i < k {
                        assert(before[i].0 != before[k as int].0);
                    } else {
                        assert(before[k as int].0 != before[i].0);
                    }
                }
            }
        }
        assert forall|i: int, j: int| 0 <= i < j < self@.rows.len() implies (
        #[trigger] self@.rows[i]).0 != (#[trigger] self@.rows[j]).0 && (self@.unique_data
            ==> self@.rows[i].1 != self@.rows[j].1) by {
            assert(self@.rows[i].0 == before[i].0);
            assert(self@.rows[j].0 == before[j].0);
            if i != k && j != k {
                assert(self@.rows[i] == before[i]);
                assert(self@.rows[j] == before[j]);
            } else if i == k {
                assert(self@.rows[j] == before[j]);
            } else {
                assert(self@.rows[i] == before[i]);
            }
        }
        Ok(())
    }

    /// Updates the row under `uuid` if there is one, else inserts it, in one step.
    pub fn upsert(&mut self, uuid: &str, data: &str) -> (r: Result<(), StoreError>)
        requires
            old(self).wf(),
        ensures
            final(self).wf(),
            (final(self)@, r) == spec_upsert(old(self)@, uuid@, data@),
    {
        match self.find(uuid) {
            Some(_) => self.update(uuid, data),
            None => self.insert(uuid, data),
        }
    }

    /// Removes the row under `uuid`; nothing happens if there is none.
    pub fn delete(&mut self, uuid: &str)
        requires
            old(self).wf(),
        ensures
            final(self).wf(),
            final(self)@ == spec_delete(old(self)@, uuid@),
    {
        let ghost before = self@.rows;
        let ghost p = keeps(uuid@);
        let mut kept: Vec<ComEntry> = Vec::new();
        let mut i: usize = 0;
        while i < self.rows.len()
            invariant
                i <= self.rows.len(),
                before == self@.rows,
                p == keeps(uuid@),
                rows_of(kept@) == before.subrange(0, i as int).filter(p),
            decreases self.rows.len() - i,
        {
            let ghost prefix = before.subrange(0, i as int + 1);
            assert(prefix.drop_last() =~= before.subrange(0, i as int));
            assert(prefix.last() == self.rows@[i as int]@);
            let ghost prev = rows_of(kept@);
            let keep = !same_text(self.rows[i].uuid.as_str(), uuid);
            assert(keep == p(prefix.last()));
            if keep {
                let e = self.rows[i].duplicate();
                kept.push(e);
                assert(rows_of(kept@) =~= prev.push(e@));
            }
            proof {
                reveal(Seq::filter);
                assert(prefix.filter(p) == if p(prefix.last()) {
                    prefix.drop_last().filter(p).push(prefix.last())
                } else {
                    prefix.drop_last().filter(p)
                });
            }
            i = i + 1;
        }
        assert(before.subrange(0, i as int) =~= before);
        self.rows = kept;
        proof {
            lemma_without_wf(before, self.unique_data, uuid@);
        }
    }

    /// Removes every row.
    pub fn delete_all(&mut self)
        ensures
            final(self)@ == old(self)@.with_rows(Seq::empty()),
            final(self).wf(),
    {
        self.rows.clear();
        assert(self@.rows =~= Seq::<Row>::empty());
    }

    /// The entry under `uuid`.
    pub fn select(&self, uuid: &str) -> (r: Result<ComEntry, StoreError>)
        requires
            self.wf(),
        ensures
            entry_result_view(r) == spec_get(self@, uuid@),
    {
        match self.find(uuid) {
            Some(k) => {
                proof {
                    lemma_lookup_at(self@.rows, self@.unique_data, k as int);
                }
                Ok(self.rows[k].duplicate())
            },
            None => {
                proof {
                    lemma_lookup_absent(self@.rows, uuid@);
                }
                Err(StoreError::NotFound)
            },
        }
    }

    /// Every entry, in insertion order.
    pub fn select_all(&self) -> (r: Vec<ComEntry>)
        ensures
            rows_of(r@) == self@.rows,
    {
        let mut out: Vec<ComEntry> = Vec::new();
        let mut i: usize = 0;
        while i < self.rows.len()
            invariant
                i <= self.rows.len(),
                rows_of(out@) == self@.rows.subrange(0, i as int),
            decreases self.rows.len() - i,
        {
            let e = self.rows[i].duplicate();
            assert(e@ == self@.rows[i as int]);
            let ghost prev = out@;
            out.push(e);
            assert(rows_of(out@) =~= rows_of(prev).push(e@));
            assert(rows_of(out@) =~= self@.rows.subrange(0, i as int + 1));
            i = i + 1;
        }
        assert(self@.rows.subrange(0, i as int) =~= self@.rows);
        out
    }

    /// Whether a row is stored under `uuid`.
    pub fn is_exist(&self, uuid: &str) -> (r: bool)
        requires
            self.wf(),
        ensures
            r == (lookup(self@.rows, uuid@) is Some),
    {
        match self.find(uuid) {
            Some(k) => {
                proof {
                    lemma_lookup_at(self@.rows, self@.unique_data, k as int);
                }
                true
            },
            None => {
                proof {
                    lemma_lookup_absent(self@.rows, uuid@);
                }
                false
            },
        }
    }

    /// Inserts `entries` one after another and stops at the first that conflicts.
    /// Returns how many went in, and the error of the one that did not.
    pub fn insert_all(&mut self, entries: Vec<ComEntry>) -> (r: (usize, Result<(), StoreError>))
        requires
            old(self).wf(),
        ensures
            final(self).wf(),
            r.0 as nat == insert_run(old(self)@, rows_of(entries@)),
            final(self)@ == old(self)@.with_rows(
                old(self)@.rows + rows_of(entries@).take(r.0 as int),
            ),
            r.0 == entries.len() ==> r.1 is Ok,
            r.0 < entries.len() ==> r.1 == Err::<(), StoreError>(StoreError::ConstraintViolation),
    {
        let ghost start = self@;
        let ghost es = rows_of(entries@);
        let mut i: usize = 0;
        assert(start.rows + es.take(0) =~= start.rows);
        assert(es.skip(0) =~= es);
        while i < entries.len()
            invariant
                i <= entries.len(),
                es == rows_of(entries@),
                start == old(self)@,
                self.wf(),
                self@ == start.with_rows(start.rows + es.take(i as int)),
                insert_run(start, es) == i + insert_run(self@, es.skip(i as int)),
            decreases entries.len() - i,
        {
            let ghost cur = self@;
            assert(es.skip(i as int)[0] == entries@[i as int]@);
            let res = self.insert(entries[i].uuid.as_str(), entries[i].data.as_str());
            if res.is_err() {
                assert(self@ == cur);
                assert(insert_run(cur, es.skip(i as int)) == 0);
                return (i, res);
            }
            assert(es.skip(i as int).drop_first() =~= es.skip(i as int + 1));
            assert(start.rows + es.take(i as int + 1) =~= cur.rows.push(es[i as int]));
            i = i + 1;
        }
        assert(es.skip(i as int).len() == 0);
        (i, Ok(()))
    }
}

/// A successful `insert(u, d)` makes `get(u)` return exactly `(u, d)`.
pub proof fn law_insert_then_get(t: TableView, u: Seq<char>, d: Seq<char>)
    requires
        t.wf(),
    ensures
        spec_insert(t, u, d).1 is Ok ==> spec_get(spec_insert(t, u, d).0, u) == Ok::<Row, StoreError>(
            (u, d),
        ),
{
    let rows = t.rows.push((u, d));
    if spec_insert(t, u, d).1 is Ok {
        assert(rows.drop_last() =~= t.rows);
    }
}

/// With the uniqueness policy on, once `(u1, d)` is in, inserting `(u2, d)`
/// fails with a constraint violation and leaves the table as it was.
pub proof fn law_duplicate_data_rejected(t: TableView, u1: Seq<char>, u2: Seq<char>, d: Seq<char>)
    requires
        t.wf(),
        t.unique_data,
        u1 != u2,
    ensures
        spec_insert(t, u1, d).1 is Ok ==> spec_insert(spec_insert(t, u1, d).0, u2, d) == (
        spec_insert(t, u1, d).0,
        Err::<(), StoreError>(StoreError::ConstraintViolation),
        ),
{
    let t1 = spec_insert(t, u1, d).0;
    if spec_insert(t, u1, d).1 is Ok {
        assert(t1.rows[t.rows.len() as int].1 == d);
        assert(has_data(t1.rows, d));
    }
}

/// After `delete(u)`, `get(u)` finds nothing; `delete` of an absent uuid
/// leaves the table unchanged.
pub proof fn law_delete_then_get(t: TableView, u: Seq<char>)
    requires
        t.wf(),
    ensures
        spec_get(spec_delete(t, u), u) == Err::<Row, StoreError>(StoreError::NotFound),
        !has_uuid(t.rows, u) ==> spec_delete(t, u) == t,
{
    lemma_without_wf(t.rows, t.unique_data, u);
    lemma_lookup_absent(without_uuid(t.rows, u), u);
}

/// Inserts append at the end, so listing keeps insertion order; each successful
/// insert adds one row, each delete of a stored uuid removes one, and nothing
/// else changes the count.
pub proof fn law_row_count(t: TableView, u: Seq<char>, d: Seq<char>)
    requires
        t.wf(),
    ensures
        spec_insert(t, u, d).1 is Ok ==> spec_insert(t, u, d).0.rows == t.rows.push((u, d)),
        spec_insert(t, u, d).1 is Err ==> spec_insert(t, u, d).0 == t,
        has_uuid(t.rows, u) ==> spec_delete(t, u).rows.len() == t.rows.len() - 1,
        !has_uuid(t.rows, u) ==> spec_delete(t, u).rows.len() == t.rows.len(),
{
    lemma_without_wf(t.rows, t.unique_data, u);
}


/// A write to a table, as the store law over runs of writes sees it.
pub enum TableOp {
    Insert(Seq<char>, Seq<char>),
    Delete(Seq<char>),
}

pub open spec fn apply_op(t: TableView, op: TableOp) -> TableView {
    match op {
        TableOp::Insert(u, d) => spec_insert(t, u, d).0,
        TableOp::Delete(u) => spec_delete(t, u),
    }
}

/// The table after a run of writes, in order.
pub open spec fn run_ops(t: TableView, ops: Seq<TableOp>) -> TableView
    decreases ops.len(),
{
    if ops.len() == 0 {
        t
    } else {
        apply_op(run_ops(t, ops.drop_last()), ops.last())
    }
}

/// Successful inserts minus deletes of a stored uuid, over a run of writes.
pub open spec fn net_inserts(t: TableView, ops: Seq<TableOp>) -> int
    decreases ops.len(),
{
    if ops.len() == 0 {
        0
    } else {
        let before = run_ops(t, ops.drop_last());
        net_inserts(t, ops.drop_last()) + match ops.last() {
            TableOp::Insert(u, d) => if spec_insert(before, u, d).1 is Ok {
                1int
            } else {
                0int
            },
            TableOp::Delete(u) => if has_uuid(before.rows, u) {
                -1int
            } else {
                0int
            },
        }
    }
}

/// Over any run of inserts and deletes, the table stays well formed and the
/// listing's length is the starting length plus the successful inserts minus
/// the deletes that found their uuid.
pub proof fn law_list_length(t: TableView, ops: Seq<TableOp>)
    requires
        t.wf(),
    ensures
        run_ops(t, ops).wf(),
        run_ops(t, ops).rows.len() == t.rows.len() + net_inserts(t, ops),
    decreases ops.len(),
{
    if ops.len() > 0 {
        law_list_length(t, ops.drop_last());
        let before = run_ops(t, ops.drop_last());
        match ops.last() {
            TableOp::Insert(u, d) => {
                if spec_insert(before, u, d).1 is Ok {
                    let rows = before.rows.push((u, d));
                    assert forall|i: int, j: int| 0 <= i < j < rows.len() implies (
                    #[trigger] rows[i]).0 != (#[trigger] rows[j]).0 && (before.unique_data
                        ==> rows[i].1 != rows[j].1) by {
                        assert(rows[i] == before.rows[i]);
                        if j < before.rows.len() {
                            assert(rows[j] == before.rows[j]);
                        }
                    }
                }
            },
            TableOp::Delete(u) => {
                lemma_without_wf(before.rows, before.unique_data, u);
            },
        }
    }
}


/// Whether every write of a run is an insert that succeeds where it stands.
pub open spec fn all_inserts_succeed(t: TableView, ops: Seq<TableOp>) -> bool
    decreases ops.len(),
{
    if ops.len() == 0 {
        true
    } else {
        all_inserts_succeed(t, ops.drop_last()) && match ops.last() {
            TableOp::Insert(u, d) => spec_insert(run_ops(t, ops.drop_last()), u, d).1 is Ok,
            TableOp::Delete(_) => false,
        }
    }
}

/// The rows that a run of inserts writes, in order.
pub open spec fn inserted_rows(ops: Seq<TableOp>) -> Seq<Row>
    decreases ops.len(),
{
    if ops.len() == 0 {
        Seq::empty()
    } else {
        let r = inserted_rows(ops.drop_last());
        match ops.last() {
            TableOp::Insert(u, d) => r.push((u, d)),
            TableOp::Delete(_) => r,
        }
    }
}

/// After a run of inserts that all succeed, the listing holds the rows that
/// were there, then the inserted rows in the order they were inserted.
pub proof fn law_inserts_listed_in_order(t: TableView, ops: Seq<TableOp>)
    requires
        all_inserts_succeed(t, ops),
    ensures
        run_ops(t, ops).rows == t.rows + inserted_rows(ops),
        run_ops(t, ops).rows.len() == t.rows.len() + ops.len(),
    decreases ops.len(),
{
    if ops.len() == 0 {
        assert(t.rows + inserted_rows(ops) =~= t.rows);
    } else {
        law_inserts_listed_in_order(t, ops.drop_last());
        match ops.last() {
            TableOp::Insert(u, d) => {
                assert(t.rows + inserted_rows(ops.drop_last()).push((u, d)) =~= (t.rows
                    + inserted_rows(ops.drop_last())).push((u, d)));
            },
            TableOp::Delete(_) => {},
        }
    }
}

} // verus!
