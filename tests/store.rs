use apisvr::db::entry;
use apisvr::db::table::{ComEntry, StoreError, Table};
use apisvr::db::sql::{store_error, update_result, BackendFailure};
use apisvr::db::{self, sql, Database, TableId};

fn fresh_with(id: TableId) -> Database {
    let mut d = Database::new();
    entry::new(&mut d, id).unwrap();
    d
}

#[test]
fn test_table_new() {
    let mut d = Database::new();
    assert!(entry::new(&mut d, TableId::Feedback).is_ok());
    assert!(db::is_table_exist(&d, TableId::Feedback).is_ok());
}

#[test]
fn test_delete_all() {
    let mut d = fresh_with(TableId::Feedback);
    entry::insert(&mut d, TableId::Feedback, "uuid-1", "data-1").unwrap();
    entry::delete_all(&mut d, TableId::Feedback).unwrap();
    assert!(entry::select_all(&d, TableId::Feedback).unwrap().is_empty());
}

#[test]
fn test_delete_one() {
    let mut d = fresh_with(TableId::Feedback);
    entry::delete_all(&mut d, TableId::Feedback).unwrap();
    entry::insert(&mut d, TableId::Feedback, "uuid-1", "data-1").unwrap();
    entry::delete(&mut d, TableId::Feedback, "uuid-1").unwrap();
    assert!(!entry::is_exist(&d, TableId::Feedback, "uuid-1"));
}

#[test]
fn test_insert() {
    let mut d = fresh_with(TableId::Feedback);
    entry::delete_all(&mut d, TableId::Feedback).unwrap();
    entry::insert(&mut d, TableId::Feedback, "uuid-1", "data-1").unwrap();
    entry::insert(&mut d, TableId::Feedback, "uuid-2", "data-2").unwrap();
    assert_eq!(entry::select_all(&d, TableId::Feedback).unwrap().len(), 2);
}

#[test]
fn test_insert_all() {
    let mut d = fresh_with(TableId::Feedback);
    entry::delete_all(&mut d, TableId::Feedback).unwrap();
    let entrys: Vec<ComEntry> = (0..100)
        .map(|index| ComEntry {
            uuid: format!("uuid-{index}"),
            data: format!("data-{index}"),
        })
        .collect();
    let (counts, _) = entry::insert_all(&mut d, TableId::Feedback, entrys);
    assert_eq!(counts, 100);
}

#[test]
fn test_update() {
    let mut d = fresh_with(TableId::Feedback);
    entry::delete_all(&mut d, TableId::Feedback).unwrap();
    entry::insert(&mut d, TableId::Feedback, "uuid-1", "data-1").unwrap();
    entry::update(&mut d, TableId::Feedback, "uuid-1", "data-1-1").unwrap();
    assert_eq!(
        entry::select(&d, TableId::Feedback, "uuid-1").unwrap().data,
        "data-1-1".to_string()
    );
}

#[test]
fn test_select_one() {
    let mut d = fresh_with(TableId::Feedback);
    entry::delete_all(&mut d, TableId::Feedback).unwrap();
    assert!(entry::select(&d, TableId::Feedback, "uuid-1").is_err());
    entry::insert(&mut d, TableId::Feedback, "uuid-1", "data-1").unwrap();
    let item = entry::select(&d, TableId::Feedback, "uuid-1").unwrap();
    assert_eq!(item.uuid, "uuid-1");
    assert_eq!(item.data, "data-1");
}

#[test]
fn test_select_all() {
    let mut d = fresh_with(TableId::Feedback);
    entry::delete_all(&mut d, TableId::Feedback).unwrap();
    entry::insert(&mut d, TableId::Feedback, "uuid-1", "data-1").unwrap();
    entry::insert(&mut d, TableId::Feedback, "uuid-2", "data-2").unwrap();
    let v = entry::select_all(&d, TableId::Feedback).unwrap();
    assert_eq!(v[0].uuid, "uuid-1");
    assert_eq!(v[0].data, "data-1");
    assert_eq!(v[1].uuid, "uuid-2");
    assert_eq!(v[1].data, "data-2");
}

#[test]
fn test_drop_table() {
    let mut d = fresh_with(TableId::Feedback);
    entry::delete_all(&mut d, TableId::Feedback).unwrap();
    entry::insert(&mut d, TableId::Feedback, "uuid-1", "data-1").unwrap();
    assert!(db::drop_table(&mut d, TableId::Versions).is_err());
    assert!(db::drop_table(&mut d, TableId::Feedback).is_ok());
}

#[test]
fn test_db_is_table_exist() {
    let d = fresh_with(TableId::Backup);
    assert!(db::is_table_exist(&d, TableId::Versions).is_err());
    assert!(db::is_table_exist(&d, TableId::Backup).is_ok());
}

#[test]
fn test_db_drop_table() {
    let mut d = fresh_with(TableId::Backup);
    assert!(db::drop_table(&mut d, TableId::Versions).is_err());
    assert!(db::drop_table(&mut d, TableId::Backup).is_ok());
}

#[test]
fn insert_then_get_returns_data() {
    let mut d = Database::new();
    db::init(&mut d);
    entry::insert(&mut d, TableId::Versions, "android", "{\"v\":\"1.2.0\"}").unwrap();
    let e = entry::select(&d, TableId::Versions, "android").unwrap();
    assert_eq!(e.uuid, "android");
    assert_eq!(e.data, "{\"v\":\"1.2.0\"}");
}

#[test]
fn duplicate_data_rejected_under_uniqueness() {
    let mut d = Database::new();
    db::init(&mut d);
    entry::insert(&mut d, TableId::RssCn, "a", "same feed").unwrap();
    let r = entry::insert(&mut d, TableId::RssCn, "b", "same feed");
    assert!(matches!(r, Err(StoreError::ConstraintViolation)));
    assert_eq!(entry::select_all(&d, TableId::RssCn).unwrap().len(), 1);
    // Without the policy the same data goes in twice.
    entry::insert(&mut d, TableId::Feedback, "a", "same").unwrap();
    entry::insert(&mut d, TableId::Feedback, "b", "same").unwrap();
    assert_eq!(entry::select_all(&d, TableId::Feedback).unwrap().len(), 2);
}

#[test]
fn duplicate_uuid_rejected() {
    let mut d = fresh_with(TableId::Feedback);
    entry::insert(&mut d, TableId::Feedback, "u", "x").unwrap();
    let r = entry::insert(&mut d, TableId::Feedback, "u", "y");
    assert!(matches!(r, Err(StoreError::ConstraintViolation)));
    assert_eq!(entry::select(&d, TableId::Feedback, "u").unwrap().data, "x");
}

#[test]
fn delete_then_get_not_found() {
    let mut d = fresh_with(TableId::Feedback);
    entry::insert(&mut d, TableId::Feedback, "u", "x").unwrap();
    entry::delete(&mut d, TableId::Feedback, "u").unwrap();
    assert!(matches!(
        entry::select(&d, TableId::Feedback, "u"),
        Err(StoreError::NotFound)
    ));
    assert!(entry::delete(&mut d, TableId::Feedback, "absent").is_ok());
}

#[test]
fn list_keeps_insertion_order_and_count() {
    let mut d = fresh_with(TableId::Feedback);
    for (u, x) in [("c", "3"), ("a", "1"), ("b", "2")] {
        entry::insert(&mut d, TableId::Feedback, u, x).unwrap();
    }
    assert!(entry::insert(&mut d, TableId::Feedback, "a", "again").is_err());
    entry::delete(&mut d, TableId::Feedback, "a").unwrap();
    entry::delete(&mut d, TableId::Feedback, "zzz").unwrap();
    let v = entry::select_all(&d, TableId::Feedback).unwrap();
    let uuids: Vec<&str> = v.iter().map(|e| e.uuid.as_str()).collect();
    assert_eq!(uuids, vec!["c", "b"]);
}

#[test]
fn update_missing_is_not_found() {
    let mut d = fresh_with(TableId::Feedback);
    let r = entry::update(&mut d, TableId::Feedback, "nope", "x");
    assert!(matches!(r, Err(StoreError::NotFound)));
}

#[test]
fn update_into_taken_data_is_violation() {
    let mut d = Database::new();
    entry::new_with_unique(&mut d, TableId::RssEn).unwrap();
    entry::insert(&mut d, TableId::RssEn, "a", "x").unwrap();
    entry::insert(&mut d, TableId::RssEn, "b", "y").unwrap();
    let r = entry::update(&mut d, TableId::RssEn, "b", "x");
    assert!(matches!(r, Err(StoreError::ConstraintViolation)));
    // Writing a row's own data again is fine.
    assert!(entry::update(&mut d, TableId::RssEn, "a", "x").is_ok());
}

#[test]
fn upsert_inserts_then_updates() {
    let mut d = Database::new();
    db::init(&mut d);
    entry::upsert(&mut d, TableId::Backup, "token", "v1").unwrap();
    entry::upsert(&mut d, TableId::Backup, "token", "v2").unwrap();
    let all = entry::select_all(&d, TableId::Backup).unwrap();
    assert_eq!(all.len(), 1);
    assert_eq!(all[0].data, "v2");
}

#[test]
fn insert_all_stops_at_first_conflict() {
    let mut d = fresh_with(TableId::Feedback);
    let es = vec![
        ComEntry::new("a", "1"),
        ComEntry::new("b", "2"),
        ComEntry::new("a", "3"),
        ComEntry::new("c", "4"),
    ];
    let (n, r) = entry::insert_all(&mut d, TableId::Feedback, es);
    assert_eq!(n, 2);
    assert!(matches!(r, Err(StoreError::ConstraintViolation)));
    assert_eq!(entry::select_all(&d, TableId::Feedback).unwrap().len(), 2);
    let (n, r) = entry::insert_all(&mut d, TableId::Feedback, vec![]);
    assert_eq!(n, 0);
    assert!(r.is_ok());
}

#[test]
fn operations_on_missing_table_fail() {
    let mut d = Database::new();
    assert!(matches!(
        entry::insert(&mut d, TableId::Feedback, "a", "b"),
        Err(StoreError::Io(_))
    ));
    assert!(matches!(
        entry::select_all(&d, TableId::Feedback),
        Err(StoreError::Io(_))
    ));
    assert!(!entry::is_exist(&d, TableId::Feedback, "a"));
}

#[test]
fn create_is_idempotent() {
    let mut d = fresh_with(TableId::Feedback);
    entry::insert(&mut d, TableId::Feedback, "a", "b").unwrap();
    entry::new(&mut d, TableId::Feedback).unwrap();
    assert_eq!(entry::select_all(&d, TableId::Feedback).unwrap().len(), 1);
}

#[test]
fn table_level_operations() {
    let mut t = Table::new(true);
    assert!(t.unique_data());
    t.insert("u1", "d").unwrap();
    assert!(t.insert("u2", "d").is_err());
    assert_eq!(t.len(), 1);
    t.delete("u1");
    assert_eq!(t.len(), 0);
    assert!(!t.is_exist("u1"));
}

#[test]
fn table_names_and_policies() {
    assert_eq!(TableId::Feedback.name(), "rssbox_android_feedback");
    assert_eq!(TableId::RssCn.name(), "rssbox_android_rss_cn");
    assert_eq!(TableId::RssEn.name(), "rssbox_android_rss_en");
    assert!(TableId::RssCn.unique_data());
    assert!(TableId::RssEn.unique_data());
    assert!(!TableId::Feedback.unique_data());
    assert_eq!(TableId::all().len(), 5);
}

#[test]
fn sql_statements() {
    assert_eq!(
        sql::create_table(TableId::RssCn, true),
        "CREATE TABLE IF NOT EXISTS rssbox_android_rss_cn (id INTEGER PRIMARY KEY, uuid TEXT NOT NULL UNIQUE, data TEXT NOT NULL UNIQUE)"
    );
    assert_eq!(
        sql::create_table(TableId::Feedback, false),
        "CREATE TABLE IF NOT EXISTS rssbox_android_feedback (id INTEGER PRIMARY KEY, uuid TEXT NOT NULL UNIQUE, data TEXT NOT NULL)"
    );
    assert_eq!(
        sql::insert(TableId::Versions),
        "INSERT INTO versions (uuid, data) VALUES (?, ?)"
    );
    assert_eq!(sql::delete_all(TableId::Versions), "DELETE FROM versions");
    assert_eq!(sql::drop_table(TableId::Backup), "DROP TABLE rssbox_android_backup");
    assert_eq!(
        sql::select_all(TableId::Feedback),
        "SELECT uuid, data FROM rssbox_android_feedback ORDER BY id"
    );
}

#[test]
fn rss_table_by_language() {
    assert_eq!(db::rss_table("cn"), TableId::RssCn);
    assert_eq!(db::rss_table("en"), TableId::RssEn);
    assert_eq!(db::rss_table("fr"), TableId::RssEn);
}

#[test]
fn backend_outcomes() {
    assert!(matches!(store_error(BackendFailure::RowNotFound), StoreError::NotFound));
    assert!(matches!(
        store_error(BackendFailure::UniqueViolation),
        StoreError::ConstraintViolation
    ));
    assert!(matches!(
        store_error(BackendFailure::Other("locked".to_string())),
        StoreError::Io(m) if m == "locked"
    ));
    assert!(matches!(update_result(0), Err(StoreError::NotFound)));
    assert!(update_result(1).is_ok());
}
