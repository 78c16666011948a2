use clippin::capture::{extract_clipboard_item, PasteboardReads};
use clippin::clipboard::{ClipboardItem, ContentType};
use clippin::storage::{
    escape_like, row_to_item, row_with_paths, RowAge, SqlValue, Statement, Storage, StoredRow,
    LOWER_FUNCTION, SCHEMA_SQL,
};
use clippin::text::lower_text;
use rusqlite::functions::FunctionFlags;
use rusqlite::types::Value;
use rusqlite::{params_from_iter, Connection, Row};

fn values(params: &[SqlValue]) -> Vec<Value> {
    params
        .iter()
        .map(|p| match p {
            SqlValue::Null => Value::Null,
            SqlValue::Integer(n) => Value::Integer(*n),
            SqlValue::Unsigned(n) => Value::Integer(*n as i64),
            SqlValue::Text(s) => Value::Text(s.clone()),
            SqlValue::Blob(b) => Value::Blob(b.clone()),
        })
        .collect()
}

fn open() -> Connection {
    let conn = Connection::open_in_memory().unwrap();
    conn.create_scalar_function(LOWER_FUNCTION, 1, FunctionFlags::SQLITE_UTF8, |c| {
        Ok(c.get::<Option<String>>(0)?.map(|s| lower_text(&s)))
    })
    .unwrap();
    conn.execute_batch(SCHEMA_SQL).unwrap();
    conn
}

fn execute(conn: &Connection, s: &Statement) -> usize {
    conn.execute(s.sql, params_from_iter(values(&s.params))).unwrap()
}

fn row(r: &Row) -> rusqlite::Result<StoredRow> {
    Ok(StoredRow {
        id: r.get(0)?,
        content_text: r.get(1)?,
        content_rtf: r.get(2)?,
        content_html: r.get(3)?,
        content_image: r.get(4)?,
        content_file_paths: r.get(5)?,
        content_url: r.get(6)?,
        source_app_bundle_id: r.get(7)?,
        content_type: r.get(8)?,
        is_pinned: r.get(9)?,
        created_at: r.get(10)?,
        hash: r.get(11)?,
    })
}

fn items(conn: &Connection, s: &Statement) -> Vec<ClipboardItem> {
    let mut stmt = conn.prepare(s.sql).unwrap();
    let rows = stmt.query_map(params_from_iter(values(&s.params)), row).unwrap();
    rows.map(|r| row_to_item(r.unwrap())).collect()
}

fn insert(conn: &Connection, item: &ClipboardItem, now_ms: u64) -> (u64, String) {
    let plan = Storage::insert_item(item, now_ms).unwrap();
    assert_eq!(execute(conn, &plan.statement), 1);
    Storage::inserted(plan, conn.last_insert_rowid())
}

fn latest(conn: &Connection) -> Option<(u64, String)> {
    let s = Storage::latest();
    let mut stmt = conn.prepare(s.sql).unwrap();
    let mut rows = stmt.query([]).unwrap();
    rows.next().unwrap().map(|r| (r.get(0).unwrap(), r.get(1).unwrap()))
}

fn ages(conn: &Connection, days: i64) -> Vec<RowAge> {
    let s = Storage::ages(days);
    let mut stmt = conn.prepare(s.sql).unwrap();
    let rows = stmt
        .query_map(params_from_iter(values(&s.params)), |r| {
            Ok(RowAge { id: r.get(0)?, pin: r.get(1)?, expired: r.get(2)? })
        })
        .unwrap();
    rows.map(|r| r.unwrap()).collect()
}

fn sample_item(text: &str, hash: &str) -> ClipboardItem {
    ClipboardItem {
        id: 0,
        content_type: ContentType::Text,
        content_text: Some(text.to_string()),
        content_rtf: None,
        content_html: None,
        content_image: None,
        content_file_paths: None,
        content_url: None,
        source_app_bundle_id: None,
        is_pinned: false,
        created_at: String::new(),
        hash: hash.to_string(),
        preview: text.to_string(),
    }
}

const NOW: u64 = 1_700_000_000_000;

#[test]
fn insert_query_dedup_and_prune() {
    let conn = open();

    let (id1, _) = insert(&conn, &sample_item("hello", "h1"), NOW);
    assert!(id1 > 0);
    let hash: String =
        conn.query_row(Storage::latest_hash().sql, [], |r| r.get(0)).unwrap();
    assert_eq!(hash, "h1");

    // Consecutive same hash → touch, no new row
    let touch = Storage::touch_latest_if_hash(&latest(&conn), "h1", NOW + 1000).unwrap();
    assert_eq!(touch.id, id1);
    assert_eq!(execute(&conn, &touch.statement), 1);
    assert_eq!(items(&conn, &Storage::recent_items(10)).len(), 1);
    assert_eq!(items(&conn, &Storage::get_item(id1))[0].created_at, "2023-11-14T22:13:21.000Z");

    let (id2, _) = insert(&conn, &sample_item("world", "h2"), NOW + 2000);
    assert_ne!(id1, id2);
    assert_eq!(items(&conn, &Storage::recent_items(10)).len(), 2);

    let found = items(&conn, &Storage::search_items("hel", 10));
    assert_eq!(found.len(), 1);
    assert_eq!(found[0].content_text.as_deref(), Some("hello"));

    // Pin + delete
    execute(&conn, &Storage::set_pinned(id1, true));
    let pinned = items(&conn, &Storage::get_item(id1)).remove(0);
    assert!(pinned.is_pinned);
    assert!(execute(&conn, &Storage::delete_item(id2)) > 0);
    assert!(items(&conn, &Storage::get_item(id2)).is_empty());
    // Pinned row still present
    assert!(!items(&conn, &Storage::get_item(id1)).is_empty());
}

#[test]
fn other_fingerprint_is_not_touched() {
    assert!(Storage::touch_latest_if_hash(&None, "h", NOW).is_none());
    assert!(Storage::touch_latest_if_hash(&Some((1, "x".into())), "h", NOW).is_none());
}

#[test]
fn stored_items_read_back() {
    let conn = open();
    let capture = extract_clipboard_item(PasteboardReads {
        text: None,
        html: None,
        rtf: None,
        url: Some("https://x.org".into()),
        file_url: None,
        filenames: Some(vec![Some("/a \"b\"\\".into()), Some("/ü".into())]),
        image: Some(vec![0, 1, 255]),
        thumbnail: None,
    })
    .unwrap();
    let (id, created_at) = insert(&conn, &capture, NOW);
    assert_eq!(created_at, "2023-11-14T22:13:20.000Z");
    let back = items(&conn, &Storage::get_item(id)).remove(0);
    let expected = ClipboardItem { id, created_at, ..capture };
    assert_eq!(format!("{:?}", back), format!("{:?}", expected));
}

#[test]
fn given_timestamp_is_kept() {
    let mut item = sample_item("a", "h");
    item.created_at = "2020-01-01T00:00:00.000Z".into();
    item.is_pinned = true;
    let plan = Storage::insert_item(&item, NOW).unwrap();
    assert_eq!(plan.created_at, "2020-01-01T00:00:00.000Z");
    assert!(matches!(plan.statement.params[8], SqlValue::Integer(1)));
    assert!(matches!(plan.statement.params[4], SqlValue::Null));
}

#[test]
fn paths_are_stored_as_json() {
    let mut item = sample_item("a", "h");
    item.content_file_paths = Some(vec!["/a".into(), "b\"c".into()]);
    let plan = Storage::insert_item(&item, NOW).unwrap();
    match &plan.statement.params[4] {
        SqlValue::Text(s) => assert_eq!(s, "[\"/a\",\"b\\\"c\"]"),
        other => panic!("{:?}", other),
    }
}

fn stored(paths: Option<&str>) -> StoredRow {
    StoredRow {
        id: 1,
        content_text: None,
        content_rtf: None,
        content_html: None,
        content_image: None,
        content_file_paths: paths.map(|s| s.to_string()),
        content_url: None,
        source_app_bundle_id: None,
        content_type: "file".into(),
        is_pinned: 2,
        created_at: "t".into(),
        hash: "h".into(),
    }
}

#[test]
fn unreadable_paths_are_left_out() {
    for bad in [None, Some(""), Some("no json"), Some("[1]"), Some("{}")] {
        let item = row_to_item(stored(bad));
        assert_eq!(item.content_file_paths, None);
        assert_eq!(item.preview, "[Files]");
        assert!(item.is_pinned);
    }
    let item = row_to_item(stored(Some(" [\"/x\" , \"/y\"] ")));
    assert_eq!(item.preview, "2 files: /x");
    let item = row_with_paths(stored(None), Some(vec!["/z".into()]));
    assert_eq!(item.preview, "/z");
}

#[test]
fn search_takes_wildcards_literally() {
    assert_eq!(escape_like("50%_\\x"), "50\\%\\_\\\\x");
    let conn = open();
    for (i, t) in ["100%", "100x", "a_b", "axb", "c\\d", "ABC"].iter().enumerate() {
        insert(&conn, &sample_item(t, &format!("h{}", i)), NOW + i as u64 * 1000);
    }
    let found = |q: &str| {
        items(&conn, &Storage::search_items(q, 10))
            .iter()
            .map(|i| i.content_text.clone().unwrap())
            .collect::<Vec<String>>()
    };
    assert_eq!(found("0%"), vec!["100%"]);
    assert_eq!(found("a_b"), vec!["a_b"]);
    assert_eq!(found("\\"), vec!["c\\d"]);
    assert_eq!(found("abc"), vec!["ABC"]);
}

#[test]
fn search_of_the_store_ignores_case() {
    let conn = open();
    insert(&conn, &sample_item("Größe", "h1"), NOW);
    let mut other = sample_item("x", "h2");
    other.content_text = None;
    other.content_html = Some("<B>ÄTNA</B>".into());
    other.content_file_paths = Some(vec!["/Tmp/É".into()]);
    insert(&conn, &other, NOW + 1000);
    let found = |q: &str| {
        items(&conn, &Storage::search_items(q, 10)).iter().map(|i| i.id).collect::<Vec<u64>>()
    };
    assert_eq!(found("GRÖ"), vec![1]);
    assert_eq!(found("größe"), vec![1]);
    assert_eq!(found("ätna"), vec![2]);
    assert_eq!(found("/TMP/é"), vec![2]);
    assert_eq!(found("zzz"), Vec::<u64>::new());
    let params = Storage::search_items("A%B", 3).params;
    assert_eq!(params.len(), 3);
    match &params[0] {
        SqlValue::Text(s) => assert_eq!(s, "%a\\%b%"),
        other => panic!("{:?}", other),
    }
    match &params[2] {
        SqlValue::Text(s) => assert_eq!(s, "%A\\%B%"),
        other => panic!("{:?}", other),
    }
}

#[test]
fn search_of_the_store_finds_texts_as_they_stand() {
    let conn = open();
    insert(&conn, &sample_item("ΑΣ", "h1"), NOW);
    insert(&conn, &sample_item("ΑΣΑ", "h2"), NOW + 1000);
    let found = |q: &str| {
        items(&conn, &Storage::search_items(q, 10)).iter().map(|i| i.id).collect::<Vec<u64>>()
    };
    assert_eq!(found("Σ"), vec![2, 1]);
    assert_eq!(found("ΑΣ"), vec![2, 1]);
    assert_eq!(found("ΑΣΑ"), vec![2]);
    assert_eq!(found("ασα"), vec![2]);
}

#[test]
fn every_insertion_adds_a_row_with_a_new_id() {
    let conn = open();
    let (a, _) = insert(&conn, &sample_item("a", "same"), NOW);
    let (b, _) = insert(&conn, &sample_item("a", "same"), NOW);
    execute(&conn, &Storage::delete_item(b));
    let (c, stamp) = insert(&conn, &sample_item("c", "same"), NOW);
    assert!(0 < a && a < b && b < c);
    assert_eq!(stamp, "2023-11-14T22:13:20.000Z");
    assert_eq!(items(&conn, &Storage::recent_items(10)).len(), 2);
}

#[test]
fn lists_are_ordered_and_limited() {
    let conn = open();
    for i in 0..4u64 {
        insert(&conn, &sample_item(&format!("{}", i), &format!("h{}", i)), NOW + i * 1000);
    }
    execute(&conn, &Storage::set_pinned(1, true));
    let ids = |s: &Statement| items(&conn, s).iter().map(|i| i.id).collect::<Vec<u64>>();
    assert_eq!(ids(&Storage::recent_items(3)), vec![1, 4, 3]);
    assert_eq!(ids(&Storage::items_by_type(ContentType::Text, 2)), vec![4, 3]);
    assert_eq!(ids(&Storage::items_by_type(ContentType::Url, 2)), Vec::<u64>::new());
    for s in Storage::delete_items(&[2, 9]) {
        execute(&conn, &s);
    }
    assert_eq!(ids(&Storage::recent_items(9)), vec![1, 4, 3]);
    assert!(Storage::delete_items(&[]).is_empty());
    assert_eq!(execute(&conn, &Storage::clear_unpinned()), 2);
    assert_eq!(ids(&Storage::recent_items(9)), vec![1]);
    assert_eq!(execute(&conn, &Storage::clear_all()), 1);
}

#[test]
fn settings_are_replaced() {
    let conn = open();
    execute(&conn, &Storage::set_setting("k", "1"));
    execute(&conn, &Storage::set_setting("k", "2"));
    let s = Storage::get_setting("k");
    let v: String =
        conn.query_row(s.sql, params_from_iter(values(&s.params)), |r| r.get(0)).unwrap();
    assert_eq!(v, "2");
    assert_eq!(Storage::open_path("/x/clippin.db").path(), "/x/clippin.db");
}

#[test]
fn pruning_by_age_spares_pinned_rows() {
    let conn = open();
    insert(&conn, &sample_item("old", "h1"), 1_000);
    insert(&conn, &sample_item("old pinned", "h2"), 2_000);
    let mut odd = sample_item("unreadable", "h3");
    odd.created_at = "no date".into();
    insert(&conn, &odd, 0);
    let mut new = sample_item("new", "h4");
    new.created_at = "2999-01-01T00:00:00.000Z".into();
    insert(&conn, &new, 0);
    execute(&conn, &Storage::set_pinned(2, true));

    let plan = Storage::prune(&ages(&conn, 30), 30, 100);
    assert_eq!(plan.expired, vec![1]);
    assert!(plan.surplus.is_empty());

    let plan = Storage::prune(&ages(&conn, 0), 0, 100);
    assert!(plan.expired.is_empty() && plan.surplus.is_empty());

    // Rows without a readable time count as the oldest.
    let plan = Storage::prune(&ages(&conn, 30), 30, 1);
    assert_eq!(plan.expired, vec![1]);
    assert_eq!(plan.surplus, vec![3]);
    for s in Storage::delete_items(&plan.surplus) {
        execute(&conn, &s);
    }
    let plan = Storage::prune(&ages(&conn, 30), 30, 0);
    assert_eq!((plan.expired, plan.surplus), (vec![1], vec![4]));
}

#[test]
fn pruning_by_count_takes_the_oldest() {
    let row = |id, pin| RowAge { id, pin, expired: Some(false) };
    let rows = [row(1, 1), row(2, 0), row(3, 0), row(4, 1), row(5, 0)];
    assert_eq!(Storage::prune(&rows, 30, 2).surplus, vec![2]);
    assert_eq!(Storage::prune(&rows, 30, 0).surplus, vec![2, 3, 5]);
    assert!(Storage::prune(&rows, 30, 3).surplus.is_empty());
    assert!(Storage::prune(&rows, 0, usize::MAX).surplus.is_empty());
    match &Storage::ages(7).params[0] {
        SqlValue::Text(s) => assert_eq!(s, "-7 days"),
        other => panic!("{:?}", other),
    }
    assert!(matches!(Storage::ages(0).params[0], SqlValue::Null));
}
