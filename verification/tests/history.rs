use clippin::clipboard::{ClipboardItem, ContentType};
use clippin::history::{any_contains, item_matches_query, History};

fn item(id: u64, text: &str, pinned: bool) -> ClipboardItem {
    ClipboardItem {
        id,
        content_type: ContentType::Text,
        content_text: Some(text.to_string()),
        content_rtf: None,
        content_html: None,
        content_image: None,
        content_file_paths: None,
        content_url: None,
        source_app_bundle_id: None,
        is_pinned: pinned,
        created_at: format!("t{}", id),
        hash: format!("h-{}", text),
        preview: text.to_string(),
    }
}

fn ids(h: &History) -> Vec<u64> {
    h.items().iter().map(|i| i.id).collect()
}

fn filled(max: usize, items: Vec<ClipboardItem>) -> History {
    let mut h = History::new(max);
    h.replace_all(items);
    h
}

#[test]
fn capacity_is_at_least_one() {
    let mut h = History::new(0);
    assert!(h.is_empty());
    h.push_front(item(1, "a", false));
    h.push_front(item(2, "b", false));
    assert_eq!(ids(&h), vec![2]);
    assert_eq!(h.len(), 1);
}

#[test]
fn replacing_keeps_the_newest() {
    let h = filled(2, vec![item(1, "a", false), item(2, "b", false), item(3, "c", true)]);
    assert_eq!(ids(&h), vec![1, 2]);
}

#[test]
fn newest_first_and_oldest_unpinned_leaves() {
    let mut h = filled(3, vec![item(3, "c", false), item(2, "b", false), item(1, "a", true)]);
    h.push_front(item(4, "d", false));
    assert_eq!(ids(&h), vec![4, 3, 1]);
}

#[test]
fn all_pinned_drives_out_the_new_one_or_the_oldest() {
    let mut h = filled(2, vec![item(2, "b", true), item(1, "a", true)]);
    h.push_front(item(3, "c", false));
    assert_eq!(ids(&h), vec![2, 1]);
    h.push_front(item(4, "d", true));
    assert_eq!(ids(&h), vec![4, 2]);
}

#[test]
fn repeated_capture_refreshes_the_front() {
    let mut h = filled(3, vec![item(2, "b", true), item(1, "a", false)]);
    let mut again = item(9, "b", false);
    again.preview = "other".into();
    h.push_front(again);
    assert_eq!(ids(&h), vec![9, 1]);
    let front = h.get(9).unwrap();
    assert_eq!(front.created_at, "t9");
    assert_eq!(front.preview, "b");
    assert!(front.is_pinned);
    h.push_front(item(10, "a", false));
    assert_eq!(ids(&h), vec![10, 9, 1]);
}

#[test]
fn pins_come_first_and_keep_their_order() {
    let mut h = filled(
        9,
        vec![item(1, "a", false), item(2, "b", true), item(3, "c", false), item(4, "d", false)],
    );
    assert!(h.set_pinned(4, true));
    assert_eq!(ids(&h), vec![2, 4, 1, 3]);
    assert!(h.set_pinned(2, false));
    assert_eq!(ids(&h), vec![4, 2, 1, 3]);
    assert!(!h.set_pinned(77, true));
    assert_eq!(h.len(), 4);
}

#[test]
fn removal() {
    let mut h = filled(
        9,
        vec![item(1, "a", false), item(2, "b", true), item(1, "c", false), item(4, "d", false)],
    );
    assert!(h.remove(1));
    assert_eq!(ids(&h), vec![2, 4]);
    assert!(!h.remove(1));
    h.remove_many(&[]);
    assert_eq!(h.len(), 2);
    h.remove_many(&[4, 5]);
    assert_eq!(ids(&h), vec![2]);
    assert!(h.get(4).is_none());
}

#[test]
fn clearing_keeps_pinned_items() {
    let mut h = filled(9, vec![item(1, "a", false), item(2, "b", true), item(3, "c", false)]);
    h.clear_unpinned();
    assert_eq!(ids(&h), vec![2]);
    h.clear_all();
    assert!(h.is_empty());
}

#[test]
fn search_ignores_case() {
    let h = filled(9, vec![item(1, "Größe", false), item(2, "hello WORLD", false)]);
    let found = |q: &str| h.filter(q).iter().map(|i| i.id).collect::<Vec<u64>>();
    assert_eq!(found("GRÖSSE"), Vec::<u64>::new());
    assert_eq!(found("GRÖ"), vec![1]);
    assert_eq!(found(" world "), vec![2]);
    assert_eq!(found("O W"), vec![2]);
    assert_eq!(found("   "), vec![1, 2]);
    assert_eq!(found("zzz"), Vec::<u64>::new());
    assert_eq!(found("HELLO world"), found("hello WORLD"));
    assert_eq!(found("\tlo w\n"), found("lo w"));
}

#[test]
fn longer_queries_find_no_more() {
    let h = filled(9, vec![item(1, "abc", false), item(2, "AB", false), item(3, "bc", true)]);
    let found = |q: &str| h.filter(q).iter().map(|i| i.id).collect::<Vec<u64>>();
    assert_eq!(found("b"), vec![1, 2, 3]);
    assert_eq!(found("aB"), vec![1, 2]);
    assert_eq!(found("ABC"), vec![1]);
}

#[test]
fn search_looks_at_all_texts() {
    let mut i = item(1, "x", false);
    i.content_text = None;
    i.content_html = Some("<B>Bold</B>".into());
    i.content_url = Some("HTTPS://Example.org".into());
    i.content_file_paths = Some(vec!["/tmp/A".into(), "/Users/Me".into()]);
    for q in ["x", "<b>bold", "example", "/users/me", "/tmp/a"] {
        assert!(item_matches_query(&i, q), "{}", q);
    }
    assert!(!item_matches_query(&i, "BOLD"));
    let h = filled(9, vec![i.clone()]);
    for q in ["X", "example", "/USERS/me", "/tmp/a"] {
        assert_eq!(h.filter(q).len(), 1, "{}", q);
    }
    assert!(h.filter("bold").is_empty());
    assert!(!item_matches_query(&i, "nothing"));
    assert!(any_contains(&["abc".to_string()], "bc") && !any_contains(&[], ""));
}
