use clippin::capture::{
    copy_item_to_pasteboard, extract_clipboard_item, extract_file_paths, extract_image_thumbnail,
    extract_url, nsarray_of_strings, wrote_anything, ClipboardPoller, PasteboardReads,
    PasteboardType, Payload, PollResult, PollStep,
};
use clippin::clipboard::{ClipboardItem, ContentType};
use clippin::privacy::PrivacyMarkers;

fn nothing() -> PasteboardReads {
    PasteboardReads {
        text: None,
        html: None,
        rtf: None,
        url: None,
        file_url: None,
        filenames: None,
        image: None,
        thumbnail: None,
    }
}

fn some(s: &str) -> Option<String> {
    Some(s.to_string())
}

fn kind_of(reads: PasteboardReads) -> Option<ContentType> {
    extract_clipboard_item(reads).map(|i| i.content_type)
}

#[test]
fn primary_kind_goes_by_rank() {
    let all = || PasteboardReads {
        text: some("t"),
        html: some("<b>"),
        rtf: Some(vec![1]),
        url: some("u"),
        file_url: some("file:///x"),
        filenames: None,
        image: Some(vec![2]),
        thumbnail: Some(vec![3]),
    };
    assert_eq!(kind_of(all()), Some(ContentType::Text));
    assert_eq!(kind_of(PasteboardReads { text: some(" \n"), ..all() }), Some(ContentType::Rtf));
    assert_eq!(
        kind_of(PasteboardReads { text: None, rtf: None, ..all() }),
        Some(ContentType::Html)
    );
    assert_eq!(
        kind_of(PasteboardReads { text: None, rtf: None, html: some(""), ..all() }),
        Some(ContentType::Image)
    );
    assert_eq!(
        kind_of(PasteboardReads { text: None, rtf: None, html: None, image: None, ..all() }),
        Some(ContentType::File)
    );
    assert_eq!(kind_of(PasteboardReads { url: some("u"), ..nothing() }), Some(ContentType::Url));
    assert_eq!(kind_of(PasteboardReads { text: some("  "), ..nothing() }), None);
    assert_eq!(kind_of(nothing()), None);
}

#[test]
fn capture_holds_what_was_read() {
    let item = extract_clipboard_item(PasteboardReads {
        text: some("hello"),
        html: some("<i>"),
        ..nothing()
    })
    .unwrap();
    assert_eq!(item.id, 0);
    assert_eq!(item.content_text.as_deref(), Some("hello"));
    assert_eq!(item.content_html.as_deref(), Some("<i>"));
    assert_eq!(item.preview, "hello");
    assert_eq!(item.created_at, "");
    assert!(!item.is_pinned);
    assert_eq!(item.source_app_bundle_id, None);
    assert_eq!(
        item.hash,
        "cb6047055b0ca889140db9e14c3ae92bb6538c5379176ed1d3d4dd8df189f629"
    );
}

#[test]
fn urls_of_captures() {
    assert_eq!(extract_url(&some("u"), &some("http://f")), some("u"));
    assert_eq!(extract_url(&some(""), &some("http://f")), some("http://f"));
    assert_eq!(extract_url(&None, &some("https://f")), some("https://f"));
    assert_eq!(extract_url(&None, &some("file:///f")), None);
    assert_eq!(extract_url(&None, &None), None);
}

#[test]
fn file_paths_of_captures() {
    let names = Some(vec![some("/a"), None, some("/b")]);
    let two = Some(vec!["/a".to_string(), "/b".to_string()]);
    assert_eq!(extract_file_paths(&names, &some("file:///c")), two);
    assert_eq!(
        extract_file_paths(&Some(vec![None]), &some("file:///c")),
        Some(vec!["/c".to_string()])
    );
    assert_eq!(extract_file_paths(&None, &some("/plain")), Some(vec!["/plain".to_string()]));
    assert_eq!(extract_file_paths(&None, &some("")), None);
    assert_eq!(extract_file_paths(&None, &None), None);
    assert_eq!(nsarray_of_strings(&[]), None);
    assert_eq!(nsarray_of_strings(&[some("x")]), Some(vec!["x".to_string()]));
}

#[test]
fn images_of_captures() {
    assert_eq!(extract_image_thumbnail(&None, &Some(vec![1])), None);
    assert_eq!(extract_image_thumbnail(&Some(vec![1]), &Some(vec![2])), Some(vec![2]));
    assert_eq!(extract_image_thumbnail(&Some(vec![1]), &None), None);
    assert_eq!(kind_of(PasteboardReads { image: Some(vec![1]), ..nothing() }), None);
}

#[test]
fn polling_looks_at_new_changes_only() {
    let mut p = ClipboardPoller::new(5);
    assert!(matches!(p.poll(5), PollStep::Done(PollResult::NoChange)));
    assert!(matches!(p.poll(6), PollStep::Inspect));
    assert!(matches!(p.poll(6), PollStep::Done(PollResult::NoChange)));
}

#[test]
fn copy_back_is_passed_over_once() {
    let mut p = ClipboardPoller::new(5);
    p.ignore_next_change();
    assert!(matches!(p.poll(5), PollStep::Done(PollResult::NoChange)));
    assert!(matches!(p.poll(7), PollStep::Done(PollResult::NoChange)));
    assert!(matches!(p.poll(8), PollStep::Inspect));
}

#[test]
fn marked_content_is_not_read() {
    let secret = PrivacyMarkers { concealed: true, transient: false };
    match ClipboardPoller::inspected(secret) {
        PollStep::Done(PollResult::SkippedPrivate(m)) => assert_eq!(m, secret),
        other => panic!("{:?}", other),
    }
    assert!(matches!(ClipboardPoller::inspected(PrivacyMarkers::default()), PollStep::Read));
    assert!(matches!(ClipboardPoller::read(nothing()), PollResult::EmptyOrUnsupported));
    match ClipboardPoller::read(PasteboardReads { url: some("u"), ..nothing() }) {
        PollResult::Captured(item) => assert_eq!(item.content_url.as_deref(), Some("u")),
        other => panic!("{:?}", other),
    }
}

fn kinds(item: &ClipboardItem) -> Vec<PasteboardType> {
    copy_item_to_pasteboard(item).iter().map(|w| w.kind).collect()
}

#[test]
fn copy_back_writes_every_representation() {
    let mut item = extract_clipboard_item(PasteboardReads {
        text: some("t"),
        html: some("h"),
        rtf: Some(vec![1]),
        url: some("u"),
        filenames: Some(vec![some("/a"), some("/b")]),
        image: Some(vec![2]),
        thumbnail: Some(vec![6]),
        ..nothing()
    })
    .unwrap();
    assert_eq!(
        kinds(&item),
        vec![
            PasteboardType::PlainText,
            PasteboardType::Html,
            PasteboardType::Rtf,
            PasteboardType::Png,
            PasteboardType::Url
        ]
    );
    item.content_text = None;
    let writes = copy_item_to_pasteboard(&item);
    assert_eq!(writes.len(), 6);
    assert_eq!(writes[2].fallback, Some(PasteboardType::Tiff));
    assert!(writes[4].always_counts);
    assert!(matches!(&writes[4].payload, Payload::Text(s) if s == "u"));
    assert!(matches!(&writes[5].payload, Payload::Text(s) if s == "/a\n/b"));
    assert!(wrote_anything(&writes, &[false, false, false, false, false, false]));
}

#[test]
fn copy_back_of_nothing_writes_nothing() {
    let mut item = extract_clipboard_item(PasteboardReads { text: some("t"), ..nothing() }).unwrap();
    let writes = copy_item_to_pasteboard(&item);
    assert!(!wrote_anything(&writes, &[false]));
    assert!(wrote_anything(&writes, &[true]));
    item.content_text = None;
    item.content_file_paths = Some(vec![]);
    assert!(kinds(&item).is_empty());
    assert!(!wrote_anything(&[], &[true]));
}
