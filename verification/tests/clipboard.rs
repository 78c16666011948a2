use clippin::clipboard::{file_preview, truncate_preview, ClipboardItem, ContentType};
use clippin::digest::{hex_encode, sha256_hex, sort_texts, text_at_most};

const KINDS: [ContentType; 6] = [
    ContentType::Text,
    ContentType::Rtf,
    ContentType::Html,
    ContentType::Image,
    ContentType::File,
    ContentType::Url,
];

fn strings(list: &[&str]) -> Vec<String> {
    list.iter().map(|s| s.to_string()).collect()
}

#[test]
fn kinds_read_back_from_their_names() {
    for k in KINDS {
        assert_eq!(ContentType::from_str_lossy(k.as_str()), k);
    }
    assert_eq!(ContentType::from_str_lossy("URL"), ContentType::Text);
    assert_eq!(ContentType::from_str_lossy(""), ContentType::Text);
}

#[test]
fn kinds_have_labels_and_symbols() {
    let labels: Vec<&str> = KINDS.iter().map(|k| k.label()).collect();
    assert_eq!(labels, vec!["TXT", "RTF", "HTML", "IMG", "FILE", "URL"]);
    let symbols: Vec<&str> = KINDS.iter().map(|k| k.sf_symbol()).collect();
    assert_eq!(
        symbols,
        vec![
            "text.alignleft",
            "doc.richtext",
            "chevron.left.forwardslash.chevron.right",
            "photo",
            "doc",
            "link"
        ]
    );
    let names: Vec<&str> = KINDS.iter().map(|k| k.as_str()).collect();
    assert_eq!(names, vec!["text", "rtf", "html", "image", "file", "url"]);
}

#[test]
fn previews_are_one_line() {
    assert_eq!(truncate_preview(" a\nb\r\nc \t"), "a b  c");
    let long = "x".repeat(121);
    let cut = truncate_preview(&long);
    assert_eq!(cut.chars().count(), 120);
    assert!(cut.ends_with("x…"));
    assert_eq!(truncate_preview(&"x".repeat(120)), "x".repeat(120));
}

#[test]
fn previews_of_files() {
    assert_eq!(file_preview(&[]), "[Files]");
    assert_eq!(file_preview(&strings(&["/a/b.txt"])), "/a/b.txt");
    assert_eq!(file_preview(&strings(&["/a", "/b", "/c"])), "3 files: /a");
}

#[test]
fn previews_by_kind() {
    let make = |k, text, html, url, files: Option<&[String]>| {
        ClipboardItem::make_preview(k, text, html, url, files, true, true)
    };
    assert_eq!(make(ContentType::Text, Some(" hi "), None, None, None), "hi");
    assert_eq!(make(ContentType::Text, None, Some("<b>"), None, None), "");
    assert_eq!(make(ContentType::Rtf, Some(""), None, None, None), "[Rich Text]");
    assert_eq!(make(ContentType::Rtf, Some("rich"), None, None, None), "rich");
    assert_eq!(make(ContentType::Rtf, None, None, None, None), "[Rich Text]");
    assert_eq!(make(ContentType::Html, Some("t"), Some("<b>"), None, None), "<b>");
    assert_eq!(make(ContentType::Html, Some("t"), None, None, None), "t");
    assert_eq!(make(ContentType::Html, None, None, None, None), "[HTML]");
    assert_eq!(make(ContentType::Image, Some("t"), None, None, None), "[Image]");
    assert_eq!(make(ContentType::File, None, None, None, None), "[Files]");
    assert_eq!(make(ContentType::File, None, None, None, Some(&strings(&["/x"]))), "/x");
    assert_eq!(make(ContentType::Url, Some("t"), None, Some("u"), None), "u");
    assert_eq!(make(ContentType::Url, None, None, None, None), "[URL]");
}

#[test]
fn hexadecimal_form() {
    assert_eq!(hex_encode(&[0x00, 0x0f, 0xa0, 0xff]), "000fa0ff");
    assert_eq!(hex_encode(&[]), "");
}

#[test]
fn digests_are_those_of_sha256() {
    assert_eq!(
        sha256_hex(b""),
        "e3b0c44298fc1c149afbf4c8996fb92427ae41e4649b934ca495991b7852b855"
    );
    assert_eq!(
        sha256_hex(b"abc"),
        "ba7816bf8f01cfea414140de5dae2223b00361a396177a9cb410ff61f20015ad"
    );
}

#[test]
fn texts_are_sorted_by_bytes() {
    let mut list = strings(&["b", "a", "", "ä", "a", "z", "Z", "a/b", "\u{ffff}", "\u{10000}"]);
    let sorted = sort_texts(&list);
    list.sort();
    assert_eq!(sorted, list);
    assert!(text_at_most("a", "a") && text_at_most("a", "ab") && !text_at_most("b", "ab"));
}

#[test]
fn fingerprints_of_known_content() {
    assert_eq!(
        ClipboardItem::compute_hash(ContentType::Text, Some("hello"), None, None, None, None, None),
        "cb6047055b0ca889140db9e14c3ae92bb6538c5379176ed1d3d4dd8df189f629"
    );
    assert_eq!(
        ClipboardItem::compute_hash(ContentType::Text, None, None, None, None, None, None),
        "7f1d16ff69bf49974d50778da81e19b6319d7510bc37b6538b34025ece9d653b"
    );
    assert_eq!(
        ClipboardItem::compute_hash(
            ContentType::Url,
            Some("  "),
            None,
            None,
            None,
            None,
            Some("https://x.org")
        ),
        "28ea72eef22fbe40e968b9bedff088ba066c86c21cb69c89959806687280c8ae"
    );
    assert_eq!(
        ClipboardItem::compute_hash(
            ContentType::Rtf,
            Some("hi"),
            Some(&[1, 2]),
            None,
            None,
            None,
            None
        ),
        "4e81778498ef8bcdc3247f942ace77a2d76e1b63ceae33a725a96044a3fc153f"
    );
    assert_eq!(
        ClipboardItem::compute_hash(ContentType::Html, Some("plain"), None, None, None, None, None),
        "3bf679cfb982598efdad2fe36c0ff4012b15b9f39749c666f6ff6ac21c01cd1d"
    );
    assert_eq!(
        ClipboardItem::compute_hash(
            ContentType::Image,
            None,
            Some(&[1]),
            None,
            Some(&[9]),
            None,
            None
        ),
        "d2f5be77a3af76edd6606ab48f311c984981b79b207bfd9f043ec3ef4ecc07f8"
    );
}

#[test]
fn fingerprint_ignores_the_order_of_files() {
    let hash = |files: &[String]| {
        ClipboardItem::compute_hash(ContentType::File, None, None, None, None, Some(files), None)
    };
    let a = hash(&strings(&["/b", "/a"]));
    assert_eq!(a, hash(&strings(&["/a", "/b"])));
    assert_eq!(a, "d247a9ac83a571146463279b149d2aae4666afe97a10845d60126d287d0fa623");
    assert_ne!(a, hash(&strings(&["/a", "/b", "/b"])));
}

#[test]
fn fingerprint_input_is_framed() {
    assert_eq!(
        ClipboardItem::fingerprint_input(
            ContentType::File,
            Some("t"),
            None,
            None,
            None,
            Some(&strings(&["b", "a"])),
            None
        ),
        b"file\xffa\x00b\x00\xfet".to_vec()
    );
}

#[test]
fn clones_hold_the_same() {
    let item = ClipboardItem {
        id: 3,
        content_type: ContentType::File,
        content_text: Some("t".into()),
        content_rtf: Some(vec![1]),
        content_html: None,
        content_image: Some(vec![]),
        content_file_paths: Some(strings(&["/a", "/b"])),
        content_url: Some("u".into()),
        source_app_bundle_id: Some("app".into()),
        is_pinned: true,
        created_at: "now".into(),
        hash: "h".into(),
        preview: "p".into(),
    };
    assert_eq!(format!("{:?}", item.clone()), format!("{:?}", item));
}
