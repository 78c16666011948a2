use clippin::privacy::{
    inspect_pasteboard, inspect_types, is_sensitive, log_skipped, nsstring_is_marker,
    status_message, PrivacyMarkers, TypeProbe, CONCEALED_TYPE, TRANSIENT_TYPE,
};

#[test]
fn detects_concealed() {
    let types: Vec<String> = vec!["public.utf8-plain-text".into(), CONCEALED_TYPE.into()];
    let m = inspect_types(&types);
    assert!(m.concealed);
    assert!(!m.transient);
    assert!(m.is_sensitive());
    assert!(is_sensitive(&types));
}

#[test]
fn detects_transient() {
    let types: Vec<String> = vec![TRANSIENT_TYPE.into(), "public.utf8-plain-text".into()];
    let m = inspect_types(&types);
    assert!(!m.concealed);
    assert!(m.transient);
    assert!(m.is_sensitive());
}

#[test]
fn detects_both() {
    let types: Vec<String> = vec![
        CONCEALED_TYPE.into(),
        TRANSIENT_TYPE.into(),
        "public.utf8-plain-text".into(),
    ];
    let m = inspect_types(&types);
    assert!(m.concealed && m.transient && m.is_sensitive());
    assert_eq!(m.describe(), "ConcealedType + TransientType");
}

#[test]
fn normal_types_not_sensitive() {
    let types: Vec<String> = vec![
        "public.utf8-plain-text".into(),
        "public.html".into(),
        "public.tiff".into(),
    ];
    assert!(!is_sensitive(&types));
    assert!(!inspect_types(&types).is_sensitive());
}

#[test]
fn empty_types_not_sensitive() {
    assert!(!is_sensitive(&[]));
}

#[test]
fn marker_names_match_exactly() {
    assert_eq!(CONCEALED_TYPE, "org.nspasteboard.ConcealedType");
    assert_eq!(TRANSIENT_TYPE, "org.nspasteboard.TransientType");
    assert!(nsstring_is_marker("org.nspasteboard.ConcealedType"));
    assert!(nsstring_is_marker("org.nspasteboard.TransientType"));
    assert!(!nsstring_is_marker("org.nspasteboard.concealedtype"));
    assert!(!is_sensitive(&["ORG.NSPASTEBOARD.CONCEALEDTYPE".to_string()]));
}

#[test]
fn marker_available_on_request_is_found() {
    let none = TypeProbe {
        types: vec!["public.html".to_string()],
        first_available: None,
        concealed_available: false,
        transient_available: false,
    };
    assert_eq!(inspect_pasteboard(&none), PrivacyMarkers::default());

    let first = TypeProbe { first_available: Some(TRANSIENT_TYPE.to_string()), ..none };
    let m = inspect_pasteboard(&first);
    assert!(m.transient && !m.concealed);

    let second = TypeProbe { first_available: None, concealed_available: true, ..first };
    let m = inspect_pasteboard(&second);
    assert!(m.concealed && !m.transient);

    let third = TypeProbe { transient_available: true, ..second };
    let m = inspect_pasteboard(&third);
    assert!(m.concealed && m.transient);
}

#[test]
fn messages_name_the_markers_only() {
    let m = PrivacyMarkers { concealed: true, transient: false };
    assert_eq!(status_message(m), "Last copy skipped (privacy: ConcealedType)");
    assert_eq!(
        log_skipped(m),
        "privacy: skipped clipboard change (ConcealedType) — content not stored"
    );
    let m = PrivacyMarkers { concealed: false, transient: true };
    assert_eq!(status_message(m), "Last copy skipped (privacy: TransientType)");
    assert_eq!(PrivacyMarkers::default().describe(), "none");
}
