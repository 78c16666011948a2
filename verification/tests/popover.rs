use clippin::clipboard::{ClipboardItem, ContentType};
use clippin::history::History;
use clippin::panel::{
    build_popover, build_settings_panel, row_frames, Frame, SettingsControl, POPOVER_HEIGHT,
    POPOVER_WIDTH,
};
use clippin::rows::{make_history_row, Element, ListMode};
use clippin::settings::{HotkeyPreset, Settings};
use clippin::status_item::{sender_item_id, ListView, PopoverAction, StatusItemController};

fn item(id: u64, text: &str, pinned: bool) -> ClipboardItem {
    ClipboardItem {
        id,
        content_type: ContentType::Url,
        content_text: Some(text.to_string()),
        content_rtf: None,
        content_html: None,
        content_image: None,
        content_file_paths: None,
        content_url: None,
        source_app_bundle_id: None,
        is_pinned: pinned,
        created_at: "1970-01-01T00:00:00.000Z".to_string(),
        hash: String::new(),
        preview: text.to_string(),
    }
}

#[test]
fn selection_is_kept_while_selecting() {
    let mut c = StatusItemController::create();
    assert!(!c.is_select_mode());
    c.set_select_mode(true);
    assert!(c.toggle_selection(3));
    assert!(c.toggle_selection(5));
    assert!(!c.toggle_selection(3));
    assert!(c.is_selected(5) && !c.is_selected(3));
    assert_eq!(c.selected_count(), 1);
    assert_eq!(c.selected_ids(), vec![5]);
    c.toggle_selection(9);
    let mut ids = c.selected_ids();
    ids.sort();
    assert_eq!(ids, vec![5, 9]);
    c.clear_selection();
    assert_eq!(c.selected_count(), 0);
    assert!(c.is_select_mode());
    c.toggle_selection(1);
    c.set_select_mode(false);
    assert!(c.selected_ids().is_empty());
}

#[test]
fn toolbar_follows_the_selection() {
    let mut c = StatusItemController::create();
    let t = c.refresh_toolbar_mode();
    assert!(t.browsing && !t.delete_enabled);
    assert_eq!(t.delete_title, "Delete");
    c.set_select_mode(true);
    c.toggle_selection(1);
    c.toggle_selection(2);
    let t = c.refresh_toolbar_mode();
    assert!(!t.browsing && t.delete_enabled);
    assert_eq!(t.delete_title, "Delete (2)");
}

#[test]
fn settings_panel_is_toggled() {
    let mut c = StatusItemController::create();
    assert!(c.show_history().is_none());
    let b = c.toggle_settings_panel();
    assert!(b.settings_shown);
    assert_eq!((b.symbol, b.fallback_title, b.tool_tip), ("xmark", "Close", "Back to history"));
    assert_eq!(
        c.toggle_popover(false, true),
        PopoverAction::Show { focus_search: false }
    );
    let b = c.show_history().unwrap();
    assert!(!b.settings_shown);
    assert_eq!((b.symbol, b.symbol_size), ("gearshape", 13));
    assert_eq!(c.toggle_popover(true, true), PopoverAction::Close);
    assert_eq!(c.toggle_popover(false, false), PopoverAction::Nothing);
    assert_eq!(c.toggle_popover(false, true), PopoverAction::Show { focus_search: true });
}

#[test]
fn menus_fall_back() {
    assert_eq!(StatusItemController::selected_poll_ms(-1), 250);
    assert_eq!(StatusItemController::selected_poll_ms(3), 2000);
    assert_eq!(StatusItemController::selected_poll_ms(4), 500);
    assert_eq!(StatusItemController::selected_retention_days(4), 0);
    assert_eq!(StatusItemController::selected_retention_days(5), 30);
    assert_eq!(StatusItemController::selected_history_limit(0), 100);
    assert_eq!(StatusItemController::selected_history_limit(9), 1000);
    assert_eq!(StatusItemController::selected_hotkey(3), HotkeyPreset::CtrlShiftV);
    assert_eq!(StatusItemController::selected_hotkey(-3), HotkeyPreset::CmdShiftV);
    let ui = StatusItemController::apply_settings_ui(&Settings::default());
    assert_eq!(
        (ui.poll_index, ui.retention_index, ui.history_limit_index, ui.hotkey_index),
        (1, 1, 2, 0)
    );
    assert_eq!(ui.hotkey_hint, "⌘⇧V");
}

#[test]
fn clicks_outside_dismiss() {
    assert!(StatusItemController::click_dismisses(true, false, false));
    assert!(!StatusItemController::click_dismisses(false, false, false));
    assert!(!StatusItemController::click_dismisses(true, true, false));
    assert!(!StatusItemController::click_dismisses(true, false, true));
}

#[test]
fn senders_and_notices() {
    assert_eq!(sender_item_id(Some(7), Some(8)), Some(7));
    assert_eq!(sender_item_id(Some(0), Some(8)), Some(8));
    assert_eq!(sender_item_id(None, Some(-8)), None);
    assert_eq!(sender_item_id(None, None), None);
    let line = StatusItemController::set_status_notice(Some("x"));
    assert!(line.text == "x" && !line.hidden);
    let line = StatusItemController::set_status_notice(None);
    assert!(line.text.is_empty() && line.hidden);
}

#[test]
fn rows_of_items() {
    let browse = ListMode { selecting: false, now: Some(7200) };
    let select = ListMode { selecting: true, now: None };
    let long = "y".repeat(401);
    let r = make_history_row(&item(4, &long, false), browse, false);
    assert_eq!(r.id, 4);
    assert_eq!(r.title, format!("{}…", "y".repeat(39)));
    assert_eq!(r.tool_tip, format!("{}…", "y".repeat(400)));
    assert_eq!((r.symbol, r.meaning, r.pin_title), ("link", "URL", "Pin"));
    assert_eq!(r.age, "2h");
    let r = make_history_row(&item(4, "a", true), browse, false);
    assert_eq!((r.symbol, r.tool_tip.as_str(), r.pin_title), ("pin.fill", "Pinned · a", "Unpin"));
    let r = make_history_row(&item(4, "a", true), select, true);
    assert_eq!((r.symbol, r.tool_tip.as_str()), ("checkmark.circle.fill", "Selected · a"));
    assert_eq!(r.age, "now");
    let mut i = item(4, "a", true);
    i.content_text = None;
    i.created_at = String::new();
    let r = make_history_row(&i, select, false);
    assert_eq!((r.symbol, r.tool_tip.as_str()), ("circle", "Click to select · a"));
    assert_eq!(r.age, "");
}

fn layout(view: ListView) -> (i128, Vec<(String, i128)>) {
    match view {
        ListView::Empty(t) => panic!("{}", t),
        ListView::Rows { height, placements } => (
            height,
            placements
                .iter()
                .map(|p| {
                    let name = match &p.element {
                        Element::Header(t) => t.to_string(),
                        Element::Separator => "-".to_string(),
                        Element::Row(r) => r.id.to_string(),
                    };
                    (name, p.position)
                })
                .collect(),
        ),
    }
}

fn placed(list: &[(&str, i128)]) -> Vec<(String, i128)> {
    list.iter().map(|(n, p)| (n.to_string(), *p)).collect()
}

#[test]
fn lists_with_sections() {
    let mut c = StatusItemController::create();
    let items = vec![item(1, "a", false), item(2, "b", true), item(3, "c", false)];
    assert_eq!(
        layout(c.render_items(&items, true, Some(0))),
        (
            55 + 34 * 3,
            placed(&[
                ("PINNED", 22),
                ("2", 58),
                ("-", 67),
                ("RECENT", 91),
                ("1", 127),
                ("3", 161)
            ])
        )
    );
    assert_eq!(
        layout(c.render_items(&items[2..], true, None)),
        (42, placed(&[("3", 36)]))
    );
    assert_eq!(
        layout(c.render_items(&items[1..2], true, None)),
        (62, placed(&[("PINNED", 22), ("2", 58)]))
    );
}

#[test]
fn empty_lists_say_why() {
    let mut c = StatusItemController::create();
    match c.render_items(&[], true, None) {
        ListView::Empty(t) => assert_eq!(t, "No history yet\nCopy something to get started"),
        other => panic!("{:?}", other),
    }
    match c.render_items(&[], false, None) {
        ListView::Empty(t) => assert_eq!(t, "No matches"),
        other => panic!("{:?}", other),
    }
}

#[test]
fn hidden_items_leave_the_selection() {
    let mut c = StatusItemController::create();
    c.set_select_mode(true);
    c.toggle_selection(1);
    c.toggle_selection(2);
    c.render_items(&[item(2, "b", false), item(3, "c", false)], true, None);
    assert_eq!(c.selected_ids(), vec![2]);
}

#[test]
fn history_is_shown_as_the_query_finds_it() {
    let mut h = History::new(9);
    h.replace_all(vec![item(1, "Apple", false), item(2, "Pear", false)]);
    let (found, blank) = StatusItemController::refresh_history(&h, " pe ");
    assert_eq!(found.len(), 1);
    assert!(!blank);
    let (found, blank) = StatusItemController::refresh_history(&h, "  ");
    assert_eq!(found.len(), 2);
    assert!(blank);
}

#[test]
fn layout_of_the_popover() {
    assert_eq!((POPOVER_WIDTH, POPOVER_HEIGHT), (380, 500));
    let p = build_popover();
    assert_eq!(p.wordmark.frame, Frame { x: 12, y: 464, w: 100, h: 24 });
    assert_eq!(p.hotkey_hint.title, "⌘⇧V");
    assert_eq!(p.clear.frame, Frame { x: 310, y: 372, w: 58, h: 22 });
    assert_eq!(p.delete.frame.w, 82);
    assert_eq!(p.list, Frame { x: 0, y: 0, w: 380, h: 366 });
    assert_eq!(p.search.title, "Search");
    assert!(p.settings_hidden && !p.history_hidden);
    assert!(!p.auto_paste_hidden && !p.select_hidden && !p.clear_hidden);
    assert!(p.delete_hidden && !p.delete_enabled && p.cancel_hidden);
    assert!(p.status_hidden && p.status_text.is_empty());
    assert_eq!(p.empty_text, "No history yet\nCopy something to get started");
    let s = build_settings_panel();
    assert_eq!(s.panel, Frame { x: 0, y: 20, w: 380, h: 440 });
    assert_eq!(s.poll.menu, Frame { x: 134, y: 376, w: 234, h: 26 });
    assert_eq!(s.poll.label.frame, Frame { x: 12, y: 381, w: 112, h: 16 });
    assert_eq!(s.hotkey.menu.y, 234);
    assert_eq!(s.note.frame, Frame { x: 14, y: 132, w: 354, h: 28 });
    assert_eq!(s.general_header.title, "GENERAL");
    assert_eq!(s.poll_titles, vec!["250 ms", "500 ms", "1 s", "2 s"]);
    assert_eq!(
        s.retention_titles,
        vec!["7 days", "30 days", "90 days", "365 days", "Unlimited (time)"]
    );
    assert_eq!(s.history_limit_titles[4], "10000 items");
    assert_eq!(s.hotkey_titles, vec!["⌘⇧V", "⌘⇧C", "⌘⌥V", "⌃⇧V"]);
    let r = row_frames(356);
    assert_eq!(r.button, Frame { x: 0, y: 0, w: 306, h: 32 });
    assert_eq!(r.age, Frame { x: 308, y: 9, w: 44, h: 14 });
    assert_eq!(row_frames(100).button.w, 80);
}

#[test]
fn settings_controls_are_found_by_tag() {
    for c in [
        SettingsControl::Poll,
        SettingsControl::Retention,
        SettingsControl::HistoryLimit,
        SettingsControl::Hotkey,
    ] {
        assert_eq!(SettingsControl::with_tag(true, c.tag()), Some(c));
        assert_eq!(SettingsControl::with_tag(false, c.tag()), None);
    }
    assert_eq!(SettingsControl::with_tag(false, 5), Some(SettingsControl::LaunchAtLogin));
    assert_eq!(SettingsControl::with_tag(true, 5), None);
    assert_eq!(SettingsControl::with_tag(true, 0), None);
}
