use clippin::app::{AppDelegateIvars, CopyNext, SearchPlan, StoreReply};
use clippin::autopaste::AutoPasteError;
use clippin::capture::{PollResult, PollStep};
use clippin::cli::{
    detach_and_exit, parse_args, print_help, start_message, Command, DetachNext, DetachState,
    Stream,
};
use clippin::clipboard::{ClipboardItem, ContentType};
use clippin::launch::LoginItemStatus;
use clippin::privacy::PrivacyMarkers;
use clippin::settings::{HotkeyPreset, Settings};

fn item(id: u64, text: &str, pinned: bool) -> ClipboardItem {
    ClipboardItem {
        id,
        content_type: ContentType::Text,
        content_text: Some(text.to_string()),
        content_rtf: None,
        content_html: None,
        content_image: None,
        content_file_paths: None,
        content_url: None,
        source_app_bundle_id: None,
        is_pinned: pinned,
        created_at: "t".to_string(),
        hash: text.to_string(),
        preview: text.to_string(),
    }
}

fn ids(a: &AppDelegateIvars) -> Vec<u64> {
    a.history.items().iter().map(|i| i.id).collect()
}

fn with(items: Vec<ClipboardItem>) -> AppDelegateIvars {
    let mut a = AppDelegateIvars::new(0);
    a.did_finish_launching(Settings::default(), Some(items), LoginItemStatus::NotFound);
    a
}

#[test]
fn start_takes_over_what_is_stored() {
    let mut a = AppDelegateIvars::new(0);
    assert_eq!(a.settings, Settings::default());
    let loaded = Settings { auto_paste: true, ..Settings::default() };
    a.did_finish_launching(loaded, None, LoginItemStatus::Enabled);
    assert!(a.settings.auto_paste && a.settings.launch_at_login);
    assert!(a.history.is_empty());
    let a = with(vec![item(1, "a", false)]);
    assert!(!a.settings.launch_at_login);
    assert_eq!(ids(&a), vec![1]);
    assert_eq!(AppDelegateIvars::launch_notice(true), None);
    assert!(AppDelegateIvars::launch_notice(false).unwrap().starts_with("Auto-paste needs"));
}

#[test]
fn menus_change_the_settings() {
    let mut a = AppDelegateIvars::new(0);
    assert_eq!(a.poll_interval_changed(Some(100)), "Poll interval: 250 ms");
    assert_eq!(a.poll_interval_changed(None), "Poll interval: 500 ms");
    assert_eq!(a.poll_interval_changed(Some(2000)), "Poll interval: 2000 ms");
    assert_eq!(a.restart_poll_timer(), 2000);
    a.settings.poll_interval_ms = 3;
    assert_eq!(a.restart_poll_timer(), 250);
    assert_eq!(a.retention_changed(Some(0)), "Retention: unlimited (time)");
    assert_eq!(a.retention_changed(None), "Retention: 30 days");
    assert_eq!(a.history_limit_changed(Some(5000)), "Max items: 5000");
    assert_eq!(a.run_prune(), (30, 5000));
    assert_eq!(a.history_limit_changed(None), "Max items: 1000");
    assert_eq!(a.hotkey_changed(Some(HotkeyPreset::CmdOptionV)), "Hotkey: ⌘⌥V");
    assert_eq!(a.settings.hotkey, HotkeyPreset::CmdOptionV);
    assert_eq!(a.hotkey_changed(None), "Hotkey: ⌘⇧V");
    assert_eq!(a.persist_settings().len(), 6);
}

#[test]
fn launch_at_login_switch() {
    let mut a = AppDelegateIvars::new(0);
    let r = a.toggle_launch_at_login(true, &Ok(LoginItemStatus::RequiresApproval));
    assert!(r.checked && a.settings.launch_at_login);
    assert_eq!(r.notice, "Login item needs approval in System Settings → Login Items");
    let r = a.toggle_launch_at_login(true, &Ok(LoginItemStatus::Enabled));
    assert_eq!((r.checked, r.notice.as_str()), (true, "Launch at login enabled"));
    let r = a.toggle_launch_at_login(true, &Ok(LoginItemStatus::Unknown));
    assert_eq!((r.checked, r.notice.as_str()), (false, "unknown"));
    let r = a.toggle_launch_at_login(false, &Ok(LoginItemStatus::RequiresApproval));
    assert_eq!((r.checked, r.notice.as_str()), (false, "Launch at login disabled"));
    a.settings.launch_at_login = true;
    let r = a.toggle_launch_at_login(true, &Err("no".to_string()));
    assert_eq!((r.checked, r.notice.as_str()), (false, "no"));
    assert!(!a.settings.launch_at_login);
}

#[test]
fn auto_paste_switch() {
    let mut a = AppDelegateIvars::new(0);
    let r = a.toggle_auto_paste(true, false);
    assert!(r.prompt && a.settings.auto_paste);
    assert_eq!(r.entry.value, "1");
    assert_eq!(r.notice, "Enable ClipPin in Accessibility, then restart for auto-paste");
    let r = a.toggle_auto_paste(true, true);
    assert_eq!((r.prompt, r.notice), (false, "Auto-paste on"));
    let r = a.toggle_auto_paste(false, false);
    assert_eq!((r.prompt, r.notice), (false, "Auto-paste off"));
}

#[test]
fn captures_are_kept() {
    let mut a = with(vec![item(1, "a", false)]);
    let made = StoreReply::Inserted { id: 8, created_at: "then".into() };
    assert!(a.poll_clipboard(item(0, "b", false), made));
    assert_eq!(ids(&a), vec![8, 1]);
    assert_eq!(a.history.get(8).unwrap().created_at, "then");
    assert!(!a.poll_clipboard(item(0, "b", false), StoreReply::Touched(8)));
    assert_eq!(ids(&a), vec![8, 1]);
    assert_eq!(a.history.get(8).unwrap().created_at, "");
    assert!(a.poll_clipboard(item(0, "c", false), StoreReply::InsertFailed));
    assert!(!a.poll_clipboard(item(0, "d", false), StoreReply::CheckFailed));
    assert!(!a.poll_clipboard(item(0, "e", false), StoreReply::NoStore));
    assert_eq!(ids(&a), vec![0, 0, 0, 8, 1]);
}

#[test]
fn markers_are_looked_at_again() {
    let m = PrivacyMarkers { concealed: false, transient: true };
    assert_eq!(
        AppDelegateIvars::recheck(m),
        Some("Last copy skipped (privacy: TransientType)".to_string())
    );
    assert_eq!(AppDelegateIvars::recheck(PrivacyMarkers::default()), None);
}

#[test]
fn searches_go_to_the_store() {
    let plan = AppDelegateIvars::search_field_changed;
    assert!(matches!(plan(" \t", true), SearchPlan::ShowHistory));
    assert!(matches!(plan(" q ", true), SearchPlan::AskStore(q) if q == "q"));
    assert!(matches!(plan(" q ", false), SearchPlan::FilterHistory(q) if q == "q"));
}

#[test]
fn failed_searches_fall_back_to_the_history() {
    let a = with(vec![item(1, "one", false), item(2, "two", false)]);
    let stored = a.search_answered("ONE", Some(vec![item(7, "x", false)]));
    assert_eq!(stored.iter().map(|i| i.id).collect::<Vec<u64>>(), vec![7]);
    let own = a.search_answered("ONE", None);
    assert_eq!(own.iter().map(|i| i.id).collect::<Vec<u64>>(), vec![1]);
}

#[test]
fn copying_is_not_captured() {
    let mut a = with(vec![item(1, "a", true)]);
    assert_eq!(a.find_item(1, None).unwrap().id, 1);
    assert_eq!(a.find_item(2, Some(item(2, "b", false))).unwrap().id, 2);
    assert!(a.find_item(3, None).is_none());
    assert!(matches!(a.copy_history_item(), CopyNext::Notice("Copied to clipboard")));
    assert!(matches!(a.poller.poll(1), PollStep::Done(PollResult::NoChange)));
    assert!(matches!(a.poller.poll(2), PollStep::Inspect));
    a.settings.auto_paste = true;
    assert!(matches!(a.copy_history_item(), CopyNext::SchedulePaste));
    let told = AppDelegateIvars::perform_auto_paste;
    assert_eq!(told(Ok(())), "Auto-pasted");
    assert_eq!(
        told(Err(AutoPasteError::NotTrusted)),
        "Copied — grant Accessibility to enable auto-paste"
    );
    assert_eq!(told(Err(AutoPasteError::EventCreate)), "Copied (auto-paste failed)");
}

#[test]
fn pinning_and_deleting() {
    let mut a = with(vec![item(1, "a", false), item(2, "b", true)]);
    assert!(a.new_pin(1, Some(true)));
    assert!(!a.new_pin(2, None));
    assert!(!a.new_pin(9, Some(true)));
    assert!(a.new_pin(9, None));
    assert_eq!(a.pin_history_item(1, true, None), "Pinned");
    assert!(a.history.get(1).unwrap().is_pinned);
    assert_eq!(a.pin_history_item(1, false, Some(vec![item(7, "x", true)])), "Unpinned");
    assert_eq!(ids(&a), vec![7]);
    assert_eq!(a.delete_history_item(7), "Deleted");
    assert!(a.history.is_empty());
}

#[test]
fn selecting_and_deleting() {
    let mut a = with(vec![item(1, "a", false), item(2, "b", true), item(3, "c", false)]);
    assert_eq!(a.toggle_item_selection(1), None);
    assert_eq!(a.toggle_select_mode(), "Select items, then Delete");
    assert_eq!(a.toggle_item_selection(1), Some("1 selected".to_string()));
    assert_eq!(a.toggle_item_selection(2), Some("2 selected".to_string()));
    assert_eq!(a.delete_selected_items(&[]), None);
    assert!(a.status.is_select_mode());
    assert_eq!(a.delete_selected_items(&[1, 2]), Some("Deleted 2 items".to_string()));
    assert_eq!(ids(&a), vec![3]);
    assert!(!a.status.is_select_mode());
    a.toggle_select_mode();
    a.toggle_item_selection(3);
    a.cancel_select_mode();
    assert_eq!(a.status.selected_count(), 0);
    assert_eq!(ids(&a), vec![3]);
}

#[test]
fn clearing_the_history() {
    let mut a = with(vec![item(1, "a", false), item(2, "b", true)]);
    a.toggle_select_mode();
    assert_eq!(a.clear_history(None), "History cleared (pinned kept)");
    assert_eq!(ids(&a), vec![2]);
    assert!(!a.status.is_select_mode());
}

fn args(list: &[&str]) -> Command {
    let v: Vec<String> = list.iter().map(|s| s.to_string()).collect();
    parse_args(&v)
}

#[test]
fn arguments() {
    assert!(matches!(args(&[]), Command::Run));
    assert!(matches!(args(&["x"]), Command::Run));
    assert!(matches!(args(&["-d", "--help"]), Command::Help));
    assert!(matches!(args(&["-h"]), Command::Help));
    match args(&["a", "-d", "b", "--detach"]) {
        Command::Detach(rest) => assert_eq!(rest, vec!["a", "b"]),
        other => panic!("{:?}", other),
    }
}

#[test]
fn help_names_the_program() {
    let h = print_help(None);
    assert!(h.starts_with("ClipPin — macOS menu-bar clipboard history\n\nUSAGE:\n    clippin [OPTIONS]\n"));
    assert!(h.ends_with("Stop:          pkill -x clippin\n"));
    let h = print_help(Some("cp2"));
    assert_eq!(h.matches("cp2").count(), 4);
    assert!(h.contains("    cp2           Foreground (logs in this terminal)\n    cp2 -d        Detached"));
    assert!(start_message(true).contains("autostart"));
    assert_eq!(start_message(false), "ClipPin starting");
}

#[test]
fn detaching() {
    assert!(matches!(
        detach_and_exit(DetachState::Resolved(None), None),
        DetachNext::OpenLog
    ));
    match detach_and_exit(DetachState::Resolved(Some("e".into())), None) {
        DetachNext::Exit { code, message } => {
            assert_eq!((code, message.as_str()), (1, "clippin: cannot resolve executable path: e"))
        }
        other => panic!("{:?}", other),
    }
    let opened = |error: Option<&str>, second_handle| {
        match detach_and_exit(
            DetachState::LogOpened { error: error.map(|s| s.to_string()), second_handle },
            None,
        ) {
            DetachNext::Start { stdout, stderr, warning } => (stdout, stderr, warning),
            other => panic!("{:?}", other),
        }
    };
    assert_eq!(opened(None, true), (Stream::Log, Stream::Log, None));
    assert_eq!(opened(None, false), (Stream::Log, Stream::Nowhere, None));
    assert_eq!(
        opened(Some("no"), true),
        (
            Stream::Nowhere,
            Stream::Nowhere,
            Some("clippin: warning: could not open log file (no); discarding output".to_string())
        )
    );
    match detach_and_exit(DetachState::Started { pid: 42 }, Some("/l")) {
        DetachNext::Exit { code, message } => assert_eq!(
            (code, message.as_str()),
            (0, "ClipPin started in background (pid 42)\n  logs: /l")
        ),
        other => panic!("{:?}", other),
    }
    match detach_and_exit(DetachState::NotStarted("e".into()), None) {
        DetachNext::Exit { code, message } => {
            assert_eq!((code, message.as_str()), (1, "clippin: failed to start detached process: e"))
        }
        other => panic!("{:?}", other),
    }
}
