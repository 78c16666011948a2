use clippin::settings::{
    history_limit_label, nearest_index, parse_bool, poll_label, retention_label, HotkeyPreset,
    Settings, StoredSettings, HISTORY_LIMIT_OPTIONS, POLL_INTERVAL_OPTIONS, RETENTION_DAY_OPTIONS,
};

fn nothing() -> StoredSettings {
    StoredSettings {
        auto_paste: None,
        poll_interval_ms: None,
        retention_days: None,
        history_limit: None,
        hotkey: None,
        launch_at_login: None,
    }
}

fn some(s: &str) -> Option<String> {
    Some(s.to_string())
}

#[test]
fn defaults_without_stored_values() {
    let s = Settings::load(&nothing());
    assert_eq!(s, Settings::default());
    assert_eq!(s.poll_interval_ms, 500);
    assert_eq!(s.retention_days, 30);
    assert_eq!(s.history_limit, 1000);
    assert!(!s.auto_paste && !s.launch_at_login);
    assert_eq!(s.hotkey, HotkeyPreset::CmdShiftV);
}

#[test]
fn stored_values_are_read_and_raised_to_their_least() {
    let s = Settings::load(&StoredSettings {
        auto_paste: some("YES"),
        poll_interval_ms: some("100"),
        retention_days: some("-3"),
        history_limit: some("5"),
        hotkey: some(" CMD+ALT+V "),
        launch_at_login: some("1"),
    });
    assert!(s.auto_paste && s.launch_at_login);
    assert_eq!((s.poll_interval_ms, s.retention_days, s.history_limit), (250, 0, 10));
    assert_eq!(s.hotkey, HotkeyPreset::CmdOptionV);
    let s = Settings::load(&StoredSettings {
        poll_interval_ms: some("x"),
        retention_days: some(""),
        history_limit: some("99999999999999999999999"),
        ..nothing()
    });
    assert_eq!(s, Settings::default());
}

#[test]
fn saved_settings_load_back() {
    let s = Settings {
        poll_interval_ms: 2000,
        retention_days: 0,
        history_limit: 10_000,
        auto_paste: true,
        launch_at_login: false,
        hotkey: HotkeyPreset::CtrlShiftV,
    };
    let saved = s.save_all();
    let keys: Vec<&str> = saved.iter().map(|e| e.key.as_str()).collect();
    assert_eq!(
        keys,
        vec![
            "auto_paste",
            "poll_interval_ms",
            "retention_days",
            "history_limit",
            "hotkey_preset",
            "launch_at_login"
        ]
    );
    let value = |k: &str| saved.iter().find(|e| e.key == k).map(|e| e.value.clone());
    assert_eq!(value("hotkey_preset"), some("ctrl+shift+v"));
    let back = Settings::load(&StoredSettings {
        auto_paste: value("auto_paste"),
        poll_interval_ms: value("poll_interval_ms"),
        retention_days: value("retention_days"),
        history_limit: value("history_limit"),
        hotkey: value("hotkey_preset"),
        launch_at_login: value("launch_at_login"),
    });
    assert_eq!(back, s);
    assert_eq!(s.save_auto_paste().value, "1");
}

#[test]
fn hotkey_presets() {
    for (i, h) in HotkeyPreset::ALL.iter().enumerate() {
        assert_eq!(h.index(), i);
        assert_eq!(HotkeyPreset::from_index(i), *h);
        assert_eq!(HotkeyPreset::from_str(h.as_str()), *h);
    }
    assert_eq!(HotkeyPreset::from_index(4), HotkeyPreset::CmdShiftV);
    assert_eq!(HotkeyPreset::from_str("command+shift+c"), HotkeyPreset::CmdShiftC);
    assert_eq!(HotkeyPreset::from_str("command+option+v"), HotkeyPreset::CmdOptionV);
    assert_eq!(HotkeyPreset::from_str("control+shift+v"), HotkeyPreset::CtrlShiftV);
    assert_eq!(HotkeyPreset::from_str("other"), HotkeyPreset::CmdShiftV);
    assert_eq!(HotkeyPreset::CmdShiftC.key_code(), 0x08);
    assert_eq!(HotkeyPreset::CtrlShiftV.key_code(), 0x09);
    let shown: Vec<&str> = HotkeyPreset::ALL.iter().map(|h| h.display()).collect();
    assert_eq!(shown, vec!["⌘⇧V", "⌘⇧C", "⌘⌥V", "⌃⇧V"]);
}

#[test]
fn flags_are_read() {
    for v in ["1", "true", "TRUE", "Yes"] {
        assert!(parse_bool(v));
    }
    for v in ["0", "", "on", " 1", "truee"] {
        assert!(!parse_bool(v));
    }
}

#[test]
fn nearest_option_wins_and_the_first_of_two() {
    assert_eq!(nearest_index(&[], 5), 0);
    assert_eq!(nearest_index(&[0, 10, 20], 14), 1);
    assert_eq!(nearest_index(&[0, 10], 5), 0);
    assert_eq!(nearest_index(&[10, 0], 5), 0);
    let mut s = Settings::default();
    assert_eq!(s.poll_interval_index(), 1);
    assert_eq!(s.retention_index(), 1);
    assert_eq!(s.history_limit_index(), 2);
    s.poll_interval_ms = 1600;
    s.retention_days = 0;
    s.history_limit = 100_000;
    assert_eq!(POLL_INTERVAL_OPTIONS[s.poll_interval_index()], 2000);
    assert_eq!(RETENTION_DAY_OPTIONS[s.retention_index()], 0);
    assert_eq!(HISTORY_LIMIT_OPTIONS[s.history_limit_index()], 10_000);
    let s = Settings {
        poll_interval_ms: u64::MAX,
        retention_days: i64::MIN,
        history_limit: usize::MAX,
        ..Settings::default()
    };
    assert_eq!(s.poll_interval_index(), 3);
    assert_eq!(RETENTION_DAY_OPTIONS[s.retention_index()], 0);
    assert_eq!(s.history_limit_index(), 4);
}

#[test]
fn labels() {
    assert_eq!(retention_label(0), "Unlimited (time)");
    assert_eq!(retention_label(30), "30 days");
    assert_eq!(retention_label(-1), "-1 days");
    assert_eq!(history_limit_label(500), "500 items");
    for ms in [0u64, 1, 999, 1000, 1001, 1010, 1100, 1500, 2000, 12_345, 999_999_999_999_999] {
        let expected = if ms >= 1000 {
            format!("{} s", ms as f64 / 1000.0)
        } else {
            format!("{} ms", ms)
        };
        assert_eq!(poll_label(ms), expected);
    }
    assert_eq!(poll_label(1500), "1.5 s");
}
