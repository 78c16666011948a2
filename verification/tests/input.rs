use clippin::accessibility::{
    ensure_trusted_prompting, open_accessibility_settings, SettingsStep, TrustStep, SETTINGS_URLS,
};
use clippin::autopaste::{
    paste_cmd_v, paste_cmd_v_or_prompt, AutoPasteError, PasteNext, PasteState, KEYCODE_V,
};
use clippin::hotkey::{
    apply_preset, is_active_hotkey, COMMAND, CONTROL, DEVICE_INDEPENDENT, OPTION, SHIFT,
};
use clippin::settings::HotkeyPreset;

#[test]
fn flags_have_their_bits() {
    assert_eq!((SHIFT, CONTROL, OPTION, COMMAND), (1 << 17, 1 << 18, 1 << 19, 1 << 20));
    assert_eq!(DEVICE_INDEPENDENT, 0xffff_0000);
}

#[test]
fn hotkeys_need_exactly_their_keys() {
    let b = apply_preset(HotkeyPreset::CmdShiftV);
    assert_eq!((b.key_code, b.modifiers), (0x09, COMMAND | SHIFT));
    assert!(is_active_hotkey(b, 0x09, COMMAND | SHIFT));
    assert!(is_active_hotkey(b, 0x09, COMMAND | SHIFT | 0x108));
    assert!(!is_active_hotkey(b, 0x08, COMMAND | SHIFT));
    assert!(!is_active_hotkey(b, 0x09, COMMAND | SHIFT | OPTION));
    assert!(!is_active_hotkey(b, 0x09, COMMAND));
    let c = apply_preset(HotkeyPreset::CmdOptionV);
    assert_eq!((c.key_code, c.modifiers), (0x09, COMMAND | OPTION));
    let d = apply_preset(HotkeyPreset::CtrlShiftV);
    assert_eq!((d.key_code, d.modifiers), (0x09, CONTROL | SHIFT));
    assert_eq!(apply_preset(HotkeyPreset::CmdShiftC).key_code, 0x08);
}

#[test]
fn hotkeys_do_not_clash() {
    for a in HotkeyPreset::ALL {
        for b in HotkeyPreset::ALL {
            let k = apply_preset(a);
            assert_eq!(is_active_hotkey(apply_preset(b), k.key_code, k.modifiers), a == b);
        }
    }
}

#[test]
fn permission_is_asked_for_step_by_step() {
    assert_eq!(ensure_trusted_prompting(true, None), TrustStep::Trusted);
    assert_eq!(ensure_trusted_prompting(false, None), TrustStep::Prompt);
    assert_eq!(ensure_trusted_prompting(false, Some(true)), TrustStep::Trusted);
    assert_eq!(ensure_trusted_prompting(false, Some(false)), TrustStep::OpenSettings);
}

#[test]
fn settings_links_are_tried_in_turn() {
    assert!(matches!(open_accessibility_settings(0, false), SettingsStep::Open(0)));
    assert!(matches!(open_accessibility_settings(0, true), SettingsStep::Open(0)));
    assert!(matches!(open_accessibility_settings(1, true), SettingsStep::Opened));
    assert!(matches!(open_accessibility_settings(1, false), SettingsStep::Open(1)));
    assert!(matches!(open_accessibility_settings(2, false), SettingsStep::GaveUp));
    assert!(SETTINGS_URLS[1].ends_with("Privacy_Accessibility"));
}

#[test]
fn pasting_needs_trust_and_events() {
    assert_eq!(paste_cmd_v(false, true, true, true), Err(AutoPasteError::NotTrusted));
    assert_eq!(paste_cmd_v(true, true, true, true), Ok(()));
    for (s, d, u) in [(false, true, true), (true, false, true), (true, true, false)] {
        assert_eq!(paste_cmd_v(true, s, d, u), Err(AutoPasteError::EventCreate));
    }
    assert_eq!(KEYCODE_V, 9);
}

#[test]
fn pasting_asks_once() {
    let no = Err(AutoPasteError::NotTrusted);
    let broken = Err(AutoPasteError::EventCreate);
    assert_eq!(paste_cmd_v_or_prompt(PasteState::Tried(Ok(()))), PasteNext::Finished(Ok(())));
    assert_eq!(paste_cmd_v_or_prompt(PasteState::Tried(no)), PasteNext::Ask);
    assert_eq!(paste_cmd_v_or_prompt(PasteState::Tried(broken)), PasteNext::Finished(broken));
    assert_eq!(paste_cmd_v_or_prompt(PasteState::Asked(false)), PasteNext::Finished(no));
    assert_eq!(paste_cmd_v_or_prompt(PasteState::Asked(true)), PasteNext::TryAgain);
    assert_eq!(paste_cmd_v_or_prompt(PasteState::TriedAgain(no)), PasteNext::Finished(no));
    assert_eq!(
        AutoPasteError::NotTrusted.message(),
        "Accessibility permission required (System Settings → Privacy → Accessibility)"
    );
    assert_eq!(AutoPasteError::EventCreate.message(), "failed to create keyboard event");
}
