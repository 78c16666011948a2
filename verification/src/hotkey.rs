//! Which key presses are the global hotkey.
use vstd::prelude::*;

use crate::settings::HotkeyPreset;

verus! {

/// Modifier flags of a key event.
pub const SHIFT: u64 = 0x2_0000;

pub const CONTROL: u64 = 0x4_0000;

pub const OPTION: u64 = 0x8_0000;

pub const COMMAND: u64 = 0x10_0000;

/// The flags that do not depend on the device.
pub const DEVICE_INDEPENDENT: u64 = 0xffff_0000;

/// A key with the modifiers that have to be held, no others.
#[derive(Debug, Clone, Copy, PartialEq, Eq, Structural)]
pub struct HotkeyBinding {
    pub key_code: u16,
    pub modifiers: u64,
}

/// The binding of a preset.
pub open spec fn binding_of(preset: HotkeyPreset) -> HotkeyBinding {
    HotkeyBinding {
        key_code: preset.letter_key(),
        modifiers: match preset {
            HotkeyPreset::CmdShiftV => COMMAND | SHIFT,
            HotkeyPreset::CmdShiftC => COMMAND | SHIFT,
            HotkeyPreset::CmdOptionV => COMMAND | OPTION,
            HotkeyPreset::CtrlShiftV => CONTROL | SHIFT,
        },
    }
}

/// Whether a key press is the hotkey: the key, and of the device-independent
/// flags exactly the binding's.
pub open spec fn triggers(binding: HotkeyBinding, key_code: u16, flags: u64) -> bool {
    key_code == binding.key_code && flags & DEVICE_INDEPENDENT == binding.modifiers
}

/// The binding of a preset.
pub fn apply_preset(preset: HotkeyPreset) -> (r: HotkeyBinding)
    ensures
        r == binding_of(preset),
{
    let modifiers: u64 = match preset {
        HotkeyPreset::CmdShiftV => COMMAND | SHIFT,
        HotkeyPreset::CmdShiftC => COMMAND | SHIFT,
        HotkeyPreset::CmdOptionV => COMMAND | OPTION,
        HotkeyPreset::CtrlShiftV => CONTROL | SHIFT,
    };
    HotkeyBinding { key_code: preset.key_code(), modifiers }
}

/// Whether a key press is the hotkey.
pub fn is_active_hotkey(binding: HotkeyBinding, key_code: u16, flags: u64) -> (r: bool)
    ensures
        r == triggers(binding, key_code, flags),
{
    key_code == binding.key_code && flags & DEVICE_INDEPENDENT == binding.modifiers
}

/// The flag combinations of the presets differ.
proof fn lemma_modifiers_differ()
    ensures
        COMMAND | SHIFT != COMMAND | OPTION,
        COMMAND | SHIFT != CONTROL | SHIFT,
        COMMAND | OPTION != CONTROL | SHIFT,
{
    assert(0x10_0000u64 | 0x2_0000u64 != 0x10_0000u64 | 0x8_0000u64) by (bit_vector);
    assert(0x10_0000u64 | 0x2_0000u64 != 0x4_0000u64 | 0x2_0000u64) by (bit_vector);
    assert(0x10_0000u64 | 0x8_0000u64 != 0x4_0000u64 | 0x2_0000u64) by (bit_vector);
}

/// A key press triggers one preset at most.
pub proof fn law_presets_do_not_clash(a: HotkeyPreset, b: HotkeyPreset, key_code: u16, flags: u64)
    requires
        triggers(binding_of(a), key_code, flags),
        triggers(binding_of(b), key_code, flags),
    ensures
        a == b,
{
    lemma_modifiers_differ();
}

/// Pressing exactly the keys of a preset triggers it, and flags of the device
/// do not matter.
pub proof fn law_preset_triggers(preset: HotkeyPreset, device_flags: u64)
    requires
        device_flags < 0x1_0000,
    ensures
        triggers(
            binding_of(preset),
            binding_of(preset).key_code,
            binding_of(preset).modifiers | device_flags,
        ),
{
    assert(((0x10_0000u64 | 0x2_0000u64) | device_flags) & 0xffff_0000u64 == 0x10_0000u64
        | 0x2_0000u64) by (bit_vector)
        requires
            device_flags < 0x1_0000,
    ;
    assert(((0x10_0000u64 | 0x8_0000u64) | device_flags) & 0xffff_0000u64 == 0x10_0000u64
        | 0x8_0000u64) by (bit_vector)
        requires
            device_flags < 0x1_0000,
    ;
    assert(((0x4_0000u64 | 0x2_0000u64) | device_flags) & 0xffff_0000u64 == 0x4_0000u64
        | 0x2_0000u64) by (bit_vector)
        requires
            device_flags < 0x1_0000,
    ;
}

/// A device-independent modifier that is held beyond those of a binding keeps
/// it from triggering.
pub proof fn law_extra_modifier_does_not_trigger(
    binding: HotkeyBinding,
    key_code: u16,
    flags: u64,
    extra: u64,
)
    requires
        extra != 0,
        extra & DEVICE_INDEPENDENT == extra,
        extra & binding.modifiers == 0,
        flags & extra == extra,
    ensures
        !triggers(binding, key_code, flags),
{
    let mods = binding.modifiers;
    assert(flags & 0xffff_0000u64 != mods) by (bit_vector)
        requires
            extra != 0,
            extra & 0xffff_0000u64 == extra,
            extra & mods == 0,
            flags & extra == extra,
    ;
}

/// The modifiers of a preset are those that it shows: command unless it is the
/// one with control, shift unless it is the one with option. The letter is C
/// for one of them and V for the others.
pub proof fn law_preset_keys(preset: HotkeyPreset)
    ensures
        ({
            let m = binding_of(preset).modifiers;
            &&& m & 0x10_0000 != 0 <==> preset != HotkeyPreset::CtrlShiftV
            &&& m & 0x4_0000 != 0 <==> preset == HotkeyPreset::CtrlShiftV
            &&& m & 0x2_0000 != 0 <==> preset != HotkeyPreset::CmdOptionV
            &&& m & 0x8_0000 != 0 <==> preset == HotkeyPreset::CmdOptionV
            &&& m & !(0x10_0000u64 | 0x4_0000 | 0x2_0000 | 0x8_0000) == 0
        }),
        binding_of(preset).key_code == (if preset == HotkeyPreset::CmdShiftC {
            0x08u16
        } else {
            0x09u16
        }),
{
    let (cs, co, ts): (u64, u64, u64) = (
        0x10_0000u64 | 0x2_0000u64,
        0x10_0000u64 | 0x8_0000u64,
        0x4_0000u64 | 0x2_0000u64,
    );
    assert(cs & 0x10_0000 != 0 && cs & 0x4_0000 == 0 && cs & 0x2_0000 != 0 && cs & 0x8_0000 == 0
        && cs & !(0x10_0000u64 | 0x4_0000 | 0x2_0000 | 0x8_0000) == 0) by (bit_vector)
        requires
            cs == 0x10_0000u64 | 0x2_0000u64,
    ;
    assert(co & 0x10_0000 != 0 && co & 0x4_0000 == 0 && co & 0x2_0000 == 0 && co & 0x8_0000 != 0
        && co & !(0x10_0000u64 | 0x4_0000 | 0x2_0000 | 0x8_0000) == 0) by (bit_vector)
        requires
            co == 0x10_0000u64 | 0x8_0000u64,
    ;
    assert(ts & 0x10_0000 == 0 && ts & 0x4_0000 != 0 && ts & 0x2_0000 != 0 && ts & 0x8_0000 == 0
        && ts & !(0x10_0000u64 | 0x4_0000 | 0x2_0000 | 0x8_0000) == 0) by (bit_vector)
        requires
            ts == 0x4_0000u64 | 0x2_0000u64,
    ;
}

/// Another key does not trigger a binding, and neither does its key while a
/// modifier of it is not held.
pub proof fn law_all_keys_needed(binding: HotkeyBinding, key_code: u16, flags: u64, missing: u64)
    ensures
        key_code != binding.key_code ==> !triggers(binding, key_code, flags),
        missing != 0 && missing & binding.modifiers == missing && flags & missing == 0
            ==> !triggers(binding, key_code, flags),
{
    let mods = binding.modifiers;
    assert(missing != 0 && missing & mods == missing && flags & missing == 0 ==> flags
        & 0xffff_0000u64 != mods) by (bit_vector);
}

} // verus!
