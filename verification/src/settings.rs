//! User preferences: their values, how they are stored and how they are shown.
use vstd::prelude::*;

use crate::numbers;
use crate::text;

verus! {

pub const KEY_AUTO_PASTE: &'static str = "auto_paste";

pub const KEY_POLL_MS: &'static str = "poll_interval_ms";

pub const KEY_RETENTION_DAYS: &'static str = "retention_days";

pub const KEY_HISTORY_LIMIT: &'static str = "history_limit";

pub const KEY_HOTKEY: &'static str = "hotkey_preset";

pub const KEY_LAUNCH_AT_LOGIN: &'static str = "launch_at_login";

/// Poll interval options shown in the panel (ms).
pub const POLL_INTERVAL_OPTIONS: [u64; 4] = [250, 500, 1000, 2000];

/// Retention options in days (0 keeps items whatever their age).
pub const RETENTION_DAY_OPTIONS: [i64; 5] = [7, 30, 90, 365, 0];

/// History size options.
pub const HISTORY_LIMIT_OPTIONS: [usize; 5] = [100, 500, 1000, 5000, 10_000];

// ── Hotkeys ─────────────────────────────────────────────────────────────────

/// Preset global hotkey combinations.
#[derive(Debug, Clone, Copy, PartialEq, Eq, Structural)]
pub enum HotkeyPreset {
    CmdShiftV,
    CmdShiftC,
    CmdOptionV,
    CtrlShiftV,
}

impl Default for HotkeyPreset {
    fn default() -> (r: Self)
        ensures
            r == HotkeyPreset::CmdShiftV,
    {
        HotkeyPreset::CmdShiftV
    }
}

impl HotkeyPreset {
    /// All presets, in menu order.
    pub const ALL: [HotkeyPreset; 4] = [
        HotkeyPreset::CmdShiftV,
        HotkeyPreset::CmdShiftC,
        HotkeyPreset::CmdOptionV,
        HotkeyPreset::CtrlShiftV,
    ];

    /// The stored name.
    pub open spec fn name(self) -> Seq<char> {
        match self {
            HotkeyPreset::CmdShiftV => "cmd+shift+v"@,
            HotkeyPreset::CmdShiftC => "cmd+shift+c"@,
            HotkeyPreset::CmdOptionV => "cmd+option+v"@,
            HotkeyPreset::CtrlShiftV => "ctrl+shift+v"@,
        }
    }

    /// The key symbols.
    pub open spec fn symbols(self) -> Seq<char> {
        match self {
            HotkeyPreset::CmdShiftV => "⌘⇧V"@,
            HotkeyPreset::CmdShiftC => "⌘⇧C"@,
            HotkeyPreset::CmdOptionV => "⌘⌥V"@,
            HotkeyPreset::CtrlShiftV => "⌃⇧V"@,
        }
    }

    /// The preset with a name that is trimmed and in lower case already; the
    /// default where there is none.
    pub open spec fn named(s: Seq<char>) -> HotkeyPreset {
        if s == "cmd+shift+c"@ || s == "command+shift+c"@ {
            HotkeyPreset::CmdShiftC
        } else if s == "cmd+option+v"@ || s == "cmd+alt+v"@ || s == "command+option+v"@ {
            HotkeyPreset::CmdOptionV
        } else if s == "ctrl+shift+v"@ || s == "control+shift+v"@ {
            HotkeyPreset::CtrlShiftV
        } else {
            HotkeyPreset::CmdShiftV
        }
    }

    /// The position in the menu.
    pub open spec fn position(self) -> int {
        match self {
            HotkeyPreset::CmdShiftV => 0,
            HotkeyPreset::CmdShiftC => 1,
            HotkeyPreset::CmdOptionV => 2,
            HotkeyPreset::CtrlShiftV => 3,
        }
    }

    /// The name under which the preset is stored.
    pub fn as_str(self) -> (r: &'static str)
        ensures
            r@ == self.name(),
    {
        match self {
            HotkeyPreset::CmdShiftV => "cmd+shift+v",
            HotkeyPreset::CmdShiftC => "cmd+shift+c",
            HotkeyPreset::CmdOptionV => "cmd+option+v",
            HotkeyPreset::CtrlShiftV => "ctrl+shift+v",
        }
    }

    /// The key symbols of the preset.
    pub fn display(self) -> (r: &'static str)
        ensures
            r@ == self.symbols(),
    {
        match self {
            HotkeyPreset::CmdShiftV => "⌘⇧V",
            HotkeyPreset::CmdShiftC => "⌘⇧C",
            HotkeyPreset::CmdOptionV => "⌘⌥V",
            HotkeyPreset::CtrlShiftV => "⌃⇧V",
        }
    }

    /// Reads a stored name; white space around it and its case do not matter.
    pub fn from_str(s: &str) -> (r: Self)
        ensures
            r == Self::named(text::ascii_lower(text::trimmed(s@))),
    {
        let t: String = text::to_ascii_lower(text::trim(s).as_str());
        let t: &str = t.as_str();
        if text::same_text(t, "cmd+shift+c") || text::same_text(t, "command+shift+c") {
            HotkeyPreset::CmdShiftC
        } else if text::same_text(t, "cmd+option+v") || text::same_text(t, "cmd+alt+v")
            || text::same_text(t, "command+option+v") {
            HotkeyPreset::CmdOptionV
        } else if text::same_text(t, "ctrl+shift+v") || text::same_text(t, "control+shift+v") {
            HotkeyPreset::CtrlShiftV
        } else {
            HotkeyPreset::CmdShiftV
        }
    }

    /// The position in [`HotkeyPreset::ALL`] and in the menu.
    pub fn index(self) -> (r: usize)
        ensures
            r == self.position(),
            r < Self::ALL@.len(),
            Self::ALL@[r as int] == self,
    {
        match self {
            HotkeyPreset::CmdShiftV => 0,
            HotkeyPreset::CmdShiftC => 1,
            HotkeyPreset::CmdOptionV => 2,
            HotkeyPreset::CtrlShiftV => 3,
        }
    }

    /// The preset at a position in the menu; the default beyond its end.
    pub fn from_index(i: usize) -> (r: Self)
        ensures
            i < Self::ALL@.len() ==> r == Self::ALL@[i as int],
            i >= Self::ALL@.len() ==> r == HotkeyPreset::CmdShiftV,
    {
        if i == 1 {
            HotkeyPreset::CmdShiftC
        } else if i == 2 {
            HotkeyPreset::CmdOptionV
        } else if i == 3 {
            HotkeyPreset::CtrlShiftV
        } else {
            HotkeyPreset::CmdShiftV
        }
    }

    /// The virtual key code of the letter: that of C or of V.
    pub open spec fn letter_key(self) -> u16 {
        if self == HotkeyPreset::CmdShiftC {
            0x08
        } else {
            0x09
        }
    }

    /// Virtual key code of the letter key.
    pub fn key_code(self) -> (r: u16)
        ensures
            r == self.letter_key(),
    {
        if self == HotkeyPreset::CmdShiftC {
            0x08
        } else {
            0x09
        }
    }
}

// ── Settings ────────────────────────────────────────────────────────────────

/// The application's settings.
#[derive(Debug, Clone, Copy, PartialEq, Eq, Structural)]
pub struct Settings {
    /// Clipboard poll interval in milliseconds.
    pub poll_interval_ms: u64,
    /// Days for which unpinned items are kept (0 keeps them whatever their age).
    pub retention_days: i64,
    /// Most unpinned items that are kept.
    pub history_limit: usize,
    /// Whether to paste after an item was chosen.
    pub auto_paste: bool,
    /// Whether to start at login.
    pub launch_at_login: bool,
    /// Global hotkey preset.
    pub hotkey: HotkeyPreset,
}

/// The settings before any were stored.
pub open spec fn default_settings() -> Settings {
    Settings {
        poll_interval_ms: 500,
        retention_days: 30,
        history_limit: 1000,
        auto_paste: false,
        launch_at_login: false,
        hotkey: HotkeyPreset::CmdShiftV,
    }
}

impl Default for Settings {
    fn default() -> (r: Self)
        ensures
            r == default_settings(),
    {
        Settings {
            poll_interval_ms: 500,
            retention_days: 30,
            history_limit: 1000,
            auto_paste: false,
            launch_at_login: false,
            hotkey: HotkeyPreset::CmdShiftV,
        }
    }
}

/// The stored values, each where it could be read.
pub struct StoredSettings {
    pub auto_paste: Option<String>,
    pub poll_interval_ms: Option<String>,
    pub retention_days: Option<String>,
    pub history_limit: Option<String>,
    pub hotkey: Option<String>,
    pub launch_at_login: Option<String>,
}

/// The mathematical content of [`StoredSettings`].
#[verifier::ext_equal]
pub struct StoredModel {
    pub auto_paste: Option<Seq<char>>,
    pub poll_interval_ms: Option<Seq<char>>,
    pub retention_days: Option<Seq<char>>,
    pub history_limit: Option<Seq<char>>,
    pub hotkey: Option<Seq<char>>,
    pub launch_at_login: Option<Seq<char>>,
}

impl View for StoredSettings {
    type V = StoredModel;

    open spec fn view(&self) -> StoredModel {
        StoredModel {
            auto_paste: self.auto_paste.deep_view(),
            poll_interval_ms: self.poll_interval_ms.deep_view(),
            retention_days: self.retention_days.deep_view(),
            history_limit: self.history_limit.deep_view(),
            hotkey: self.hotkey.deep_view(),
            launch_at_login: self.launch_at_login.deep_view(),
        }
    }
}

/// Whether a stored value means yes.
pub open spec fn affirmative(v: Seq<char>) -> bool {
    v == "1"@ || text::ascii_lower(v) == "true"@ || text::ascii_lower(v) == "yes"@
}

/// The greater of two numbers.
pub open spec fn at_least(n: int, least: int) -> int {
    if n < least {
        least
    } else {
        n
    }
}

/// The settings that stored values denote. A value that is missing or cannot
/// be read leaves the default, and one below its least is raised to it.
pub open spec fn loaded(stored: StoredModel) -> Settings {
    let d = default_settings();
    Settings {
        poll_interval_ms: match stored.poll_interval_ms {
            Some(v) => match numbers::parsed_unsigned(v, u64::MAX as int) {
                Some(n) => at_least(n, 250) as u64,
                None => d.poll_interval_ms,
            },
            None => d.poll_interval_ms,
        },
        retention_days: match stored.retention_days {
            Some(v) => match numbers::parsed_signed(v, i64::MIN as int, i64::MAX as int) {
                Some(n) => at_least(n, 0) as i64,
                None => d.retention_days,
            },
            None => d.retention_days,
        },
        history_limit: match stored.history_limit {
            Some(v) => match numbers::parsed_unsigned(v, usize::MAX as int) {
                Some(n) => at_least(n, 10) as usize,
                None => d.history_limit,
            },
            None => d.history_limit,
        },
        auto_paste: match stored.auto_paste {
            Some(v) => affirmative(v),
            None => d.auto_paste,
        },
        launch_at_login: match stored.launch_at_login {
            Some(v) => affirmative(v),
            None => d.launch_at_login,
        },
        hotkey: match stored.hotkey {
            Some(v) => HotkeyPreset::named(text::ascii_lower(text::trimmed(v))),
            None => d.hotkey,
        },
    }
}

/// Whether a stored value means yes.
pub fn parse_bool(v: &str) -> (r: bool)
    ensures
        r == affirmative(v@),
{
    let lower: String = text::to_ascii_lower(v);
    text::same_text(v, "1") || text::same_text(lower.as_str(), "true") || text::same_text(
        lower.as_str(),
        "yes",
    )
}

/// One stored value: its key and its text.
#[derive(Debug)]
pub struct SettingEntry {
    pub key: String,
    pub value: String,
}

impl DeepView for SettingEntry {
    type V = (Seq<char>, Seq<char>);

    open spec fn deep_view(&self) -> (Seq<char>, Seq<char>) {
        (self.key@, self.value@)
    }
}

/// How a switch is stored.
pub open spec fn flag_text(on: bool) -> Seq<char> {
    if on {
        "1"@
    } else {
        "0"@
    }
}

/// What is stored of the settings: keys and values, in the order of writing.
pub open spec fn saved(s: Settings) -> Seq<(Seq<char>, Seq<char>)> {
    seq![
        (KEY_AUTO_PASTE@, flag_text(s.auto_paste)),
        (KEY_POLL_MS@, numbers::decimal(s.poll_interval_ms as nat)),
        (KEY_RETENTION_DAYS@, numbers::decimal_int(s.retention_days as int)),
        (KEY_HISTORY_LIMIT@, numbers::decimal(s.history_limit as nat)),
        (KEY_HOTKEY@, s.hotkey.name()),
        (KEY_LAUNCH_AT_LOGIN@, flag_text(s.launch_at_login)),
    ]
}

fn flag_string(on: bool) -> (r: String)
    ensures
        r@ == flag_text(on),
{
    if on {
        "1".to_owned()
    } else {
        "0".to_owned()
    }
}

fn entry(key: &str, value: String) -> (r: SettingEntry)
    ensures
        r.deep_view() == (key@, value@),
{
    SettingEntry { key: key.to_owned(), value }
}

impl Settings {
    /// The settings that stored values denote.
    pub fn load(stored: &StoredSettings) -> (r: Self)
        ensures
            r == loaded(stored@),
    {
        let mut s = Settings::default();
        if let Some(v) = &stored.auto_paste {
            s.auto_paste = parse_bool(v.as_str());
        }
        if let Some(v) = &stored.poll_interval_ms {
            if let Some(n) = numbers::parse_unsigned(v.as_str(), u64::MAX) {
                s.poll_interval_ms = if n < 250 {
                    250
                } else {
                    n
                };
            }
        }
        if let Some(v) = &stored.retention_days {
            if let Some(n) = numbers::parse_signed(v.as_str(), i64::MIN, i64::MAX) {
                s.retention_days = if n < 0 {
                    0
                } else {
                    n
                };
            }
        }
        if let Some(v) = &stored.history_limit {
            if let Some(n) = numbers::parse_unsigned(v.as_str(), usize::MAX as u64) {
                s.history_limit = if n < 10 {
                    10
                } else {
                    n as usize
                };
            }
        }
        if let Some(v) = &stored.hotkey {
            s.hotkey = HotkeyPreset::from_str(v.as_str());
        }
        if let Some(v) = &stored.launch_at_login {
            s.launch_at_login = parse_bool(v.as_str());
        }
        s
    }

    /// All that is to be stored of the settings.
    pub fn save_all(&self) -> (r: Vec<SettingEntry>)
        ensures
            r.deep_view() == saved(*self),
    {
        let mut r: Vec<SettingEntry> = Vec::new();
        r.push(self.save_auto_paste());
        r.push(entry(KEY_POLL_MS, numbers::decimal_string(self.poll_interval_ms)));
        r.push(entry(KEY_RETENTION_DAYS, numbers::decimal_string_signed(self.retention_days)));
        r.push(entry(KEY_HISTORY_LIMIT, numbers::decimal_string(self.history_limit as u64)));
        r.push(entry(KEY_HOTKEY, self.hotkey.as_str().to_owned()));
        r.push(entry(KEY_LAUNCH_AT_LOGIN, flag_string(self.launch_at_login)));
        assert(r.deep_view() =~= saved(*self));
        r
    }

    /// What is to be stored of the auto-paste switch.
    pub fn save_auto_paste(&self) -> (r: SettingEntry)
        ensures
            r.deep_view() == (KEY_AUTO_PASTE@, flag_text(self.auto_paste)),
    {
        entry(KEY_AUTO_PASTE, flag_string(self.auto_paste))
    }
}

// ── What is loaded of what was saved ────────────────────────────────────────

/// The value stored under a key, the last one written.
pub open spec fn value_of(entries: Seq<(Seq<char>, Seq<char>)>, key: Seq<char>) -> Option<
    Seq<char>,
>
    decreases entries.len(),
{
    if entries.len() == 0 {
        None
    } else if entries.last().0 == key {
        Some(entries.last().1)
    } else {
        value_of(entries.drop_last(), key)
    }
}

/// The stored values after the entries were written one after the other, each
/// in place of an earlier one under its key.
pub open spec fn stored_after(entries: Seq<(Seq<char>, Seq<char>)>) -> StoredModel {
    StoredModel {
        auto_paste: value_of(entries, KEY_AUTO_PASTE@),
        poll_interval_ms: value_of(entries, KEY_POLL_MS@),
        retention_days: value_of(entries, KEY_RETENTION_DAYS@),
        history_limit: value_of(entries, KEY_HISTORY_LIMIT@),
        hotkey: value_of(entries, KEY_HOTKEY@),
        launch_at_login: value_of(entries, KEY_LAUNCH_AT_LOGIN@),
    }
}

/// No two keys are the same.
proof fn lemma_keys_differ()
    ensures
        KEY_POLL_MS@ != KEY_AUTO_PASTE@,
        KEY_RETENTION_DAYS@ != KEY_AUTO_PASTE@,
        KEY_RETENTION_DAYS@ != KEY_POLL_MS@,
        KEY_HISTORY_LIMIT@ != KEY_AUTO_PASTE@,
        KEY_HISTORY_LIMIT@ != KEY_POLL_MS@,
        KEY_HISTORY_LIMIT@ != KEY_RETENTION_DAYS@,
        KEY_HOTKEY@ != KEY_AUTO_PASTE@,
        KEY_HOTKEY@ != KEY_POLL_MS@,
        KEY_HOTKEY@ != KEY_RETENTION_DAYS@,
        KEY_HOTKEY@ != KEY_HISTORY_LIMIT@,
        KEY_LAUNCH_AT_LOGIN@ != KEY_AUTO_PASTE@,
        KEY_LAUNCH_AT_LOGIN@ != KEY_POLL_MS@,
        KEY_LAUNCH_AT_LOGIN@ != KEY_RETENTION_DAYS@,
        KEY_LAUNCH_AT_LOGIN@ != KEY_HISTORY_LIMIT@,
        KEY_LAUNCH_AT_LOGIN@ != KEY_HOTKEY@,
{
    reveal_strlit("auto_paste");
    reveal_strlit("poll_interval_ms");
    reveal_strlit("retention_days");
    reveal_strlit("history_limit");
    reveal_strlit("hotkey_preset");
    reveal_strlit("launch_at_login");
    assert(KEY_AUTO_PASTE@[0] == 'a' && KEY_POLL_MS@[0] == 'p');
    assert(KEY_RETENTION_DAYS@[0] == 'r' && KEY_LAUNCH_AT_LOGIN@[0] == 'l');
    assert(KEY_HISTORY_LIMIT@[0] == 'h' && KEY_HISTORY_LIMIT@[1] == 'i');
    assert(KEY_HOTKEY@[0] == 'h' && KEY_HOTKEY@[1] == 'o');
}

/// Each key reads back its own value, whatever was stored before.
proof fn lemma_saved_values(earlier: Seq<(Seq<char>, Seq<char>)>, s: Settings)
    ensures
        stored_after(earlier + saved(s)) == (StoredModel {
            auto_paste: Some(flag_text(s.auto_paste)),
            poll_interval_ms: Some(numbers::decimal(s.poll_interval_ms as nat)),
            retention_days: Some(numbers::decimal_int(s.retention_days as int)),
            history_limit: Some(numbers::decimal(s.history_limit as nat)),
            hotkey: Some(s.hotkey.name()),
            launch_at_login: Some(flag_text(s.launch_at_login)),
        }),
{
    lemma_keys_differ();
    let e6 = earlier + saved(s);
    let e5 = e6.drop_last();
    let e4 = e5.drop_last();
    let e3 = e4.drop_last();
    let e2 = e3.drop_last();
    let e1 = e2.drop_last();
    reveal_with_fuel(value_of, 7);
    assert(e6.last().0 == KEY_LAUNCH_AT_LOGIN@);
    assert(e5.last() == (KEY_HOTKEY@, s.hotkey.name()));
    assert(e4.last().0 == KEY_HISTORY_LIMIT@);
    assert(e3.last().0 == KEY_RETENTION_DAYS@);
    assert(e2.last().0 == KEY_POLL_MS@);
    assert(e1.last() == (KEY_AUTO_PASTE@, flag_text(s.auto_paste)));
}

/// A switch reads back.
proof fn lemma_flag_reads_back(on: bool)
    ensures
        affirmative(flag_text(on)) == on,
{
    reveal_strlit("1");
    reveal_strlit("0");
    reveal_strlit("true");
    reveal_strlit("yes");
    assert("1"@[0] == '1');
    assert("0"@[0] == '0');
    assert(text::ascii_lower("0"@).len() == 1);
}

/// A text without white space at its ends and without capitals is its own
/// trimmed lower-case form.
proof fn lemma_plain(s: Seq<char>)
    requires
        s.len() > 0,
        !text::white_space(s.first()),
        !text::white_space(s.last()),
        forall|i: int| 0 <= i < s.len() ==> !('A' <= #[trigger] s[i] <= 'Z'),
    ensures
        text::ascii_lower(text::trimmed(s)) == s,
{
    assert(text::trimmed(s) == s);
    assert(text::ascii_lower(s) =~= s);
}

/// A hotkey reads back from its stored name.
pub proof fn law_hotkey_name_round_trip(h: HotkeyPreset)
    ensures
        HotkeyPreset::named(text::ascii_lower(text::trimmed(h.name()))) == h,
{
    reveal_strlit("cmd+shift+v");
    reveal_strlit("cmd+shift+c");
    reveal_strlit("cmd+option+v");
    reveal_strlit("ctrl+shift+v");
    reveal_strlit("command+shift+c");
    reveal_strlit("cmd+alt+v");
    reveal_strlit("command+option+v");
    reveal_strlit("control+shift+v");
    lemma_plain(h.name());
    assert("cmd+shift+v"@[10] == 'v' && "cmd+shift+c"@[10] == 'c');
    assert("cmd+option+v"@[1] == 'm' && "ctrl+shift+v"@[1] == 't');
}

/// Every preset stands in the menu at its position.
pub proof fn law_menu_position(h: HotkeyPreset)
    ensures
        0 <= h.position() < HotkeyPreset::ALL@.len(),
        HotkeyPreset::ALL@[h.position()] == h,
{
}

/// Settings within their limits load as they were saved, whatever was stored
/// before.
pub proof fn law_saved_settings_load_back(earlier: Seq<(Seq<char>, Seq<char>)>, s: Settings)
    requires
        s.poll_interval_ms >= 250,
        s.retention_days >= 0,
        s.history_limit >= 10,
    ensures
        loaded(stored_after(earlier + saved(s))) == s,
{
    lemma_saved_values(earlier, s);
    lemma_flag_reads_back(s.auto_paste);
    lemma_flag_reads_back(s.launch_at_login);
    law_hotkey_name_round_trip(s.hotkey);
    numbers::lemma_unsigned_round_trip(s.poll_interval_ms as nat, u64::MAX as int);
    numbers::lemma_unsigned_round_trip(s.history_limit as nat, usize::MAX as int);
    numbers::lemma_signed_round_trip(s.retention_days as int, i64::MIN as int, i64::MAX as int);
}

/// Loaded settings are within their limits, whatever was stored.
pub proof fn law_loaded_within_limits(stored: StoredModel)
    ensures
        loaded(stored).poll_interval_ms >= 250,
        loaded(stored).retention_days >= 0,
        loaded(stored).history_limit >= 10,
{
    if let Some(v) = stored.retention_days {
        numbers::lemma_parsed_in_range(v, i64::MIN as int, i64::MAX as int);
    }
}

// ── Options ─────────────────────────────────────────────────────────────────

/// The distance of two numbers.
pub open spec fn distance(a: int, b: int) -> int {
    if a < b {
        b - a
    } else {
        a - b
    }
}

/// Whether option `k` is the first of those nearest to `value`; 0 where there
/// are no options.
pub open spec fn is_nearest(options: Seq<i64>, value: int, k: int) -> bool {
    if options.len() == 0 {
        k == 0
    } else {
        &&& 0 <= k < options.len()
        &&& forall|j: int|
            0 <= j < options.len() ==> distance(options[k] as int, value) <= distance(
                #[trigger] options[j] as int,
                value,
            )
        &&& forall|j: int|
            0 <= j < k ==> distance(options[k] as int, value) < distance(
                #[trigger] options[j] as int,
                value,
            )
    }
}

fn abs_difference(a: i64, b: i64) -> (r: u64)
    ensures
        r == distance(a as int, b as int),
{
    if a < b {
        (b as i128 - a as i128) as u64
    } else {
        (a as i128 - b as i128) as u64
    }
}

/// The first of the options nearest to the value.
pub fn nearest_index(options: &[i64], value: i64) -> (r: usize)
    ensures
        is_nearest(options@, value as int, r as int),
{
    if options.len() == 0 {
        return 0;
    }
    let mut best: usize = 0;
    let mut i: usize = 1;
    while i < options.len()
        invariant
            options@.len() > 0,
            best < i <= options@.len(),
            forall|j: int|
                0 <= j < i ==> distance(options@[best as int] as int, value as int) <= distance(
                    #[trigger] options@[j] as int,
                    value as int,
                ),
            forall|j: int|
                0 <= j < best ==> distance(options@[best as int] as int, value as int) < distance(
                    #[trigger] options@[j] as int,
                    value as int,
                ),
        decreases options@.len() - i,
    {
        if abs_difference(options[i], value) < abs_difference(options[best], value) {
            best = i;
        }
        i += 1;
    }
    best
}

/// The first of the options nearest to an unsigned value. Beyond the largest
/// signed number all values have the same nearest option.
fn nearest_to_unsigned(options: &[i64], value: u64) -> (r: usize)
    ensures
        is_nearest(options@, value as int, r as int),
{
    let cut: i64 = if value > i64::MAX as u64 {
        i64::MAX
    } else {
        value as i64
    };
    let r: usize = nearest_index(options, cut);
    proof {
        let beyond = value - cut;
        assert forall|j: int| 0 <= j < options@.len() implies distance(
            #[trigger] options@[j] as int,
            value as int,
        ) == distance(options@[j] as int, cut as int) + beyond || beyond == 0 by {}
    }
    r
}

impl Settings {
    /// The poll interval's position among the options (the nearest).
    pub fn poll_interval_index(&self) -> (r: usize)
        ensures
            is_nearest(poll_options(), self.poll_interval_ms as int, r as int),
    {
        let options: [i64; 4] = [250, 500, 1000, 2000];
        assert(options@ =~= poll_options());
        nearest_to_unsigned(options.as_slice(), self.poll_interval_ms)
    }

    /// The retention's position among the options (the nearest).
    pub fn retention_index(&self) -> (r: usize)
        ensures
            is_nearest(RETENTION_DAY_OPTIONS@, self.retention_days as int, r as int),
    {
        nearest_index(RETENTION_DAY_OPTIONS.as_slice(), self.retention_days)
    }

    /// The history size's position among the options (the nearest).
    pub fn history_limit_index(&self) -> (r: usize)
        ensures
            is_nearest(limit_options(), self.history_limit as int, r as int),
    {
        let options: [i64; 5] = [100, 500, 1000, 5000, 10_000];
        assert(options@ =~= limit_options());
        nearest_to_unsigned(options.as_slice(), self.history_limit as u64)
    }
}

/// The poll interval options as signed numbers.
pub open spec fn poll_options() -> Seq<i64> {
    POLL_INTERVAL_OPTIONS@.map_values(|v: u64| v as i64)
}

/// The history size options as signed numbers.
pub open spec fn limit_options() -> Seq<i64> {
    HISTORY_LIMIT_OPTIONS@.map_values(|v: usize| v as i64)
}

/// An option is nearest to itself.
pub proof fn law_option_is_nearest(options: Seq<i64>, value: int, k: int, j: int)
    requires
        is_nearest(options, value, k),
        0 <= j < options.len(),
        options[j] == value,
    ensures
        options[k] == value,
{
}

// ── Labels ──────────────────────────────────────────────────────────────────

/// The label of a retention.
pub open spec fn retention_text(days: i64) -> Seq<char> {
    if days == 0 {
        "Unlimited (time)"@
    } else {
        numbers::decimal_int(days as int) + " days"@
    }
}

/// The label of a poll interval.
pub open spec fn poll_text(ms: u64) -> Seq<char> {
    if ms >= 1000 {
        numbers::decimal((ms / 1000) as nat) + fraction_text((ms % 1000) as int) + " s"@
    } else {
        numbers::decimal(ms as nat) + " ms"@
    }
}

/// The label of a history size.
pub open spec fn history_limit_text(n: usize) -> Seq<char> {
    numbers::decimal(n as nat) + " items"@
}

/// The label of a retention.
pub fn retention_label(days: i64) -> (r: String)
    ensures
        r@ == retention_text(days),
{
    if days == 0 {
        return "Unlimited (time)".to_owned();
    }
    let mut r: String = numbers::decimal_string_signed(days);
    r.append(" days");
    r
}

/// The fraction of a second that `thousandths` are, with its point and without
/// trailing zeros.
pub open spec fn fraction_text(thousandths: int) -> Seq<char> {
    if thousandths == 0 {
        Seq::empty()
    } else if thousandths % 100 == 0 {
        seq!['.'] + numbers::zero_padded((thousandths / 100) as nat, 1)
    } else if thousandths % 10 == 0 {
        seq!['.'] + numbers::zero_padded((thousandths / 10) as nat, 2)
    } else {
        seq!['.'] + numbers::zero_padded(thousandths as nat, 3)
    }
}

/// The label of a poll interval, in milliseconds below one second and in
/// seconds from there on. Fifteen digits are the most that a label is exact
/// for.
pub fn poll_label(ms: u64) -> (r: String)
    requires
        ms < 1_000_000_000_000_000,
    ensures
        r@ == poll_text(ms),
{
    if ms < 1000 {
        let mut r: String = numbers::decimal_string(ms);
        r.append(" ms");
        return r;
    }
    let mut r: String = numbers::decimal_string(ms / 1000);
    let t: u64 = ms % 1000;
    let ghost start = r@;
    if t != 0 {
        r.push('.');
        if t % 100 == 0 {
            numbers::push_padded(&mut r, t / 100, 1);
        } else if t % 10 == 0 {
            numbers::push_padded(&mut r, t / 10, 2);
        } else {
            numbers::push_padded(&mut r, t, 3);
        }
    }
    assert(r@ =~= start + fraction_text(t as int));
    r.append(" s");
    r
}

/// The label of a history size.
pub fn history_limit_label(n: usize) -> (r: String)
    ensures
        r@ == history_limit_text(n),
{
    let mut r: String = numbers::decimal_string(n as u64);
    r.append(" items");
    r
}

// ── What the settings are read from ─────────────────────────────────────────

/// Where nothing was stored, half a second, thirty days and a thousand items
/// apply, both switches are off, and the hotkey is ⌘⇧V.
pub proof fn law_nothing_stored(stored: StoredModel)
    ensures
        stored.poll_interval_ms is None ==> loaded(stored).poll_interval_ms == 500,
        stored.retention_days is None ==> loaded(stored).retention_days == 30,
        stored.history_limit is None ==> loaded(stored).history_limit == 1000,
        stored.auto_paste is None ==> !loaded(stored).auto_paste,
        stored.launch_at_login is None ==> !loaded(stored).launch_at_login,
        stored.hotkey is None ==> loaded(stored).hotkey == HotkeyPreset::CmdShiftV,
{
}

/// Each setting depends on the value under its own key alone.
pub proof fn law_settings_independent(a: StoredModel, b: StoredModel)
    ensures
        a.poll_interval_ms == b.poll_interval_ms ==> loaded(a).poll_interval_ms == loaded(
            b,
        ).poll_interval_ms,
        a.retention_days == b.retention_days ==> loaded(a).retention_days == loaded(
            b,
        ).retention_days,
        a.history_limit == b.history_limit ==> loaded(a).history_limit == loaded(b).history_limit,
        a.auto_paste == b.auto_paste ==> loaded(a).auto_paste == loaded(b).auto_paste,
        a.launch_at_login == b.launch_at_login ==> loaded(a).launch_at_login == loaded(
            b,
        ).launch_at_login,
        a.hotkey == b.hotkey ==> loaded(a).hotkey == loaded(b).hotkey,
{
}

/// A number that was stored is taken as it is from its least value on, and
/// raised to its least value below.
pub proof fn law_stored_numbers(stored: StoredModel, digits: Seq<char>)
    requires
        digits.len() > 0,
        forall|i: int| 0 <= i < digits.len() ==> '0' <= #[trigger] digits[i] <= '9',
    ensures
        stored.poll_interval_ms == Some(digits) && 250 <= numbers::value(digits) <= u64::MAX
            ==> loaded(stored).poll_interval_ms == numbers::value(digits),
        stored.poll_interval_ms == Some(digits) && numbers::value(digits) < 250 ==> loaded(
            stored,
        ).poll_interval_ms == 250,
        stored.poll_interval_ms == Some(digits) && numbers::value(digits) > u64::MAX ==> loaded(
            stored,
        ).poll_interval_ms == 500,
        stored.retention_days == Some(digits) && numbers::value(digits) <= i64::MAX ==> loaded(
            stored,
        ).retention_days == numbers::value(digits),
        stored.retention_days == Some(digits) && numbers::value(digits) > i64::MAX ==> loaded(
            stored,
        ).retention_days == 30,
        stored.retention_days == Some(seq!['-'] + digits) && -numbers::value(digits) >= i64::MIN
            ==> loaded(stored).retention_days == 0,
        stored.history_limit == Some(digits) && 10 <= numbers::value(digits) <= usize::MAX
            ==> loaded(stored).history_limit == numbers::value(digits),
        stored.history_limit == Some(digits) && numbers::value(digits) < 10 ==> loaded(
            stored,
        ).history_limit == 10,
        stored.history_limit == Some(digits) && numbers::value(digits) > usize::MAX ==> loaded(
            stored,
        ).history_limit == 1000,
{
    assert(numbers::all_digits(digits));
    numbers::law_unsigned_read(digits, u64::MAX as int, 0);
    numbers::law_unsigned_read(digits, usize::MAX as int, 0);
    numbers::law_signed_read(digits, i64::MIN as int, i64::MAX as int);
    numbers::lemma_digits_value(digits);
}

/// A stored number with anything but digits and a sign in it counts as not
/// stored.
pub proof fn law_unreadable_numbers(stored: StoredModel, v: Seq<char>, i: int)
    requires
        0 <= i < v.len(),
        !('0' <= v[i] <= '9'),
        v[i] != '+',
        v[i] != '-',
    ensures
        stored.poll_interval_ms == Some(v) ==> loaded(stored).poll_interval_ms == 500,
        stored.retention_days == Some(v) ==> loaded(stored).retention_days == 30,
        stored.history_limit == Some(v) ==> loaded(stored).history_limit == 1000,
{
    numbers::law_unsigned_read(v, u64::MAX as int, i);
    numbers::law_unsigned_read(v, usize::MAX as int, i);
    numbers::law_unreadable_signed(v, i64::MIN as int, i64::MAX as int, i);
}

/// A switch is on where `1`, or `true` or `yes` in any case, was stored, and
/// off with any other text.
pub proof fn law_stored_switches(stored: StoredModel, v: Seq<char>)
    ensures
        stored.auto_paste == Some(v) ==> (loaded(stored).auto_paste <==> (v == seq!['1'] || (v.len()
            == 4 && (v[0] == 't' || v[0] == 'T') && (v[1] == 'r' || v[1] == 'R') && (v[2] == 'u'
            || v[2] == 'U') && (v[3] == 'e' || v[3] == 'E')) || (v.len() == 3 && (v[0] == 'y'
            || v[0] == 'Y') && (v[1] == 'e' || v[1] == 'E') && (v[2] == 's' || v[2] == 'S')))),
        stored.launch_at_login == Some(v) && stored.auto_paste == Some(v) ==> loaded(
            stored,
        ).launch_at_login == loaded(stored).auto_paste,
{
    reveal_strlit("1");
    reveal_strlit("true");
    reveal_strlit("yes");
    let lower = text::ascii_lower(v);
    assert("1"@ =~= seq!['1']);
    assert("true"@ =~= seq!['t', 'r', 'u', 'e']);
    assert("yes"@ =~= seq!['y', 'e', 's']);
    assert(forall|i: int|
        0 <= i < v.len() ==> #[trigger] lower[i] == text::ascii_lower_char(v[i]));
    if v.len() == 4 {
        assert(lower =~= seq![lower[0], lower[1], lower[2], lower[3]]);
        assert(lower == "true"@ <==> lower[0] == 't' && lower[1] == 'r' && lower[2] == 'u'
            && lower[3] == 'e');
    }
    if v.len() == 3 {
        assert(lower =~= seq![lower[0], lower[1], lower[2]]);
        assert(lower == "yes"@ <==> lower[0] == 'y' && lower[1] == 'e' && lower[2] == 's');
    }
}

/// A stored hotkey is the one that was named, whatever white space stands
/// around the name and whatever its case; each preset but the default has its
/// names, and any other text is the default.
pub proof fn law_stored_hotkey(stored: StoredModel, v: Seq<char>)
    requires
        stored.hotkey == Some(v),
    ensures
        ({
            let name = text::ascii_lower(text::trimmed(v));
            &&& loaded(stored).hotkey == HotkeyPreset::CmdShiftC <==> (name == "cmd+shift+c"@
                || name == "command+shift+c"@)
            &&& loaded(stored).hotkey == HotkeyPreset::CmdOptionV <==> (name == "cmd+option+v"@
                || name == "cmd+alt+v"@ || name == "command+option+v"@)
            &&& loaded(stored).hotkey == HotkeyPreset::CtrlShiftV <==> (name == "ctrl+shift+v"@
                || name == "control+shift+v"@)
        }),
{
    reveal_strlit("cmd+shift+c");
    reveal_strlit("cmd+option+v");
    reveal_strlit("ctrl+shift+v");
    reveal_strlit("command+shift+c");
    reveal_strlit("cmd+alt+v");
    reveal_strlit("command+option+v");
    reveal_strlit("control+shift+v");
    assert("cmd+shift+c"@.last() == 'c' && "command+shift+c"@.last() == 'c');
    assert("cmd+option+v"@.last() == 'v' && "cmd+alt+v"@.last() == 'v');
    assert("command+option+v"@.last() == 'v' && "ctrl+shift+v"@.last() == 'v');
    assert("control+shift+v"@.last() == 'v');
    assert("cmd+option+v"@[1] == 'm' && "cmd+alt+v"@[1] == 'm' && "command+option+v"@[1] == 'o');
    assert("ctrl+shift+v"@[1] == 't' && "control+shift+v"@[1] == 'o');
    assert("command+option+v"@[2] == 'm' && "control+shift+v"@[2] == 'n');
}

/// What a hotkey shows: the letter last, the shift sign or the option sign
/// before it, and first the command sign, or the control sign for the one
/// preset without command. The stored name says the same in words.
pub proof fn law_hotkey_shown(h: HotkeyPreset)
    ensures
        h.symbols().len() == 3,
        h.symbols()[2] == (if h == HotkeyPreset::CmdShiftC {
            'C'
        } else {
            'V'
        }),
        h.symbols()[1] == (if h == HotkeyPreset::CmdOptionV {
            '⌥'
        } else {
            '⇧'
        }),
        h.symbols()[0] == (if h == HotkeyPreset::CtrlShiftV {
            '⌃'
        } else {
            '⌘'
        }),
        h.letter_key() == (if h.symbols()[2] == 'C' {
            0x08u16
        } else {
            0x09u16
        }),
        h.name().last() == text::ascii_lower_char(h.symbols()[2]),
{
    reveal_strlit("cmd+shift+v");
    reveal_strlit("cmd+shift+c");
    reveal_strlit("cmd+option+v");
    reveal_strlit("ctrl+shift+v");
    reveal_strlit("⌘⇧V");
    reveal_strlit("⌘⇧C");
    reveal_strlit("⌘⌥V");
    reveal_strlit("⌃⇧V");
}

/// No option is nearer than the one that is shown, and none before it is as
/// near.
pub proof fn law_nearest(options: Seq<i64>, value: int, k: int, j: int)
    requires
        is_nearest(options, value, k),
        0 <= j < options.len(),
    ensures
        0 <= k < options.len(),
        options[k] >= value && options[j] >= value ==> options[k] <= options[j],
        options[k] <= value && options[j] <= value ==> options[k] >= options[j],
        options[k] >= value && options[j] <= value ==> options[k] - value <= value - options[j],
        options[k] <= value && options[j] >= value ==> value - options[k] <= options[j] - value,
        j < k && options[j] <= value <= options[k] ==> options[k] - value < value - options[j],
        j < k && options[k] <= value <= options[j] ==> value - options[k] < options[j] - value,
        j < k ==> options[j] != options[k],
{
    assert(distance(options[k] as int, value) <= distance(options[j] as int, value));
}

/// Without options the first place is shown.
pub proof fn law_nearest_of_none(value: int, k: int)
    ensures
        is_nearest(Seq::empty(), value, k) <==> k == 0,
{
}

/// The options that are compared with are the ones that are shown.
pub proof fn law_options(i: int)
    ensures
        poll_options().len() == 4,
        limit_options().len() == 5,
        0 <= i < 4 ==> poll_options()[i] == POLL_INTERVAL_OPTIONS@[i],
        0 <= i < 5 ==> limit_options()[i] == HISTORY_LIMIT_OPTIONS@[i],
{
    if 0 <= i < 5 {
        assert(HISTORY_LIMIT_OPTIONS@[i] <= 10_000);
    }
}

/// A label gives its number in decimal digits and its unit, and 0 days are
/// without limit.
pub proof fn law_labels(days: i64, n: usize, ms: u64)
    ensures
        days > 0 ==> exists|d: Seq<char>| #[trigger]
            numbers::all_digits(d) && numbers::value(d) == days && retention_text(days) == d
                + " days"@,
        retention_text(0) == "Unlimited (time)"@,
        exists|d: Seq<char>| #[trigger]
            numbers::all_digits(d) && numbers::value(d) == n && history_limit_text(n) == d
                + " items"@,
        ms < 1000 ==> exists|d: Seq<char>| #[trigger]
            numbers::all_digits(d) && numbers::value(d) == ms && poll_text(ms) == d + " ms"@,
        ms >= 1000 && ms % 1000 == 0 ==> exists|d: Seq<char>| #[trigger]
            numbers::all_digits(d) && numbers::value(d) * 1000 == ms && poll_text(ms) == d + " s"@,
{
    numbers::lemma_decimal(n as nat);
    assert(numbers::all_digits(numbers::decimal(n as nat)));
    if days > 0 {
        numbers::lemma_decimal(days as nat);
        assert(numbers::all_digits(numbers::decimal(days as nat)));
    }
    numbers::lemma_decimal(ms as nat);
    assert(numbers::all_digits(numbers::decimal(ms as nat)));
    numbers::lemma_decimal((ms / 1000) as nat);
    assert(numbers::all_digits(numbers::decimal((ms / 1000) as nat)));
    assert(fraction_text(0) =~= Seq::empty());
    assert(numbers::decimal((ms / 1000) as nat) + fraction_text(0) + " s"@ =~= numbers::decimal(
        (ms / 1000) as nat,
    ) + " s"@);
}

/// A label in seconds reads back: the digits before the point are the whole
/// seconds, those behind it the rest, and the last of them is not 0.
pub proof fn law_label_in_seconds(ms: u64)
    requires
        ms >= 1000,
        ms % 1000 != 0,
    ensures
        exists|w: Seq<char>, f: Seq<char>|
            #![trigger numbers::all_digits(w), numbers::all_digits(f)]
            numbers::all_digits(w) && numbers::all_digits(f) && poll_text(ms) == w + seq!['.'] + f
                + " s"@ && 1 <= f.len() <= 3 && f.last() != '0' && numbers::value(w) * 1000
                + numbers::value(f) * (if f.len() == 1 {
                100int
            } else if f.len() == 2 {
                10
            } else {
                1
            }) == ms,
{
    let whole = (ms / 1000) as nat;
    let t = (ms % 1000) as int;
    let (part, width): (nat, nat) = if t % 100 == 0 {
        ((t / 100) as nat, 1)
    } else if t % 10 == 0 {
        ((t / 10) as nat, 2)
    } else {
        (t as nat, 3)
    };
    let w = numbers::decimal(whole);
    let f = numbers::zero_padded(part, width);
    numbers::lemma_decimal(whole);
    numbers::lemma_zero_padded(part, width);
    numbers::lemma_short(part, width);
    assert(numbers::all_digits(w) && numbers::all_digits(f));
    assert(w + (seq!['.'] + f) + " s"@ =~= w + seq!['.'] + f + " s"@);
}

/// Each setting is stored under its own key.
pub proof fn law_saved_entries(s: Settings)
    ensures
        saved(s).contains(
            ("auto_paste"@, if s.auto_paste {
                "1"@
            } else {
                "0"@
            }),
        ),
        saved(s).contains(
            ("launch_at_login"@, if s.launch_at_login {
                "1"@
            } else {
                "0"@
            }),
        ),
        saved(s).contains(("poll_interval_ms"@, numbers::decimal(s.poll_interval_ms as nat))),
        saved(s).contains(("history_limit"@, numbers::decimal(s.history_limit as nat))),
        saved(s).contains(("hotkey_preset"@, s.hotkey.name())),
        s.retention_days >= 0 ==> saved(s).contains(
            ("retention_days"@, numbers::decimal(s.retention_days as nat)),
        ),
        saved(s).len() == 6,
{
    assert(saved(s)[0].0 == "auto_paste"@);
    assert(saved(s)[1].0 == "poll_interval_ms"@);
    assert(saved(s)[2].0 == "retention_days"@);
    assert(saved(s)[3].0 == "history_limit"@);
    assert(saved(s)[4].0 == "hotkey_preset"@);
    assert(saved(s)[5].0 == "launch_at_login"@);
}

/// The settings before any were stored.
pub proof fn law_default_settings()
    ensures
        default_settings().poll_interval_ms == 500,
        default_settings().retention_days == 30,
        default_settings().history_limit == 1000,
        !default_settings().auto_paste,
        !default_settings().launch_at_login,
        default_settings().hotkey == HotkeyPreset::CmdShiftV,
{
}

/// What is read of the stored values is what was stored.
pub proof fn law_stored_view(s: StoredSettings)
    ensures
        s@.auto_paste == s.auto_paste.deep_view(),
        s@.poll_interval_ms == s.poll_interval_ms.deep_view(),
        s@.retention_days == s.retention_days.deep_view(),
        s@.history_limit == s.history_limit.deep_view(),
        s@.hotkey == s.hotkey.deep_view(),
        s@.launch_at_login == s.launch_at_login.deep_view(),
{
}

} // verus!
