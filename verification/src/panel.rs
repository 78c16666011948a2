//! The layout of the popover: where its controls stand and what they say.
//!
//! Lengths are in points. A frame is given by its lower left corner, in the
//! coordinates of the view that holds it, and its size.
use vstd::prelude::*;

use crate::settings;
use crate::settings::HotkeyPreset;

verus! {

/// Size of the popover.
pub const POPOVER_WIDTH: i32 = 380;

pub const POPOVER_HEIGHT: i32 = 500;

/// Height of the header line.
pub const HEADER_HEIGHT: i32 = 30;

/// Height of the search field.
pub const SEARCH_HEIGHT: i32 = 28;

/// Height of the toolbar.
pub const TOOLBAR_HEIGHT: i32 = 22;

/// Height of the status line.
pub const STATUS_HEIGHT: i32 = 20;

/// Margin at either side.
pub const PAD: i32 = 12;

/// Height of a list row.
pub const ROW_HEIGHT: i32 = 32;

/// Height of a section's header.
pub const SECTION_HEIGHT: i32 = 18;

/// Height of a hairline.
pub const HAIRLINE_HEIGHT: i32 = 1;

/// Width of the column for ages.
pub const AGE_WIDTH: i32 = 44;

/// Height of a menu button.
pub const MENU_HEIGHT: i32 = 26;

/// Width of the labels in the settings.
pub const LABEL_WIDTH: i32 = 112;

/// A rectangle.
#[derive(Debug, Clone, Copy, PartialEq, Eq, Structural)]
pub struct Frame {
    pub x: i32,
    pub y: i32,
    pub w: i32,
    pub h: i32,
}

/// The rectangle with this corner and size.
pub open spec fn frame(x: int, y: int, w: int, h: int) -> Frame {
    Frame { x: x as i32, y: y as i32, w: w as i32, h: h as i32 }
}

impl Frame {
    /// Whether the rectangle lies in a view of the given size.
    pub open spec fn lies_in(self, w: int, h: int) -> bool {
        &&& 0 <= self.x
        &&& 0 <= self.y
        &&& 0 < self.w
        &&& 0 < self.h
        &&& self.x + self.w <= w
        &&& self.y + self.h <= h
    }

    /// Whether the rectangles have no point in common.
    pub open spec fn apart(self, other: Frame) -> bool {
        ||| self.x + self.w <= other.x
        ||| other.x + other.w <= self.x
        ||| self.y + self.h <= other.y
        ||| other.y + other.h <= self.y
    }
}

/// A control: its frame, its title and its tooltip, empty where it has none.
#[derive(Debug, Clone, Copy)]
pub struct Control {
    pub frame: Frame,
    pub title: &'static str,
    pub tool_tip: &'static str,
}

impl Control {
    /// Whether the control is the one described.
    pub open spec fn is(self, f: Frame, title: Seq<char>, tool_tip: Seq<char>) -> bool {
        self.frame == f && self.title@ == title && self.tool_tip@ == tool_tip
    }
}

fn control(x: i32, y: i32, w: i32, h: i32, title: &'static str, tool_tip: &'static str) -> (r:
    Control)
    ensures
        r.is((Frame { x, y, w, h }), title@, tool_tip@),
{
    Control { frame: Frame { x, y, w, h }, title, tool_tip }
}

// ── The popover ─────────────────────────────────────────────────────────────

/// The popover's controls, and which of them are seen at first. Those of the
/// history are placed in its view.
#[derive(Debug, Clone, Copy)]
pub struct PopoverLayout {
    pub wordmark: Control,
    pub hotkey_hint: Control,
    pub settings_button: Control,
    pub header_line: Frame,
    pub history: Frame,
    pub search: Control,
    pub auto_paste: Control,
    pub clear: Control,
    pub select: Control,
    pub delete: Control,
    pub cancel: Control,
    pub list: Frame,
    pub status_line: Frame,
    /// The first text of the status line.
    pub status_text: &'static str,
    /// The first text of an empty list.
    pub empty_text: &'static str,
    pub settings_hidden: bool,
    pub history_hidden: bool,
    pub auto_paste_hidden: bool,
    pub clear_hidden: bool,
    pub select_hidden: bool,
    pub delete_hidden: bool,
    pub delete_enabled: bool,
    pub cancel_hidden: bool,
    pub status_hidden: bool,
}

impl PopoverLayout {
    /// Whether everything lies in its view and nothing that is shown at the
    /// same time covers anything else: header, history and status line in the
    /// popover; search field, toolbar and list in the history's view.
    pub open spec fn tidy(self) -> bool {
        let w = POPOVER_WIDTH as int;
        let h = POPOVER_HEIGHT as int;
        let inner = self.history.h as int;
        &&& self.wordmark.frame.lies_in(w, h)
        &&& self.hotkey_hint.frame.lies_in(w, h)
        &&& self.settings_button.frame.lies_in(w, h)
        &&& self.header_line.lies_in(w, h)
        &&& self.history.lies_in(w, h)
        &&& self.status_line.lies_in(w, h)
        &&& self.wordmark.frame.apart(self.hotkey_hint.frame)
        &&& self.hotkey_hint.frame.apart(self.settings_button.frame)
        &&& self.wordmark.frame.apart(self.header_line)
        &&& self.history.apart(self.header_line)
        &&& self.history.apart(self.status_line)
        &&& self.search.frame.lies_in(w, inner)
        &&& self.auto_paste.frame.lies_in(w, inner)
        &&& self.select.frame.lies_in(w, inner)
        &&& self.clear.frame.lies_in(w, inner)
        &&& self.delete.frame.lies_in(w, inner)
        &&& self.cancel.frame.lies_in(w, inner)
        &&& self.list.lies_in(w, inner)
        &&& self.search.frame.apart(self.auto_paste.frame)
        &&& self.search.frame.apart(self.select.frame)
        &&& self.search.frame.apart(self.clear.frame)
        &&& self.auto_paste.frame.apart(self.select.frame)
        &&& self.select.frame.apart(self.clear.frame)
        &&& self.list.apart(self.auto_paste.frame)
        &&& self.list.apart(self.select.frame)
        &&& self.list.apart(self.clear.frame)
    }
}

/// Lays the popover out from the top: header, search field, toolbar, list and
/// status line. At first the history is seen, with the toolbar for browsing it;
/// the settings, the buttons for a selection and the status line are not.
pub fn build_popover() -> (r: PopoverLayout)
    ensures
        r.wordmark.is(frame(12, 464, 100, 24), "ClipPin"@, ""@),
        r.hotkey_hint.is(frame(276, 466, 52, 16), "⌘⇧V"@, "Global hotkey"@),
        r.settings_button.is(frame(342, 463, 26, 22), "Settings"@, "Settings"@),
        r.header_line == frame(12, 458, 356, 1),
        r.history == frame(0, 20, 380, 434),
        r.search.is(frame(12, 400, 356, 28), "Search"@, ""@),
        r.auto_paste.is(
            frame(12, 372, 108, 22),
            "Auto-paste"@,
            "After copying an item, simulate ⌘V into the frontmost app."@,
        ),
        r.clear.is(
            frame(310, 372, 58, 22),
            "Clear"@,
            "Clear unpinned history (pinned items are kept)"@,
        ),
        r.select.is(frame(248, 372, 58, 22), "Select"@, "Select multiple items to delete"@),
        r.delete.is(frame(248, 372, 82, 22), "Delete"@, "Delete selected items"@),
        r.cancel.is(frame(310, 372, 58, 22), "Cancel"@, "Exit selection mode"@),
        r.list == frame(0, 0, 380, 366),
        r.status_line == frame(12, 3, 356, 14),
        r.hotkey_hint.title@ == settings::default_settings().hotkey.symbols(),
        r.settings_hidden,
        !r.history_hidden,
        !r.auto_paste_hidden && !r.clear_hidden && !r.select_hidden,
        r.delete_hidden && !r.delete_enabled,
        r.cancel_hidden,
        r.status_hidden && r.status_text@.len() == 0,
        r.empty_text@ == "No history yet\nCopy something to get started"@,
        r.tidy(),
{
    let inner: i32 = POPOVER_WIDTH - PAD * 2;
    let right: i32 = POPOVER_WIDTH - PAD;
    let header_y: i32 = POPOVER_HEIGHT - HEADER_HEIGHT - 6;
    let history_top: i32 = header_y - 10;
    let history_h: i32 = history_top - STATUS_HEIGHT;
    let toolbar_y: i32 = history_h - SEARCH_HEIGHT - TOOLBAR_HEIGHT - 12;
    let button_w: i32 = 58;
    let list_top: i32 = SEARCH_HEIGHT + TOOLBAR_HEIGHT + 18;
    proof {
        reveal_strlit("");
    }
    PopoverLayout {
        wordmark: control(PAD, header_y, 100, HEADER_HEIGHT - 6, "ClipPin", ""),
        hotkey_hint: control(right - 92, header_y + 2, 52, 16, "⌘⇧V", "Global hotkey"),
        settings_button: control(right - 26, header_y - 1, 26, 22, "Settings", "Settings"),
        header_line: Frame { x: PAD, y: header_y - 6, w: inner, h: HAIRLINE_HEIGHT },
        history: Frame { x: 0, y: STATUS_HEIGHT, w: POPOVER_WIDTH, h: history_h },
        search: control(PAD, history_h - SEARCH_HEIGHT - 6, inner, SEARCH_HEIGHT, "Search", ""),
        auto_paste: control(
            PAD,
            toolbar_y,
            108,
            TOOLBAR_HEIGHT,
            "Auto-paste",
            "After copying an item, simulate ⌘V into the frontmost app.",
        ),
        clear: control(
            right - button_w,
            toolbar_y,
            button_w,
            TOOLBAR_HEIGHT,
            "Clear",
            "Clear unpinned history (pinned items are kept)",
        ),
        select: control(
            right - button_w * 2 - 4,
            toolbar_y,
            button_w,
            TOOLBAR_HEIGHT,
            "Select",
            "Select multiple items to delete",
        ),
        delete: control(
            right - button_w * 2 - 4,
            toolbar_y,
            button_w + 24,
            TOOLBAR_HEIGHT,
            "Delete",
            "Delete selected items",
        ),
        cancel: control(
            right - button_w,
            toolbar_y,
            button_w,
            TOOLBAR_HEIGHT,
            "Cancel",
            "Exit selection mode",
        ),
        list: Frame { x: 0, y: 0, w: POPOVER_WIDTH, h: history_h - list_top },
        status_line: Frame { x: PAD, y: 3, w: inner, h: STATUS_HEIGHT - 6 },
        status_text: "",
        empty_text: "No history yet\nCopy something to get started",
        settings_hidden: true,
        history_hidden: false,
        auto_paste_hidden: false,
        clear_hidden: false,
        select_hidden: false,
        delete_hidden: true,
        delete_enabled: false,
        cancel_hidden: true,
        status_hidden: true,
    }
}

// ── The settings ────────────────────────────────────────────────────────────

/// A header in the settings and the line below which the next control stands.
struct Section {
    header: Control,
    below: i32,
}

/// The frame of a section's header whose lower left corner is given.
fn section_header(x: i32, y: i32, w: i32) -> (r: Frame)
    requires
        -1_000_000 <= x <= 1_000_000,
        -1_000_000 <= w <= 1_000_000,
    ensures
        r == frame(x + 2, y as int, w - 2, 18),
{
    Frame { x: x + 2, y, w: w - 2, h: SECTION_HEIGHT }
}

/// Places a section's header under `top` and leaves a gap below it.
fn place_settings_section(title: &'static str, top: i32, gap_after: i32) -> (r: Section)
    requires
        -1_000_000 <= top <= 1_000_000,
        -1_000_000 <= gap_after <= 1_000_000,
    ensures
        r.header.is(frame(14, top - 18, 354, 18), title@, ""@),
        r.below == top - 18 - gap_after,
{
    let bottom: i32 = top - SECTION_HEIGHT;
    let f = section_header(PAD, bottom, POPOVER_WIDTH - PAD * 2);
    Section { header: Control { frame: f, title, tool_tip: "" }, below: bottom - gap_after }
}

/// The frame of a label centred beside a control.
fn add_field_label(x: i32, control_bottom: i32, control_h: i32) -> (r: Frame)
    requires
        -1_000_000 <= control_bottom <= 1_000_000,
        16 <= control_h <= 1_000_000,
    ensures
        r == frame(x as int, control_bottom + (control_h - 16) / 2, 112, 16),
{
    Frame { x, y: control_bottom + (control_h - 16) / 2, w: LABEL_WIDTH, h: 16 }
}

/// A menu with its label.
#[derive(Debug, Clone, Copy)]
pub struct LabelledMenu {
    pub label: Control,
    pub menu: Frame,
}

/// The entries of the menu for the poll interval.
pub open spec fn poll_entries() -> Seq<Seq<char>> {
    settings::POLL_INTERVAL_OPTIONS@.map_values(|ms: u64| settings::poll_text(ms))
}

/// The entries of the menu for the retention.
pub open spec fn retention_entries() -> Seq<Seq<char>> {
    settings::RETENTION_DAY_OPTIONS@.map_values(|days: i64| settings::retention_text(days))
}

/// The entries of the menu for the history size.
pub open spec fn history_limit_entries() -> Seq<Seq<char>> {
    settings::HISTORY_LIMIT_OPTIONS@.map_values(|n: usize| settings::history_limit_text(n))
}

/// The entries of the menu for the hotkey.
pub open spec fn hotkey_entries() -> Seq<Seq<char>> {
    HotkeyPreset::ALL@.map_values(|h: HotkeyPreset| h.symbols())
}

fn poll_titles() -> (r: Vec<String>)
    ensures
        r.deep_view() == poll_entries(),
{
    let options: [u64; 4] = settings::POLL_INTERVAL_OPTIONS;
    let mut r: Vec<String> = Vec::new();
    let mut i: usize = 0;
    while i < 4
        invariant
            i <= 4,
            options == settings::POLL_INTERVAL_OPTIONS,
            r.deep_view() == poll_entries().take(i as int),
        decreases 4 - i,
    {
        let ghost prior = r.deep_view();
        assert(options@[0] == 250 && options@[1] == 500);
        assert(options@[2] == 1000 && options@[3] == 2000);
        r.push(settings::poll_label(options[i]));
        assert(r.deep_view() =~= prior.push(poll_entries()[i as int]));
        i += 1;
        assert(r.deep_view() =~= poll_entries().take(i as int));
    }
    assert(poll_entries().take(4) =~= poll_entries());
    r
}

fn retention_titles() -> (r: Vec<String>)
    ensures
        r.deep_view() == retention_entries(),
{
    let options: [i64; 5] = settings::RETENTION_DAY_OPTIONS;
    let mut r: Vec<String> = Vec::new();
    let mut i: usize = 0;
    while i < 5
        invariant
            i <= 5,
            options == settings::RETENTION_DAY_OPTIONS,
            r.deep_view() == retention_entries().take(i as int),
        decreases 5 - i,
    {
        let ghost prior = r.deep_view();
        r.push(settings::retention_label(options[i]));
        assert(r.deep_view() =~= prior.push(retention_entries()[i as int]));
        i += 1;
        assert(r.deep_view() =~= retention_entries().take(i as int));
    }
    assert(retention_entries().take(5) =~= retention_entries());
    r
}

fn history_limit_titles() -> (r: Vec<String>)
    ensures
        r.deep_view() == history_limit_entries(),
{
    let options: [usize; 5] = settings::HISTORY_LIMIT_OPTIONS;
    let mut r: Vec<String> = Vec::new();
    let mut i: usize = 0;
    while i < 5
        invariant
            i <= 5,
            options == settings::HISTORY_LIMIT_OPTIONS,
            r.deep_view() == history_limit_entries().take(i as int),
        decreases 5 - i,
    {
        let ghost prior = r.deep_view();
        r.push(settings::history_limit_label(options[i]));
        assert(r.deep_view() =~= prior.push(history_limit_entries()[i as int]));
        i += 1;
        assert(r.deep_view() =~= history_limit_entries().take(i as int));
    }
    assert(history_limit_entries().take(5) =~= history_limit_entries());
    r
}

fn hotkey_titles() -> (r: Vec<String>)
    ensures
        r.deep_view() == hotkey_entries(),
{
    let options: [HotkeyPreset; 4] = HotkeyPreset::ALL;
    let mut r: Vec<String> = Vec::new();
    let mut i: usize = 0;
    while i < 4
        invariant
            i <= 4,
            options == HotkeyPreset::ALL,
            r.deep_view() == hotkey_entries().take(i as int),
        decreases 4 - i,
    {
        let ghost prior = r.deep_view();
        r.push(options[i].display().to_owned());
        assert(r.deep_view() =~= prior.push(hotkey_entries()[i as int]));
        i += 1;
        assert(r.deep_view() =~= hotkey_entries().take(i as int));
    }
    assert(hotkey_entries().take(4) =~= hotkey_entries());
    r
}

/// The panel with the settings, its controls and the entries of its menus.
#[derive(Debug)]
pub struct SettingsLayout {
    pub panel: Frame,
    pub history_header: Control,
    pub poll: LabelledMenu,
    pub retention: LabelledMenu,
    pub history_limit: LabelledMenu,
    pub shortcuts_header: Control,
    pub hotkey: LabelledMenu,
    pub general_header: Control,
    pub launch_at_login: Control,
    pub note: Control,
    pub poll_titles: Vec<String>,
    pub retention_titles: Vec<String>,
    pub history_limit_titles: Vec<String>,
    pub hotkey_titles: Vec<String>,
}

impl LabelledMenu {
    /// Whether the menu stands at the height, with the label beside it.
    pub open spec fn stands_at(self, y: int, label: Seq<char>) -> bool {
        &&& self.label.is(frame(12, y + 5, 112, 16), label, ""@)
        &&& self.menu == frame(134, y, 234, 26)
    }
}

fn labelled_menu(y: i32, label: &'static str) -> (r: LabelledMenu)
    requires
        0 <= y <= 1_000,
    ensures
        r.stands_at(y as int, label@),
{
    let x: i32 = PAD + LABEL_WIDTH + 10;
    LabelledMenu {
        label: Control { frame: add_field_label(PAD, y, MENU_HEIGHT), title: label, tool_tip: "" },
        menu: Frame { x, y, w: POPOVER_WIDTH - x - PAD, h: MENU_HEIGHT },
    }
}

/// Whether the second rectangle stands below the first, in a view of the given
/// size.
pub open spec fn stacked(upper: Frame, lower: Frame, w: int, h: int) -> bool {
    upper.lies_in(w, h) && lower.lies_in(w, h) && lower.y + lower.h <= upper.y
}

impl SettingsLayout {
    /// Whether the controls stand below one another in the panel.
    pub open spec fn tidy(&self) -> bool {
        let w = self.panel.w as int;
        let h = self.panel.h as int;
        &&& self.panel.lies_in(POPOVER_WIDTH as int, POPOVER_HEIGHT as int)
        &&& stacked(self.history_header.frame, self.poll.menu, w, h)
        &&& stacked(self.poll.menu, self.retention.menu, w, h)
        &&& stacked(self.retention.menu, self.history_limit.menu, w, h)
        &&& stacked(self.history_limit.menu, self.shortcuts_header.frame, w, h)
        &&& stacked(self.shortcuts_header.frame, self.hotkey.menu, w, h)
        &&& stacked(self.hotkey.menu, self.general_header.frame, w, h)
        &&& stacked(self.general_header.frame, self.launch_at_login.frame, w, h)
        &&& stacked(self.launch_at_login.frame, self.note.frame, w, h)
        &&& self.poll.label.frame.apart(self.poll.menu)
        &&& self.retention.label.frame.apart(self.retention.menu)
        &&& self.history_limit.label.frame.apart(self.history_limit.menu)
        &&& self.hotkey.label.frame.apart(self.hotkey.menu)
    }
}

/// Lays the settings out from the top, section by section.
pub fn build_settings_panel() -> (r: SettingsLayout)
    ensures
        r.panel == frame(0, 20, 380, 440),
        r.history_header.is(frame(14, 408, 354, 18), "HISTORY"@, ""@),
        r.poll.stands_at(376, "Poll interval"@),
        r.retention.stands_at(340, "Keep history"@),
        r.history_limit.stands_at(304, "Max items"@),
        r.shortcuts_header.is(frame(14, 266, 354, 18), "SHORTCUTS"@, ""@),
        r.hotkey.stands_at(234, "Hotkey"@),
        r.general_header.is(frame(14, 196, 354, 18), "GENERAL"@, ""@),
        r.launch_at_login.is(
            frame(12, 168, 356, 22),
            "Launch at login"@,
            "Start ClipPin when you log in. Uses SMAppService for .app installs, or a LaunchAgent for cargo/dev builds."@,
        ),
        r.note.is(
            frame(14, 132, 354, 28),
            "Packaged apps use Login Items. Dev builds use a LaunchAgent."@,
            ""@,
        ),
        r.poll_titles.deep_view() == poll_entries(),
        r.retention_titles.deep_view() == retention_entries(),
        r.history_limit_titles.deep_view() == history_limit_entries(),
        r.hotkey_titles.deep_view() == hotkey_entries(),
        r.tidy(),
{
    let panel = Frame {
        x: 0,
        y: STATUS_HEIGHT,
        w: POPOVER_WIDTH,
        h: POPOVER_HEIGHT - HEADER_HEIGHT - STATUS_HEIGHT - 10,
    };
    let inner: i32 = POPOVER_WIDTH - PAD * 2;
    let row_gap: i32 = 10;
    let group_gap: i32 = 20;
    let header_gap: i32 = 6;
    let history = place_settings_section("HISTORY", panel.h - 14, header_gap);
    let poll_y: i32 = history.below - MENU_HEIGHT;
    let retention_y: i32 = poll_y - row_gap - MENU_HEIGHT;
    let limit_y: i32 = retention_y - row_gap - MENU_HEIGHT;
    let shortcuts = place_settings_section("SHORTCUTS", limit_y - group_gap, header_gap);
    let hotkey_y: i32 = shortcuts.below - MENU_HEIGHT;
    let general = place_settings_section("GENERAL", hotkey_y - group_gap, header_gap);
    let check_y: i32 = general.below - 22;
    let note_y: i32 = check_y - 8 - 28;
    SettingsLayout {
        panel,
        history_header: history.header,
        poll: labelled_menu(poll_y, "Poll interval"),
        retention: labelled_menu(retention_y, "Keep history"),
        history_limit: labelled_menu(limit_y, "Max items"),
        shortcuts_header: shortcuts.header,
        hotkey: labelled_menu(hotkey_y, "Hotkey"),
        general_header: general.header,
        launch_at_login: control(
            PAD,
            check_y,
            inner,
            22,
            "Launch at login",
            "Start ClipPin when you log in. Uses SMAppService for .app installs, or a LaunchAgent for cargo/dev builds.",
        ),
        note: control(
            PAD + 2,
            note_y,
            inner - 2,
            28,
            "Packaged apps use Login Items. Dev builds use a LaunchAgent.",
            "",
        ),
        poll_titles: poll_titles(),
        retention_titles: retention_titles(),
        history_limit_titles: history_limit_titles(),
        hotkey_titles: hotkey_titles(),
    }
}

/// A control of the settings.
#[derive(Debug, Clone, Copy, PartialEq, Eq, Structural)]
pub enum SettingsControl {
    Poll,
    Retention,
    HistoryLimit,
    Hotkey,
    LaunchAtLogin,
}

impl SettingsControl {
    /// The tag by which the control is found again.
    pub open spec fn number(self) -> isize {
        match self {
            SettingsControl::Poll => 1,
            SettingsControl::Retention => 2,
            SettingsControl::HistoryLimit => 3,
            SettingsControl::Hotkey => 4,
            SettingsControl::LaunchAtLogin => 5,
        }
    }

    /// The tag by which the control is found again.
    pub fn tag(self) -> (r: isize)
        ensures
            r == self.number(),
    {
        match self {
            SettingsControl::Poll => 1,
            SettingsControl::Retention => 2,
            SettingsControl::HistoryLimit => 3,
            SettingsControl::Hotkey => 4,
            SettingsControl::LaunchAtLogin => 5,
        }
    }

    /// The control with a tag. Menus are told from buttons, whose tags are
    /// their own.
    pub fn with_tag(is_menu: bool, tag: isize) -> (r: Option<Self>)
        ensures
            match r {
                Some(c) => c.number() == tag && is_menu == (c != SettingsControl::LaunchAtLogin),
                None => if is_menu {
                    tag < 1 || tag > 4
                } else {
                    tag != 5
                },
            },
    {
        if is_menu {
            if tag == 1 {
                Some(SettingsControl::Poll)
            } else if tag == 2 {
                Some(SettingsControl::Retention)
            } else if tag == 3 {
                Some(SettingsControl::HistoryLimit)
            } else if tag == 4 {
                Some(SettingsControl::Hotkey)
            } else {
                None
            }
        } else if tag == 5 {
            Some(SettingsControl::LaunchAtLogin)
        } else {
            None
        }
    }
}

/// No two controls have the same tag.
pub proof fn law_tags_differ(a: SettingsControl, b: SettingsControl)
    requires
        a.number() == b.number(),
    ensures
        a == b,
{
}

// ── Rows ────────────────────────────────────────────────────────────────────

/// The parts of a list row.
#[derive(Debug, Clone, Copy)]
pub struct RowFrames {
    /// The button with symbol and title.
    pub button: Frame,
    /// The label with the age.
    pub age: Frame,
}

/// The parts of a list row of the given width: the button takes what the age
/// leaves, but never less than 80.
pub fn row_frames(width: i32) -> (r: RowFrames)
    requires
        i32::MIN + 50 <= width,
    ensures
        r.button == frame(
            0,
            0,
            if width - 50 < 80 {
                80
            } else {
                width - 50
            },
            32,
        ),
        r.age == frame(width - 48, 9, 44, 14),
{
    let rest: i32 = width - AGE_WIDTH - 6;
    RowFrames {
        button: Frame {
            x: 0,
            y: 0,
            w: if rest < 80 {
                80
            } else {
                rest
            },
            h: ROW_HEIGHT,
        },
        age: Frame {
            x: width - AGE_WIDTH - 4,
            y: (ROW_HEIGHT - 14) / 2,
            w: AGE_WIDTH,
            h: 14,
        },
    }
}

/// In a row as wide as the popover's content the title does not run into the
/// age, and both lie in the row.
pub proof fn law_row_parts_apart(width: int)
    requires
        130 <= width <= i32::MAX,
    ensures
        frame(0, 0, width - 50, 32).apart(frame(width - 48, 9, 44, 14)),
        frame(0, 0, width - 50, 32).lies_in(width, 32),
        frame(width - 48, 9, 44, 14).lies_in(width, 32),
{
}

// ── What frames and menus are ───────────────────────────────────────────────

/// A frame has the corner and the size that it is made of, and no point lies in
/// two frames that are apart.
pub proof fn law_frames(a: Frame, b: Frame, px: int, py: int)
    ensures
        frame(a.x as int, a.y as int, a.w as int, a.h as int) == a,
        a.apart(b) ==> !(a.x <= px < a.x + a.w && a.y <= py < a.y + a.h && b.x <= px < b.x + b.w
            && b.y <= py < b.y + b.h),
        a.lies_in(px, py) <==> 0 <= a.x && a.x + a.w <= px && 0 <= a.y && a.y + a.h <= py && a.w > 0
            && a.h > 0,
        a.apart(b) <==> a.x + a.w <= b.x || b.x + b.w <= a.x || a.y + a.h <= b.y || b.y + b.h
            <= a.y,
{
}

/// A menu has an entry for each of its options, in their order, with the
/// option's label.
pub proof fn law_menu_entries(i: int)
    ensures
        poll_entries().len() == 4 && retention_entries().len() == 5,
        history_limit_entries().len() == 5 && hotkey_entries().len() == 4,
        0 <= i < 4 ==> poll_entries()[i] == settings::poll_text(
            settings::POLL_INTERVAL_OPTIONS@[i],
        ) && hotkey_entries()[i] == HotkeyPreset::ALL@[i].symbols(),
        0 <= i < 5 ==> retention_entries()[i] == settings::retention_text(
            settings::RETENTION_DAY_OPTIONS@[i],
        ) && history_limit_entries()[i] == settings::history_limit_text(
            settings::HISTORY_LIMIT_OPTIONS@[i],
        ),
{
}

/// The controls of the settings are numbered from 1, the menus before the
/// switch.
pub proof fn law_tags(c: SettingsControl)
    ensures
        1 <= c.number() <= 5,
        c.number() == 5 <==> c == SettingsControl::LaunchAtLogin,
        c.number() == 1 <==> c == SettingsControl::Poll,
        c.number() == 2 <==> c == SettingsControl::Retention,
        c.number() == 3 <==> c == SettingsControl::HistoryLimit,
        c.number() == 4 <==> c == SettingsControl::Hotkey,
{
}

/// A control is what it is made of.
pub proof fn law_control(c: Control, f: Frame, title: Seq<char>, tool_tip: Seq<char>)
    ensures
        c.is(f, title, tool_tip) <==> c.frame == f && c.title@ == title && c.tool_tip@ == tool_tip,
{
}

/// A menu stands beside its label, the label in the middle of the menu's height.
pub proof fn law_labelled_menu(m: LabelledMenu, y: int, label: Seq<char>)
    requires
        m.stands_at(y, label),
        0 <= y <= 500,
    ensures
        m.label.title@ == label,
        m.label.tool_tip@ == ""@,
        m.menu.y == y && m.label.frame.y == y + 5,
        m.menu.x == 134 && m.menu.w == 234 && m.menu.h == 26,
        m.label.frame.x == 12 && m.label.frame.w == 112 && m.label.frame.h == 16,
{
}

/// In a tidy popover the list does not cover the buttons above it, and neither
/// the history nor the status line covers the other.
pub proof fn law_tidy_popover(layout: PopoverLayout)
    requires
        layout.tidy(),
    ensures
        layout.list.apart(layout.clear.frame),
        layout.list.apart(layout.select.frame),
        layout.list.apart(layout.auto_paste.frame),
        layout.search.frame.apart(layout.clear.frame),
        layout.select.frame.apart(layout.clear.frame),
        layout.history.apart(layout.status_line),
        layout.history.lies_in(380, 500),
        layout.list.lies_in(380, layout.history.h as int),
        layout.search.frame.lies_in(380, layout.history.h as int),
{
}

} // verus!
