//! The popover behind the menu-bar icon: what it shows and how it reacts.
//!
//! The views themselves are made elsewhere. Here is the state of the popover,
//! and the model of everything that it draws.
use std::collections::HashSet;
use vstd::prelude::*;

use crate::clipboard::{ClipboardItem, ItemModel};
use crate::history;
use crate::history::History;
use crate::lists;
use crate::numbers;
use crate::rows;
use crate::rows::{Element, ListMode, Placement};
use crate::settings;
use crate::settings::{HotkeyPreset, Settings};
use crate::text;
use crate::timestamps;

verus! {

broadcast use vstd::std_specs::hash::group_hash_axioms;

/// The state of the popover.
pub struct StatusItemController {
    settings_visible: bool,
    select_mode: bool,
    selected: HashSet<u64>,
}

/// The controls above the list.
#[derive(Debug)]
pub struct Toolbar {
    /// Whether the controls for single items are shown, and not those for a
    /// selection.
    pub browsing: bool,
    /// The title of the button that deletes the selection.
    pub delete_title: String,
    /// Whether that button can be pressed.
    pub delete_enabled: bool,
}

/// The title of the button that deletes `n` items.
pub open spec fn delete_title(n: nat) -> Seq<char> {
    if n == 0 {
        "Delete"@
    } else {
        "Delete ("@ + numbers::decimal(n) + ")"@
    }
}

/// What the settings controls show.
#[derive(Debug, Clone, Copy, PartialEq, Eq)]
pub struct SettingsControls {
    pub auto_paste: bool,
    pub launch_at_login: bool,
    pub poll_index: usize,
    pub retention_index: usize,
    pub history_limit_index: usize,
    pub hotkey_index: usize,
    /// The hotkey in the header.
    pub hotkey_hint: &'static str,
}

/// The button that opens and closes the settings.
#[derive(Debug)]
pub struct SettingsButton {
    /// Whether the settings are shown in place of the history.
    pub settings_shown: bool,
    /// The name of its symbol.
    pub symbol: &'static str,
    /// What its symbol stands for.
    pub symbol_meaning: &'static str,
    /// Its symbol's size in points.
    pub symbol_size: u32,
    /// Its title where the symbol is missing.
    pub fallback_title: &'static str,
    /// Its tooltip.
    pub tool_tip: &'static str,
}

impl SettingsButton {
    /// Whether this is the button for the given view.
    pub open spec fn is_for(self, settings_shown: bool) -> bool {
        if settings_shown {
            &&& self.settings_shown
            &&& self.symbol@ == "xmark"@
            &&& self.symbol_meaning@ == "Close settings"@
            &&& self.symbol_size == 12
            &&& self.fallback_title@ == "Close"@
            &&& self.tool_tip@ == "Back to history"@
        } else {
            &&& !self.settings_shown
            &&& self.symbol@ == "gearshape"@
            &&& self.symbol_meaning@ == "Settings"@
            &&& self.symbol_size == 13
            &&& self.fallback_title@ == "Settings"@
            &&& self.tool_tip@ == "Settings"@
        }
    }
}

/// What a click on the icon does.
#[derive(Debug, Clone, Copy, PartialEq, Eq, Structural)]
pub enum PopoverAction {
    Close,
    Nothing,
    /// Show the popover, with the cursor in the search field or not.
    Show { focus_search: bool },
}

/// The status line.
#[derive(Debug)]
pub struct StatusLine {
    pub text: String,
    pub hidden: bool,
}

impl StatusItemController {
    /// Whether the settings are shown in place of the history.
    pub closed spec fn shows_settings(&self) -> bool {
        self.settings_visible
    }

    /// Whether several items can be selected.
    pub closed spec fn selecting(&self) -> bool {
        self.select_mode
    }

    /// The ids of the selected items.
    pub closed spec fn selection(&self) -> Set<u64> {
        self.selected@
    }

    /// The history, nothing selected.
    pub fn create() -> (r: Self)
        ensures
            !r.shows_settings(),
            !r.selecting(),
            r.selection() == Set::<u64>::empty(),
    {
        StatusItemController {
            settings_visible: false,
            select_mode: false,
            selected: HashSet::new(),
        }
    }

    /// Whether several items can be selected.
    pub fn is_select_mode(&self) -> (r: bool)
        ensures
            r == self.selecting(),
    {
        self.select_mode
    }

    /// The ids of the selected items, each once, in no particular order.
    pub fn selected_ids(&self) -> (r: Vec<u64>)
        ensures
            r@.no_duplicates(),
            r@.to_set() == self.selection(),
    {
        let mut r: Vec<u64> = Vec::new();
        for id in it: self.selected.iter()
            invariant
                r@ == it.seq().unref().take(it.index() as int),
                it.seq().unref().to_set() == self.selected@,
                it.index() == it.seq().len() ==> r@ == it.seq().unref(),
        {
            r.push(*id);
            assert(it.index() + 1 == it.seq().len() ==> r@ =~= it.seq().unref());
        }
        r
    }

    /// The number of selected items.
    pub fn selected_count(&self) -> (r: usize)
        ensures
            r == self.selection().len(),
    {
        self.selected.len()
    }

    /// Starts or ends selecting; nothing stays selected at the end.
    pub fn set_select_mode(&mut self, on: bool)
        ensures
            final(self).selecting() == on,
            final(self).selection() == (if on {
                old(self).selection()
            } else {
                Set::empty()
            }),
            final(self).shows_settings() == old(self).shows_settings(),
    {
        self.select_mode = on;
        if !on {
            self.selected.clear();
        }
    }

    /// Selects an item or takes it out of the selection. Tells whether it is
    /// selected now.
    pub fn toggle_selection(&mut self, id: u64) -> (r: bool)
        ensures
            r == !old(self).selection().contains(id),
            final(self).selection() == toggled(old(self).selection(), id),
            final(self).selecting() == old(self).selecting(),
            final(self).shows_settings() == old(self).shows_settings(),
    {
        if self.selected.contains(&id) {
            self.selected.remove(&id);
            false
        } else {
            self.selected.insert(id);
            true
        }
    }

    /// Whether the item is selected.
    pub fn is_selected(&self, id: u64) -> (r: bool)
        ensures
            r == self.selection().contains(id),
    {
        self.selected.contains(&id)
    }

    /// Selects nothing.
    pub fn clear_selection(&mut self)
        ensures
            final(self).selection() == Set::<u64>::empty(),
            final(self).selecting() == old(self).selecting(),
            final(self).shows_settings() == old(self).shows_settings(),
    {
        self.selected.clear();
    }

    /// The controls above the list, for what is selected.
    pub fn refresh_toolbar_mode(&self) -> (r: Toolbar)
        ensures
            r.browsing == !self.selecting(),
            r.delete_title@ == delete_title(self.selection().len()),
            r.delete_enabled == (self.selection().len() > 0),
    {
        let n: usize = self.selected.len();
        let title: String = if n == 0 {
            "Delete".to_owned()
        } else {
            let mut t: String = "Delete (".to_owned();
            numbers::push_decimal(&mut t, n as u64);
            t.append(")");
            t
        };
        Toolbar { browsing: !self.select_mode, delete_title: title, delete_enabled: n > 0 }
    }

    /// What the settings controls show for the settings.
    pub fn apply_settings_ui(settings: &Settings) -> (r: SettingsControls)
        ensures
            r.auto_paste == settings.auto_paste,
            r.launch_at_login == settings.launch_at_login,
            settings::is_nearest(
                settings::poll_options(),
                settings.poll_interval_ms as int,
                r.poll_index as int,
            ),
            settings::is_nearest(
                settings::RETENTION_DAY_OPTIONS@,
                settings.retention_days as int,
                r.retention_index as int,
            ),
            settings::is_nearest(
                settings::limit_options(),
                settings.history_limit as int,
                r.history_limit_index as int,
            ),
            r.hotkey_index == settings.hotkey.position(),
            r.hotkey_hint@ == settings.hotkey.symbols(),
    {
        SettingsControls {
            auto_paste: settings.auto_paste,
            launch_at_login: settings.launch_at_login,
            poll_index: settings.poll_interval_index(),
            retention_index: settings.retention_index(),
            history_limit_index: settings.history_limit_index(),
            hotkey_index: settings.hotkey.index(),
            hotkey_hint: settings.hotkey.display(),
        }
    }

    /// The poll interval chosen in the menu.
    pub fn selected_poll_ms(index: isize) -> (r: u64)
        ensures
            r == (if chosen(index) < settings::POLL_INTERVAL_OPTIONS@.len() {
                settings::POLL_INTERVAL_OPTIONS@[chosen(index)]
            } else {
                500
            }),
    {
        let i: usize = menu_index(index);
        if i < settings::POLL_INTERVAL_OPTIONS.len() {
            settings::POLL_INTERVAL_OPTIONS[i]
        } else {
            500
        }
    }

    /// The retention chosen in the menu.
    pub fn selected_retention_days(index: isize) -> (r: i64)
        ensures
            r == (if chosen(index) < settings::RETENTION_DAY_OPTIONS@.len() {
                settings::RETENTION_DAY_OPTIONS@[chosen(index)]
            } else {
                30
            }),
    {
        let i: usize = menu_index(index);
        if i < settings::RETENTION_DAY_OPTIONS.len() {
            settings::RETENTION_DAY_OPTIONS[i]
        } else {
            30
        }
    }

    /// The history size chosen in the menu.
    pub fn selected_history_limit(index: isize) -> (r: usize)
        ensures
            r == (if chosen(index) < settings::HISTORY_LIMIT_OPTIONS@.len() {
                settings::HISTORY_LIMIT_OPTIONS@[chosen(index)]
            } else {
                1000
            }),
    {
        let i: usize = menu_index(index);
        if i < settings::HISTORY_LIMIT_OPTIONS.len() {
            settings::HISTORY_LIMIT_OPTIONS[i]
        } else {
            1000
        }
    }

    /// The hotkey chosen in the menu.
    pub fn selected_hotkey(index: isize) -> (r: HotkeyPreset)
        ensures
            r == (if chosen(index) < HotkeyPreset::ALL@.len() {
                HotkeyPreset::ALL@[chosen(index)]
            } else {
                HotkeyPreset::CmdShiftV
            }),
    {
        HotkeyPreset::from_index(menu_index(index))
    }

    /// Shows the settings in place of the history, or the history again.
    pub fn toggle_settings_panel(&mut self) -> (r: SettingsButton)
        ensures
            final(self).shows_settings() == !old(self).shows_settings(),
            final(self).selecting() == old(self).selecting(),
            final(self).selection() == old(self).selection(),
            r.is_for(final(self).shows_settings()),
    {
        self.settings_visible = !self.settings_visible;
        if self.settings_visible {
            SettingsButton {
                settings_shown: true,
                symbol: "xmark",
                symbol_meaning: "Close settings",
                symbol_size: 12,
                fallback_title: "Close",
                tool_tip: "Back to history",
            }
        } else {
            SettingsButton {
                settings_shown: false,
                symbol: "gearshape",
                symbol_meaning: "Settings",
                symbol_size: 13,
                fallback_title: "Settings",
                tool_tip: "Settings",
            }
        }
    }

    /// Shows the history. There is a new button where the settings were shown.
    pub fn show_history(&mut self) -> (r: Option<SettingsButton>)
        ensures
            !final(self).shows_settings(),
            final(self).selecting() == old(self).selecting(),
            final(self).selection() == old(self).selection(),
            match r {
                Some(b) => old(self).shows_settings() && b.is_for(false),
                None => !old(self).shows_settings(),
            },
    {
        if self.settings_visible {
            Some(self.toggle_settings_panel())
        } else {
            None
        }
    }

    /// What a click on the icon does.
    pub fn toggle_popover(&self, shown: bool, has_button: bool) -> (r: PopoverAction)
        ensures
            r == (if shown {
                PopoverAction::Close
            } else if !has_button {
                PopoverAction::Nothing
            } else {
                PopoverAction::Show { focus_search: !self.shows_settings() }
            }),
    {
        if shown {
            PopoverAction::Close
        } else if !has_button {
            PopoverAction::Nothing
        } else {
            PopoverAction::Show { focus_search: !self.settings_visible }
        }
    }

    /// Whether a click somewhere on the screen closes the popover: one outside
    /// of both the icon and the popover does.
    pub fn click_dismisses(shown: bool, on_icon: bool, in_popover: bool) -> (r: bool)
        ensures
            r == (shown && !on_icon && !in_popover),
    {
        shown && !on_icon && !in_popover
    }

    /// The items of the history that the query finds, and whether the query is
    /// blank.
    pub fn refresh_history(history: &History, query: &str) -> (r: (Vec<ClipboardItem>, bool))
        ensures
            r.0.deep_view() == history::shown(history@, query@),
            r.1 == (text::trimmed(query@).len() == 0),
    {
        let blank: bool = text::trim(query).as_str().is_empty();
        (history.filter(query), blank)
    }

    /// The status line with a message, or hidden.
    pub fn set_status_notice(message: Option<&str>) -> (r: StatusLine)
        ensures
            match message {
                Some(m) => r.text@ == m@ && !r.hidden,
                None => r.text@.len() == 0 && r.hidden,
            },
    {
        match message {
            Some(m) => StatusLine { text: m.to_owned(), hidden: false },
            None => StatusLine { text: String::new(), hidden: true },
        }
    }
}

/// The position chosen in a menu; the first where none is.
pub open spec fn chosen(index: isize) -> int {
    if index < 0 {
        0
    } else {
        index as int
    }
}

fn menu_index(index: isize) -> (r: usize)
    ensures
        r == chosen(index),
{
    if index < 0 {
        0
    } else {
        index as usize
    }
}

/// The id that a control or a menu item stands for: its tag, where that is
/// positive.
pub fn sender_item_id(control_tag: Option<isize>, menu_tag: Option<isize>) -> (r: Option<u64>)
    ensures
        r == (match control_tag {
            Some(t) if t > 0 => Some(t as u64),
            _ => match menu_tag {
                Some(t) if t > 0 => Some(t as u64),
                _ => None,
            },
        }),
{
    if let Some(t) = control_tag {
        if t > 0 {
            return Some(t as u64);
        }
    }
    if let Some(t) = menu_tag {
        if t > 0 {
            return Some(t as u64);
        }
    }
    None
}

/// The selection with an item selected that was not, or the other way round.
pub open spec fn toggled(selection: Set<u64>, id: u64) -> Set<u64> {
    if selection.contains(id) {
        selection.remove(id)
    } else {
        selection.insert(id)
    }
}

/// Toggling an item twice leaves the selection as it was.
pub proof fn law_toggle_twice(selection: Set<u64>, id: u64)
    ensures
        toggled(toggled(selection, id), id) == selection,
{
    assert(toggled(toggled(selection, id), id) =~= selection);
}

// ── The list ────────────────────────────────────────────────────────────────

/// What the list shows.
#[derive(Debug)]
pub enum ListView {
    /// A text in place of items.
    Empty(&'static str),
    /// The list's height and all that stands in it.
    Rows { height: i128, placements: Vec<Placement> },
}

/// The ids of items.
pub open spec fn ids_of(items: Seq<ItemModel>) -> Set<u64> {
    items.map_values(|i: ItemModel| i.id).to_set()
}

/// The number of pinned items.
fn count_pinned(items: &[ClipboardItem]) -> (r: usize)
    ensures
        r == rows::pinned_of(items.deep_view()).len(),
        items@.len() - r == rows::recent_of(items.deep_view()).len(),
        r <= items@.len(),
{
    let ghost all = items.deep_view();
    let ghost p = |i: ItemModel| i.is_pinned;
    let mut n: usize = 0;
    let mut i: usize = 0;
    proof {
        reveal(Seq::filter);
        assert(all.take(0).filter(p).len() == 0);
    }
    while i < items.len()
        invariant
            n <= i <= items@.len(),
            all == items.deep_view(),
            p == (|i: ItemModel| i.is_pinned),
            n == all.take(i as int).filter(p).len(),
        decreases items@.len() - i,
    {
        proof {
            lists::lemma_filter_step(all, p, i as int);
        }
        assert(all[i as int] == items@[i as int]@);
        if items[i].is_pinned {
            n += 1;
        }
        i += 1;
    }
    proof {
        assert(all.take(i as int) =~= all);
        lists::lemma_filter_parts(all, p, |i: ItemModel| !i.is_pinned);
    }
    n
}

impl StatusItemController {
    /// Takes items that are not shown any more out of the selection.
    fn keep_visible(&mut self, items: &[ClipboardItem])
        ensures
            final(self).selection() == old(self).selection().intersect(ids_of(items.deep_view())),
            final(self).selecting() == old(self).selecting(),
            final(self).shows_settings() == old(self).shows_settings(),
    {
        let ghost all = items.deep_view();
        let ghost ids = all.map_values(|i: ItemModel| i.id);
        let mut kept: HashSet<u64> = HashSet::new();
        let mut i: usize = 0;
        assert(kept@ =~= self.selected@.intersect(ids.take(0).to_set()));
        while i < items.len()
            invariant
                i <= items@.len(),
                all == items.deep_view(),
                ids == all.map_values(|i: ItemModel| i.id),
                self.selected@ == old(self).selected@,
                self.select_mode == old(self).select_mode,
                self.settings_visible == old(self).settings_visible,
                kept@ == self.selected@.intersect(ids.take(i as int).to_set()),
            decreases items@.len() - i,
        {
            let id: u64 = items[i].id;
            assert(all[i as int] == items@[i as int]@);
            assert(ids[i as int] == id);
            assert(ids.take(i + 1) =~= ids.take(i as int).push(id));
            proof {
                assert forall|x: u64| #[trigger] ids.take(i + 1).contains(x) == (ids.take(
                    i as int,
                ).contains(x) || x == id) by {
                    lists::lemma_push_member(ids.take(i as int), id, x);
                }
            }
            if self.selected.contains(&id) {
                kept.insert(id);
            }
            i += 1;
            assert(kept@ =~= self.selected@.intersect(ids.take(i as int).to_set()));
        }
        assert(ids.take(i as int) =~= ids);
        self.selected = kept;
    }

    /// Appends the rows of the items with the given pin.
    fn push_rows(
        &self,
        out: &mut Vec<Placement>,
        items: &[ClipboardItem],
        pinned: bool,
        top: i128,
        mode: ListMode,
    )
        requires
            0 <= top <= 0x1_0000_0000_0000_0000_0000,
            forall|i: int|
                0 <= i < items@.len() ==> timestamps::age_fits(
                    (#[trigger] items@[i])@.created_at,
                    mode.time(),
                ),
        ensures
            final(out).deep_view() == old(out).deep_view() + rows::rows_at(
                items.deep_view().filter(|i: ItemModel| i.is_pinned == pinned),
                top as int,
                mode,
                self.selection(),
            ),
    {
        let ghost all = items.deep_view();
        let ghost p = |i: ItemModel| i.is_pinned == pinned;
        let ghost start = out.deep_view();
        let ghost sel = self.selection();
        let mut i: usize = 0;
        let mut n: usize = 0;
        proof {
            reveal(Seq::filter);
            assert(all.take(0).filter(p).len() == 0);
            assert(start + rows::rows_at(all.take(0).filter(p), top as int, mode, sel) =~= start);
        }
        while i < items.len()
            invariant
                n <= i <= items@.len(),
                0 <= top <= 0x1_0000_0000_0000_0000_0000,
                all == items.deep_view(),
                sel == self.selection(),
                p == (|i: ItemModel| i.is_pinned == pinned),
                n == all.take(i as int).filter(p).len(),
                out.deep_view() == start + rows::rows_at(
                    all.take(i as int).filter(p),
                    top as int,
                    mode,
                    sel,
                ),
                forall|i: int|
                    0 <= i < items@.len() ==> timestamps::age_fits(
                        (#[trigger] items@[i])@.created_at,
                        mode.time(),
                    ),
            decreases items@.len() - i,
        {
            proof {
                lists::lemma_filter_step(all, p, i as int);
            }
            let item: &ClipboardItem = &items[i];
            assert(all[i as int] == item@);
            let ghost so_far = all.take(i as int).filter(p);
            let ghost prior = out.deep_view();
            if item.is_pinned == pinned {
                let row = rows::make_history_row(item, mode, self.is_selected(item.id));
                let position: i128 = top + 34 * (n as i128) + 32;
                out.push(Placement { element: Element::Row(row), position });
                assert(out.deep_view() =~= prior.push(out@.last().deep_view()));
                assert(rows::rows_at(so_far.push(item@), top as int, mode, sel) =~= rows::rows_at(
                    so_far,
                    top as int,
                    mode,
                    sel,
                ).push(out@.last().deep_view()));
                assert(out.deep_view() =~= start + rows::rows_at(
                    so_far.push(item@),
                    top as int,
                    mode,
                    sel,
                ));
                n += 1;
            }
            i += 1;
        }
        assert(all.take(i as int) =~= all);
    }

    /// Lays the items out. Selected items that are not among them are not
    /// selected any more.
    pub fn render_items(
        &mut self,
        items: &[ClipboardItem],
        query_empty: bool,
        now: Option<i64>,
    ) -> (r: ListView)
        requires
            forall|i: int|
                0 <= i < items@.len() ==> timestamps::age_fits(
                    (#[trigger] items@[i])@.created_at,
                    match now {
                        Some(n) => Some(n as int),
                        None => None,
                    },
                ),
        ensures
            final(self).selection() == old(self).selection().intersect(ids_of(items.deep_view())),
            final(self).selecting() == old(self).selecting(),
            final(self).shows_settings() == old(self).shows_settings(),
            match r {
                ListView::Empty(t) => items@.len() == 0 && t@ == (if query_empty {
                    "No history yet\nCopy something to get started"@
                } else {
                    "No matches"@
                }),
                ListView::Rows { height, placements } => items@.len() > 0 && height
                    == rows::list_height(
                    rows::pinned_of(items.deep_view()).len(),
                    rows::recent_of(items.deep_view()).len(),
                ) && placements.deep_view() == rows::list_of_items(
                    items.deep_view(),
                    (ListMode { selecting: final(self).selecting(), now }),
                    final(self).selection(),
                ),
            },
    {
        self.keep_visible(items);
        if items.len() == 0 {
            return ListView::Empty(
                if query_empty {
                    "No history yet\nCopy something to get started"
                } else {
                    "No matches"
                },
            );
        }
        let mode = ListMode { selecting: self.select_mode, now };
        let ghost all = items.deep_view();
        let ghost sel = self.selection();
        let pinned: usize = count_pinned(items);
        let recent: usize = items.len() - pinned;
        let mut out: Vec<Placement> = Vec::new();
        assert(out.deep_view() =~= Seq::empty());
        let mut height: i128 = 8;
        if pinned > 0 {
            out.push(Placement { element: Element::Header("PINNED"), position: 22 });
            height = height + 20 + 34 * (pinned as i128);
        }
        assert(out.deep_view() =~= rows::pinned_header(pinned as nat));
        self.push_rows(&mut out, items, true, 26, mode);
        let ghost upper = out.deep_view();
        let end: i128 = 26 + 34 * (pinned as i128);
        if pinned > 0 && recent > 0 {
            out.push(Placement { element: Element::Separator, position: end + 7 });
            out.push(Placement { element: Element::Header("RECENT"), position: end + 31 });
            height = height + 27;
        }
        assert(out.deep_view() =~= upper + rows::between(pinned as nat, recent as nat));
        height = height + 34 * (recent as i128);
        let top: i128 = if pinned == 0 {
            4
        } else {
            end + 35
        };
        self.push_rows(&mut out, items, false, top, mode);
        proof {
            assert((|i: ItemModel| i.is_pinned == true) =~= (|i: ItemModel| i.is_pinned));
            assert((|i: ItemModel| i.is_pinned == false) =~= (|i: ItemModel| !i.is_pinned));
            assert(out.deep_view() =~= rows::list_of_items(all, mode, sel));
        }
        ListView::Rows { height, placements: out }
    }
}

// ── What the selection and the buttons show ─────────────────────────────────

/// Toggling an item changes whether that item is selected, and nothing of the
/// others.
pub proof fn law_toggle(selection: Set<u64>, id: u64, other: u64)
    ensures
        toggled(selection, id).contains(id) == !selection.contains(id),
        other != id ==> toggled(selection, id).contains(other) == selection.contains(other),
{
}

/// The ids of items are those that an item has.
pub proof fn law_ids_one_more(items: Seq<ItemModel>, item: ItemModel, id: u64)
    ensures
        ids_of(items.push(item)).contains(id) == (ids_of(items).contains(id) || id == item.id),
        !ids_of(Seq::empty()).contains(id),
{
    let pick = |i: ItemModel| i.id;
    assert(items.push(item).map_values(pick) =~= items.map_values(pick).push(item.id));
    lists::lemma_push_member(items.map_values(pick), item.id, id);
}

/// The button tells how many items it would delete, and nothing where it would
/// delete none.
pub proof fn law_delete_title(n: nat)
    ensures
        delete_title(0) == "Delete"@,
        n > 0 ==> delete_title(n) == "Delete ("@ + numbers::decimal(n) + ")"@,
        n > 0 ==> text::occurs_in(numbers::decimal(n), delete_title(n)),
{
    text::law_part_occurs("Delete ("@, numbers::decimal(n), ")"@);
}

/// A menu without a choice counts as one with its first entry chosen.
pub proof fn law_chosen(index: isize)
    ensures
        index >= 0 ==> chosen(index) == index,
        index < 0 ==> chosen(index) == 0,
{
}

/// The settings button shows a cross while the settings are shown and a gear
/// while they are not, and never both.
pub proof fn law_settings_button(b: SettingsButton, shown: bool)
    requires
        b.is_for(shown),
    ensures
        b.settings_shown == shown,
        shown ==> b.symbol@ == "xmark"@ && b.symbol_meaning@ == "Close settings"@ && b.symbol_size
            == 12 && b.fallback_title@ == "Close"@ && b.tool_tip@ == "Back to history"@,
        !shown ==> b.symbol@ == "gearshape"@ && b.symbol_meaning@ == "Settings"@ && b.symbol_size
            == 13 && b.fallback_title@ == "Settings"@ && b.tool_tip@ == "Settings"@,
        !b.is_for(!shown),
{
}

} // verus!
