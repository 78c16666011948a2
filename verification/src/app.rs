//! What the application does on each event: how its state changes, what it
//! asks of the database, and what it tells the user.
use vstd::prelude::*;

use crate::autopaste::AutoPasteError;
use crate::capture::{ClipboardPoller, PollerModel};
use crate::clipboard;
use crate::clipboard::{ClipboardItem, ItemModel};
use crate::history;
use crate::history::History;
use crate::launch;
use crate::launch::LoginItemStatus;
use crate::numbers;
use crate::privacy;
use crate::privacy::PrivacyMarkers;
use crate::settings;
use crate::settings::{HotkeyPreset, SettingEntry, Settings};
use crate::status_item;
use crate::status_item::StatusItemController;
use crate::text;

verus! {

/// Time between closing the popover and pasting, so that the application
/// behind it has the focus again (ms).
pub const AUTO_PASTE_DELAY_MS: u64 = 120;

/// The application's state.
pub struct AppDelegateIvars {
    pub status: StatusItemController,
    pub history: History,
    pub poller: ClipboardPoller,
    pub settings: Settings,
}

/// What became of a capture in the database.
#[derive(Debug)]
pub enum StoreReply {
    /// There is no database.
    NoStore,
    /// The newest row has the same fingerprint and was refreshed.
    Touched(u64),
    /// A row was added.
    Inserted { id: u64, created_at: String },
    /// No row could be added.
    InsertFailed,
    /// The newest row could not be read or refreshed.
    CheckFailed,
}

/// The item that goes into the history, after what became of it in the
/// database.
pub open spec fn settled(item: ItemModel, reply: StoreReply) -> ItemModel {
    match reply {
        StoreReply::Touched(id) => ItemModel { id, created_at: Seq::empty(), ..item },
        StoreReply::Inserted { id, created_at } => ItemModel {
            id,
            created_at: created_at@,
            ..item
        },
        _ => item,
    }
}

/// Where the items of a search come from.
#[derive(Debug)]
pub enum SearchPlan {
    /// The query is blank: the whole history.
    ShowHistory,
    /// The database, asked for the text.
    AskStore(String),
    /// The history, searched for the text.
    FilterHistory(String),
}

/// What follows the copying of an item.
#[derive(Debug)]
pub enum CopyNext {
    /// Paste it after a moment.
    SchedulePaste,
    /// Say so.
    Notice(&'static str),
}

/// The effects of the auto-paste switch.
#[derive(Debug)]
pub struct AutoPasteToggle {
    /// What is to be stored.
    pub entry: SettingEntry,
    /// Whether to ask for the permission.
    pub prompt: bool,
    pub notice: &'static str,
}

/// The effects of the launch-at-login switch.
#[derive(Debug)]
pub struct LoginToggle {
    /// Whether the switch is shown as on.
    pub checked: bool,
    pub notice: String,
}

/// What is told about launch at login.
pub open spec fn login_notice(want: bool, status: LoginItemStatus) -> Seq<char> {
    if want && status == LoginItemStatus::RequiresApproval {
        "Login item needs approval in System Settings → Login Items"@
    } else if status == LoginItemStatus::Enabled {
        "Launch at login enabled"@
    } else if !want {
        "Launch at login disabled"@
    } else {
        status.description()
    }
}

/// Whether the launch-at-login switch is shown as on.
pub open spec fn login_checked(want: bool, status: LoginItemStatus) -> bool {
    status == LoginItemStatus::Enabled || (want && status == LoginItemStatus::RequiresApproval)
}

/// The interval of the poll timer, never below a quarter of a second.
pub open spec fn timer_ms(poll_interval_ms: u64) -> int {
    settings::at_least(poll_interval_ms as int, 250)
}

impl AppDelegateIvars {
    /// The state is sound: the history keeps its capacity.
    pub open spec fn wf(&self) -> bool {
        self.history.wf()
    }

    /// Whether all but the settings is as it was.
    pub open spec fn only_settings_changed(&self, before: &Self) -> bool {
        &&& self.status == before.status
        &&& self.history == before.history
        &&& self.poller == before.poller
    }

    /// Whether all but the history is as it was.
    pub open spec fn only_history_changed(&self, before: &Self) -> bool {
        &&& self.status == before.status
        &&& self.poller == before.poller
        &&& self.settings == before.settings
        &&& self.history.capacity() == before.history.capacity()
    }

    /// Whether all but the popover's state is as it was.
    pub open spec fn only_status_changed(&self, before: &Self) -> bool {
        &&& self.history == before.history
        &&& self.poller == before.poller
        &&& self.settings == before.settings
    }

    /// The state at the start: default settings, an empty history, and nothing
    /// new on the pasteboard.
    pub fn new(change_count: isize) -> (r: Self)
        ensures
            r.wf(),
            r.history@ == Seq::<ItemModel>::empty(),
            r.history.capacity() == clipboard::DEFAULT_HISTORY_LIMIT,
            r.poller@ == (PollerModel { seen: change_count, ignoring: false }),
            r.settings == settings::default_settings(),
            !r.status.selecting(),
            !r.status.shows_settings(),
            r.status.selection() == Set::<u64>::empty(),
    {
        AppDelegateIvars {
            status: StatusItemController::create(),
            history: History::new(clipboard::DEFAULT_HISTORY_LIMIT),
            poller: ClipboardPoller::new(change_count),
            settings: Settings::default(),
        }
    }

    // ── Start ───────────────────────────────────────────────────────────────

    /// Takes over what the database holds. The launch-at-login setting is on
    /// where launch at login is, whatever was stored.
    pub fn did_finish_launching(
        &mut self,
        loaded: Settings,
        items: Option<Vec<ClipboardItem>>,
        login: LoginItemStatus,
    )
        requires
            old(self).wf(),
        ensures
            final(self).wf(),
            final(self).status == old(self).status,
            final(self).poller == old(self).poller,
            final(self).settings == (Settings {
                launch_at_login: loaded.launch_at_login || login == LoginItemStatus::Enabled,
                ..loaded
            }),
            final(self).history.capacity() == old(self).history.capacity(),
            final(self).history@ == reloaded(
                old(self).history@,
                items.deep_view(),
                old(self).history.capacity(),
            ),
    {
        self.reload(items);
        self.settings = loaded;
        if login.is_enabled() {
            self.settings.launch_at_login = true;
        }
    }

    /// What is told at the start.
    pub fn launch_notice(trusted: bool) -> (r: Option<&'static str>)
        ensures
            match r {
                Some(t) => !trusted && t@
                    == "Auto-paste needs Accessibility permission (enable in System Settings)"@,
                None => trusted,
            },
    {
        if trusted {
            None
        } else {
            Some("Auto-paste needs Accessibility permission (enable in System Settings)")
        }
    }

    /// Replaces the history by what the database gave, where it gave anything.
    fn reload(&mut self, items: Option<Vec<ClipboardItem>>)
        requires
            old(self).wf(),
        ensures
            final(self).wf(),
            final(self).only_history_changed(old(self)),
            final(self).history@ == reloaded(
                old(self).history@,
                items.deep_view(),
                old(self).history.capacity(),
            ),
    {
        if let Some(list) = items {
            self.history.replace_all(list);
        }
    }

    // ── Settings ────────────────────────────────────────────────────────────

    /// What is to be stored of the settings.
    pub fn persist_settings(&self) -> (r: Vec<SettingEntry>)
        ensures
            r.deep_view() == settings::saved(self.settings),
    {
        self.settings.save_all()
    }

    /// The retention and the cap by which the database is pruned.
    pub fn run_prune(&self) -> (r: (i64, usize))
        ensures
            r == (self.settings.retention_days, self.settings.history_limit),
    {
        (self.settings.retention_days, self.settings.history_limit)
    }

    /// The interval of the poll timer in milliseconds.
    pub fn restart_poll_timer(&self) -> (r: u64)
        ensures
            r == timer_ms(self.settings.poll_interval_ms),
    {
        if self.settings.poll_interval_ms < 250 {
            250
        } else {
            self.settings.poll_interval_ms
        }
    }

    /// Takes the poll interval chosen in the menu.
    pub fn poll_interval_changed(&mut self, selected: Option<u64>) -> (notice: String)
        ensures
            final(self).only_settings_changed(old(self)),
            final(self).settings == (Settings {
                poll_interval_ms: settings::at_least(
                    match selected {
                        Some(ms) => ms as int,
                        None => 500,
                    },
                    250,
                ) as u64,
                ..old(self).settings
            }),
            notice@ == "Poll interval: "@ + numbers::decimal(
                final(self).settings.poll_interval_ms as nat,
            ) + " ms"@,
    {
        let ms: u64 = match selected {
            Some(ms) => ms,
            None => 500,
        };
        let ms: u64 = if ms < 250 {
            250
        } else {
            ms
        };
        self.settings.poll_interval_ms = ms;
        let mut notice: String = "Poll interval: ".to_owned();
        numbers::push_decimal(&mut notice, ms);
        notice.append(" ms");
        notice
    }

    /// Takes the retention chosen in the menu.
    pub fn retention_changed(&mut self, selected: Option<i64>) -> (notice: String)
        ensures
            final(self).only_settings_changed(old(self)),
            final(self).settings == (Settings {
                retention_days: match selected {
                    Some(d) => d,
                    None => 30,
                },
                ..old(self).settings
            }),
            notice@ == (if final(self).settings.retention_days == 0 {
                "Retention: unlimited (time)"@
            } else {
                "Retention: "@ + numbers::decimal_int(final(self).settings.retention_days as int)
                    + " days"@
            }),
    {
        let days: i64 = match selected {
            Some(d) => d,
            None => 30,
        };
        self.settings.retention_days = days;
        if days == 0 {
            return "Retention: unlimited (time)".to_owned();
        }
        let mut notice: String = "Retention: ".to_owned();
        notice.append(numbers::decimal_string_signed(days).as_str());
        notice.append(" days");
        notice
    }

    /// Takes the history size chosen in the menu.
    pub fn history_limit_changed(&mut self, selected: Option<usize>) -> (notice: String)
        ensures
            final(self).only_settings_changed(old(self)),
            final(self).settings == (Settings {
                history_limit: match selected {
                    Some(n) => n,
                    None => 1000,
                },
                ..old(self).settings
            }),
            notice@ == "Max items: "@ + numbers::decimal(
                final(self).settings.history_limit as nat,
            ),
    {
        let limit: usize = match selected {
            Some(n) => n,
            None => 1000,
        };
        self.settings.history_limit = limit;
        let mut notice: String = "Max items: ".to_owned();
        numbers::push_decimal(&mut notice, limit as u64);
        notice
    }

    /// Takes the hotkey chosen in the menu.
    pub fn hotkey_changed(&mut self, selected: Option<HotkeyPreset>) -> (notice: String)
        ensures
            final(self).only_settings_changed(old(self)),
            final(self).settings == (Settings {
                hotkey: match selected {
                    Some(h) => h,
                    None => HotkeyPreset::CmdShiftV,
                },
                ..old(self).settings
            }),
            notice@ == "Hotkey: "@ + final(self).settings.hotkey.symbols(),
    {
        let preset: HotkeyPreset = match selected {
            Some(h) => h,
            None => HotkeyPreset::CmdShiftV,
        };
        self.settings.hotkey = preset;
        text::appended("Hotkey: ", preset.display())
    }

    /// Takes what became of the wish to launch at login, or not to.
    pub fn toggle_launch_at_login(
        &mut self,
        want: bool,
        result: &Result<LoginItemStatus, String>,
    ) -> (r: LoginToggle)
        ensures
            final(self).only_settings_changed(old(self)),
            final(self).settings == (Settings {
                launch_at_login: r.checked,
                ..old(self).settings
            }),
            match launch::outcome(*result) {
                Ok(s) => r.checked == login_checked(want, s) && r.notice@ == login_notice(want, s),
                Err(e) => !r.checked && r.notice@ == e,
            },
    {
        match result {
            Ok(s) => {
                let waiting: bool = want && *s == LoginItemStatus::RequiresApproval;
                let checked: bool = s.is_enabled() || waiting;
                self.settings.launch_at_login = checked;
                let notice: String = if waiting {
                    "Login item needs approval in System Settings → Login Items".to_owned()
                } else if s.is_enabled() {
                    "Launch at login enabled".to_owned()
                } else if !want {
                    "Launch at login disabled".to_owned()
                } else {
                    s.describe().to_owned()
                };
                LoginToggle { checked, notice }
            },
            Err(e) => {
                self.settings.launch_at_login = false;
                LoginToggle { checked: false, notice: e.clone() }
            },
        }
    }

    /// Takes the state of the auto-paste switch.
    pub fn toggle_auto_paste(&mut self, enabled: bool, trusted: bool) -> (r: AutoPasteToggle)
        ensures
            final(self).only_settings_changed(old(self)),
            final(self).settings == (Settings { auto_paste: enabled, ..old(self).settings }),
            r.entry.deep_view() == (settings::KEY_AUTO_PASTE@, settings::flag_text(enabled)),
            r.prompt == (enabled && !trusted),
            r.notice@ == (if enabled && !trusted {
                "Enable ClipPin in Accessibility, then restart for auto-paste"@
            } else if enabled {
                "Auto-paste on"@
            } else {
                "Auto-paste off"@
            }),
    {
        self.settings.auto_paste = enabled;
        let prompt: bool = enabled && !trusted;
        AutoPasteToggle {
            entry: self.settings.save_auto_paste(),
            prompt,
            notice: if prompt {
                "Enable ClipPin in Accessibility, then restart for auto-paste"
            } else if enabled {
                "Auto-paste on"
            } else {
                "Auto-paste off"
            },
        }
    }

    // ── Captures ────────────────────────────────────────────────────────────

    /// Looks at the markers once more before a capture is kept. A notice means
    /// that it is not.
    pub fn recheck(markers: PrivacyMarkers) -> (r: Option<String>)
        ensures
            match r {
                Some(n) => markers.sensitive() && n@ == "Last copy skipped (privacy: "@
                    + markers.description() + ")"@,
                None => !markers.sensitive(),
            },
    {
        if markers.is_sensitive() {
            Some(privacy::status_message(markers))
        } else {
            None
        }
    }

    /// Keeps a capture, after what became of it in the database. Tells whether
    /// the database is to be pruned.
    pub fn poll_clipboard(&mut self, item: ClipboardItem, reply: StoreReply) -> (prune: bool)
        requires
            old(self).wf(),
        ensures
            final(self).wf(),
            final(self).only_history_changed(old(self)),
            final(self).history@ == history::pushed(
                old(self).history@,
                settled(item@, reply),
                old(self).history.capacity(),
            ),
            prune == (reply is Inserted || reply is InsertFailed),
    {
        let ghost before = item@;
        let mut item: ClipboardItem = item;
        let mut prune: bool = false;
        let ghost told = reply;
        match reply {
            StoreReply::NoStore => {},
            StoreReply::Touched(id) => {
                item.id = id;
                item.created_at = String::new();
            },
            StoreReply::Inserted { id, created_at } => {
                item.id = id;
                item.created_at = created_at;
                prune = true;
            },
            StoreReply::InsertFailed => {
                prune = true;
            },
            StoreReply::CheckFailed => {},
        }
        assert(item@ =~= settled(before, told));
        self.history.push_front(item);
        prune
    }

    // ── Searching ───────────────────────────────────────────────────────────

    /// Where the items for a query come from.
    pub fn search_field_changed(query: &str, has_store: bool) -> (r: SearchPlan)
        ensures
            match r {
                SearchPlan::ShowHistory => text::trimmed(query@).len() == 0,
                SearchPlan::AskStore(q) => has_store && q@ == text::trimmed(query@) && q@.len()
                    > 0,
                SearchPlan::FilterHistory(q) => !has_store && q@ == text::trimmed(query@)
                    && q@.len() > 0,
            },
    {
        let q: String = text::trim(query);
        if q.as_str().is_empty() {
            SearchPlan::ShowHistory
        } else if has_store {
            SearchPlan::AskStore(q)
        } else {
            SearchPlan::FilterHistory(q)
        }
    }

    /// The items that a query finds, after the database was asked for it: what
    /// it gave, or what the history has where it was not asked or failed.
    pub fn search_answered(
        &self,
        query: &str,
        stored: Option<Vec<ClipboardItem>>,
    ) -> (r: Vec<ClipboardItem>)
        ensures
            r.deep_view() == (match stored.deep_view() {
                Some(items) => items,
                None => history::shown(self.history@, query@),
            }),
    {
        match stored {
            Some(items) => items,
            None => self.history.filter(query),
        }
    }

    // ── Items ───────────────────────────────────────────────────────────────

    /// The item with the id: that of the history, else that of the database.
    pub fn find_item(&self, id: u64, stored: Option<ClipboardItem>) -> (r: Option<ClipboardItem>)
        ensures
            r.deep_view() == found(self.history@, id, stored.deep_view()),
    {
        match self.history.get(id) {
            Some(item) => Some(item.clone()),
            None => stored,
        }
    }

    /// Copies an item: the change that this makes on the pasteboard is not to
    /// be captured.
    pub fn copy_history_item(&mut self) -> (r: CopyNext)
        ensures
            final(self).poller@ == (PollerModel { ignoring: true, ..old(self).poller@ }),
            final(self).status == old(self).status,
            final(self).history == old(self).history,
            final(self).settings == old(self).settings,
            match r {
                CopyNext::SchedulePaste => old(self).settings.auto_paste,
                CopyNext::Notice(t) => !old(self).settings.auto_paste && t@
                    == "Copied to clipboard"@,
            },
    {
        self.poller.ignore_next_change();
        if self.settings.auto_paste {
            CopyNext::SchedulePaste
        } else {
            CopyNext::Notice("Copied to clipboard")
        }
    }

    /// What is told about a paste.
    pub fn perform_auto_paste(result: Result<(), AutoPasteError>) -> (notice: &'static str)
        ensures
            notice@ == (match result {
                Ok(_) => "Auto-pasted"@,
                Err(AutoPasteError::NotTrusted) =>
                    "Copied — grant Accessibility to enable auto-paste"@,
                Err(AutoPasteError::EventCreate) => "Copied (auto-paste failed)"@,
            }),
    {
        match result {
            Ok(_) => "Auto-pasted",
            Err(AutoPasteError::NotTrusted) => "Copied — grant Accessibility to enable auto-paste",
            Err(AutoPasteError::EventCreate) => "Copied (auto-paste failed)",
        }
    }

    /// The pin that an item gets: the opposite of the one it has, in the
    /// history or else in the database.
    pub fn new_pin(&self, id: u64, stored_pin: Option<bool>) -> (r: bool)
        ensures
            r == !(if history::position_of(self.history@, id) < self.history@.len() {
                self.history@[history::position_of(self.history@, id)].is_pinned
            } else {
                stored_pin == Some(true)
            }),
    {
        let pinned: bool = match self.history.get(id) {
            Some(item) => item.is_pinned,
            None => match stored_pin {
                Some(p) => p,
                None => false,
            },
        };
        !pinned
    }

    /// Pins an item or takes its pin, and takes over what the database holds
    /// then.
    pub fn pin_history_item(
        &mut self,
        id: u64,
        pin: bool,
        items: Option<Vec<ClipboardItem>>,
    ) -> (notice: &'static str)
        requires
            old(self).wf(),
        ensures
            final(self).wf(),
            final(self).only_history_changed(old(self)),
            final(self).history@ == reloaded(
                history::with_pin(old(self).history@, id, pin),
                items.deep_view(),
                old(self).history.capacity(),
            ),
            notice@ == (if pin {
                "Pinned"@
            } else {
                "Unpinned"@
            }),
    {
        let _ = self.history.set_pinned(id, pin);
        self.reload(items);
        if pin {
            "Pinned"
        } else {
            "Unpinned"
        }
    }

    /// Deletes an item from the history.
    pub fn delete_history_item(&mut self, id: u64) -> (notice: &'static str)
        requires
            old(self).wf(),
        ensures
            final(self).wf(),
            final(self).only_history_changed(old(self)),
            final(self).history@ == history::without(old(self).history@, id),
            notice@ == "Deleted"@,
    {
        let _ = self.history.remove(id);
        "Deleted"
    }

    /// Empties the history but for its pinned items, and takes over what the
    /// database holds then.
    pub fn clear_history(&mut self, items: Option<Vec<ClipboardItem>>) -> (notice: &'static str)
        requires
            old(self).wf(),
        ensures
            final(self).wf(),
            final(self).poller == old(self).poller,
            final(self).settings == old(self).settings,
            final(self).history.capacity() == old(self).history.capacity(),
            final(self).history@ == reloaded(
                history::only_pinned(old(self).history@),
                items.deep_view(),
                old(self).history.capacity(),
            ),
            !final(self).status.selecting(),
            final(self).status.selection() == Set::<u64>::empty(),
            final(self).status.shows_settings() == old(self).status.shows_settings(),
            notice@ == "History cleared (pinned kept)"@,
    {
        self.history.clear_unpinned();
        self.reload(items);
        self.status.set_select_mode(false);
        "History cleared (pinned kept)"
    }

    // ── Selecting ───────────────────────────────────────────────────────────

    /// Starts selecting.
    pub fn toggle_select_mode(&mut self) -> (notice: &'static str)
        ensures
            final(self).only_status_changed(old(self)),
            final(self).status.selecting(),
            final(self).status.selection() == old(self).status.selection(),
            final(self).status.shows_settings() == old(self).status.shows_settings(),
            notice@ == "Select items, then Delete"@,
    {
        self.status.set_select_mode(true);
        "Select items, then Delete"
    }

    /// Ends selecting; nothing is deleted.
    pub fn cancel_select_mode(&mut self)
        ensures
            final(self).only_status_changed(old(self)),
            !final(self).status.selecting(),
            final(self).status.selection() == Set::<u64>::empty(),
            final(self).status.shows_settings() == old(self).status.shows_settings(),
    {
        self.status.set_select_mode(false);
    }

    /// Selects an item or takes it out of the selection, while selecting.
    pub fn toggle_item_selection(&mut self, id: u64) -> (notice: Option<String>)
        ensures
            final(self).only_status_changed(old(self)),
            final(self).status.selecting() == old(self).status.selecting(),
            final(self).status.shows_settings() == old(self).status.shows_settings(),
            match notice {
                Some(n) => old(self).status.selecting() && final(self).status.selection()
                    == status_item::toggled(old(self).status.selection(), id) && n@
                    == numbers::decimal(final(self).status.selection().len()) + " selected"@,
                None => !old(self).status.selecting() && final(self).status.selection() == old(
                    self,
                ).status.selection(),
            },
    {
        if !self.status.is_select_mode() {
            return None;
        }
        let _ = self.status.toggle_selection(id);
        let mut notice: String = numbers::decimal_string(self.status.selected_count() as u64);
        notice.append(" selected");
        Some(notice)
    }

    /// Deletes items from the history that were selected, and ends selecting.
    /// Without any there is nothing to do.
    pub fn delete_selected_items(&mut self, ids: &[u64]) -> (notice: Option<String>)
        requires
            old(self).wf(),
        ensures
            final(self).wf(),
            ids@.len() == 0 ==> notice is None && *final(self) == *old(self),
            ids@.len() > 0 ==> {
                &&& notice matches Some(n) && n@ == "Deleted "@ + numbers::decimal(ids@.len())
                    + " items"@
                &&& final(self).poller == old(self).poller
                &&& final(self).settings == old(self).settings
                &&& final(self).history.capacity() == old(self).history.capacity()
                &&& final(self).history@ == history::without_all(old(self).history@, ids@)
                &&& !final(self).status.selecting()
                &&& final(self).status.selection() == Set::<u64>::empty()
                &&& final(self).status.shows_settings() == old(self).status.shows_settings()
            },
    {
        if ids.len() == 0 {
            return None;
        }
        self.history.remove_many(ids);
        self.status.set_select_mode(false);
        let mut notice: String = "Deleted ".to_owned();
        numbers::push_decimal(&mut notice, ids.len() as u64);
        notice.append(" items");
        Some(notice)
    }
}

/// The history after the database was read: what it gave, up to the capacity,
/// or as it was where it gave nothing.
pub open spec fn reloaded(
    items: Seq<ItemModel>,
    given: Option<Seq<ItemModel>>,
    capacity: nat,
) -> Seq<ItemModel> {
    match given {
        Some(list) => if list.len() > capacity {
            list.take(capacity as int)
        } else {
            list
        },
        None => items,
    }
}

/// The item with the id, in the history or else as the database gave it.
pub open spec fn found(items: Seq<ItemModel>, id: u64, stored: Option<ItemModel>) -> Option<
    ItemModel,
> {
    if history::position_of(items, id) < items.len() {
        Some(items[history::position_of(items, id)])
    } else {
        stored
    }
}

/// The same content copied twice in a row is kept once, whatever became of
/// either capture in the database, as long as the first found its place.
pub proof fn law_copied_twice_kept_once(
    items: Seq<ItemModel>,
    first: ItemModel,
    second: ItemModel,
    first_reply: StoreReply,
    second_reply: StoreReply,
    capacity: nat,
)
    requires
        first.hash == second.hash,
        items.len() > 0 ==> items[0].hash != first.hash,
        items.len() < capacity || history::last_unpinned(items) >= 0,
    ensures
        ({
            let once = history::pushed(items, settled(first, first_reply), capacity);
            let twice = history::pushed(once, settled(second, second_reply), capacity);
            &&& twice.len() == once.len()
            &&& twice[0].hash == first.hash
            &&& twice.skip(1) == once.skip(1)
        }),
{
    let a = settled(first, first_reply);
    let b = settled(second, second_reply);
    history::law_new_capture_in_front(items, a, capacity);
    let once = history::pushed(items, a, capacity);
    history::law_duplicate_adds_nothing(once, b, capacity);
}

// ── What the replies come to ────────────────────────────────────────────────

/// A capture takes the id and the time that the database gave it and keeps all
/// else; one that was there before has its time left open, and where the
/// database gave nothing, nothing changes.
pub proof fn law_settled(item: ItemModel, reply: StoreReply)
    ensures
        ({
            let r = settled(item, reply);
            &&& r == (ItemModel { id: r.id, created_at: r.created_at, ..item })
            &&& reply matches StoreReply::Inserted { id, created_at } ==> r.id == id
                && r.created_at == created_at@
            &&& reply matches StoreReply::Touched(id) ==> r.id == id && r.created_at.len() == 0
            &&& reply is NoStore || reply is InsertFailed || reply is CheckFailed ==> r == item
        }),
{
}

/// A list from the database takes the place of the history, in its order and as
/// far as there is room; without one the history stays.
pub proof fn law_reloaded(items: Seq<ItemModel>, list: Seq<ItemModel>, capacity: nat, i: int)
    ensures
        reloaded(items, None, capacity) == items,
        list.len() <= capacity ==> reloaded(items, Some(list), capacity) == list,
        list.len() > capacity ==> reloaded(items, Some(list), capacity).len() == capacity,
        0 <= i < list.len() && i < capacity ==> reloaded(items, Some(list), capacity)[i]
            == list[i],
{
}

/// An item is looked up in the history first: the first with the id is found
/// there, and only where none has it does the database's answer count.
pub proof fn law_found(items: Seq<ItemModel>, id: u64, stored: Option<ItemModel>, i: int)
    ensures
        0 <= i < items.len() && items[i].id == id && (forall|j: int|
            0 <= j < i ==> (#[trigger] items[j]).id != id) ==> found(items, id, stored) == Some(
            items[i],
        ),
        (forall|j: int| 0 <= j < items.len() ==> (#[trigger] items[j]).id != id) ==> found(
            items,
            id,
            stored,
        ) == stored,
{
    history::lemma_position_of(items, id);
}

/// The switch is on where launch at login is, and where it waits for the
/// approval that was asked for. The notice says which of the two, or that it is
/// off.
pub proof fn law_login_switch(want: bool, status: LoginItemStatus)
    ensures
        status == LoginItemStatus::Enabled ==> login_checked(want, status) && login_notice(
            want,
            status,
        ) == "Launch at login enabled"@,
        status == LoginItemStatus::RequiresApproval ==> login_checked(want, status) == want,
        status == LoginItemStatus::RequiresApproval && want ==> login_notice(want, status)
            == "Login item needs approval in System Settings → Login Items"@,
        status != LoginItemStatus::Enabled && status != LoginItemStatus::RequiresApproval
            ==> !login_checked(want, status),
        status != LoginItemStatus::Enabled && !want ==> login_notice(want, status)
            == "Launch at login disabled"@,
        want && !login_checked(want, status) ==> login_notice(want, status)
            == status.description(),
{
}

/// The timer runs at the interval that was set, and not faster than four times
/// in a second.
pub proof fn law_timer(poll_interval_ms: u64)
    ensures
        timer_ms(poll_interval_ms) >= 250,
        poll_interval_ms >= 250 ==> timer_ms(poll_interval_ms) == poll_interval_ms,
        poll_interval_ms < 250 ==> timer_ms(poll_interval_ms) == 250,
{
}

/// A change of the settings leaves the history, the popover and the poller as
/// they were; one of the history leaves the popover, the poller, the settings
/// and the room as they were; one of the popover leaves all else.
pub proof fn law_nothing_else_changed(now: AppDelegateIvars, before: AppDelegateIvars)
    ensures
        now.only_settings_changed(&before) ==> now.history == before.history && now.status
            == before.status && now.poller == before.poller,
        now.only_history_changed(&before) ==> now.status == before.status && now.poller
            == before.poller && now.settings == before.settings && now.history.capacity()
            == before.history.capacity(),
        now.only_status_changed(&before) ==> now.history == before.history && now.poller
            == before.poller && now.settings == before.settings,
        now.wf() ==> now.history@.len() <= now.history.capacity(),
{
}

} // verus!
