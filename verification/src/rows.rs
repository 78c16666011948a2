//! The rows of the history list and where they stand.
//!
//! Lengths are in points. A position is the distance from the top of the list
//! to the bottom edge of what stands there.
use vstd::prelude::*;
use vstd::slice::slice_subrange;

use crate::clipboard::{ClipboardItem, ItemModel};
use crate::lists;
use crate::text;
use crate::timestamps;

verus! {

/// Most characters of a row's title.
pub const TITLE_MAX: usize = 40;

/// Most characters of an item in a row's tooltip.
pub const TOOL_TIP_MAX: usize = 400;

// ── One row ─────────────────────────────────────────────────────────────────

/// A row of the list.
#[derive(Debug)]
pub struct ListRow {
    /// The item's id.
    pub id: u64,
    pub title: String,
    pub tool_tip: String,
    /// The name of the row's symbol.
    pub symbol: &'static str,
    /// What the symbol stands for.
    pub meaning: &'static str,
    /// Whether a click selects the item; else it copies it, and there is a
    /// menu.
    pub selecting: bool,
    /// Whether the item is selected.
    pub selected: bool,
    /// The title of the menu entry for the pin.
    pub pin_title: &'static str,
    /// The item's age; no label where it is empty.
    pub age: String,
}

/// The mathematical content of a [`ListRow`].
#[verifier::ext_equal]
pub struct RowView {
    pub id: u64,
    pub title: Seq<char>,
    pub tool_tip: Seq<char>,
    pub symbol: Seq<char>,
    pub meaning: Seq<char>,
    pub selecting: bool,
    pub selected: bool,
    pub pin_title: Seq<char>,
    pub age: Seq<char>,
}

impl View for ListRow {
    type V = RowView;

    open spec fn view(&self) -> RowView {
        RowView {
            id: self.id,
            title: self.title@,
            tool_tip: self.tool_tip@,
            symbol: self.symbol@,
            meaning: self.meaning@,
            selecting: self.selecting,
            selected: self.selected,
            pin_title: self.pin_title@,
            age: self.age@,
        }
    }
}

/// How a list is shown.
#[derive(Debug, Clone, Copy)]
pub struct ListMode {
    /// Whether items are being selected.
    pub selecting: bool,
    /// The time in Unix seconds, where it is known.
    pub now: Option<i64>,
}

impl ListMode {
    /// The time as an integer.
    pub open spec fn time(self) -> Option<int> {
        match self.now {
            Some(n) => Some(n as int),
            None => None,
        }
    }
}

/// The beginning of an item in its tooltip.
pub open spec fn shortened(s: Seq<char>) -> Seq<char> {
    if s.len() > TOOL_TIP_MAX {
        s.take(TOOL_TIP_MAX as int).push('…')
    } else {
        s
    }
}

/// The tooltip of an item's row.
pub open spec fn tool_tip_of(item: ItemModel, selecting: bool, selected: bool) -> Seq<char> {
    let tip = shortened(
        match item.text {
            Some(t) => t,
            None => item.preview,
        },
    );
    if selecting && selected {
        "Selected · "@ + tip
    } else if selecting {
        "Click to select · "@ + tip
    } else if item.is_pinned {
        "Pinned · "@ + tip
    } else {
        tip
    }
}

/// The symbol of an item's row.
pub open spec fn symbol_of(item: ItemModel, selecting: bool, selected: bool) -> Seq<char> {
    if selecting && selected {
        "checkmark.circle.fill"@
    } else if selecting {
        "circle"@
    } else if item.is_pinned {
        "pin.fill"@
    } else {
        item.content_type.symbol_text()
    }
}

/// The row of an item.
pub open spec fn row_of(item: ItemModel, mode: ListMode, selected: bool) -> RowView {
    RowView {
        id: item.id,
        title: text::truncated(item.preview, TITLE_MAX as nat),
        tool_tip: tool_tip_of(item, mode.selecting, selected),
        symbol: symbol_of(item, mode.selecting, selected),
        meaning: item.content_type.label_text(),
        selecting: mode.selecting,
        selected,
        pin_title: if item.is_pinned {
            "Unpin"@
        } else {
            "Pin"@
        },
        age: timestamps::relative_label(item.created_at, mode.time()),
    }
}

fn shorten(s: &str) -> (r: String)
    ensures
        r@ == shortened(s@),
{
    let v: Vec<char> = text::chars_of(s);
    if v.len() > TOOL_TIP_MAX {
        let mut r: String = text::string_of(slice_subrange(v.as_slice(), 0, TOOL_TIP_MAX));
        r.push('…');
        assert(v@.subrange(0, TOOL_TIP_MAX as int) =~= s@.take(TOOL_TIP_MAX as int));
        r
    } else {
        text::string_of(v.as_slice())
    }
}

fn make_tool_tip(item: &ClipboardItem, selecting: bool, selected: bool) -> (r: String)
    ensures
        r@ == tool_tip_of(item@, selecting, selected),
{
    let tip: String = match &item.content_text {
        Some(t) => shorten(t.as_str()),
        None => shorten(item.preview.as_str()),
    };
    if selecting && selected {
        text::appended("Selected · ", tip.as_str())
    } else if selecting {
        text::appended("Click to select · ", tip.as_str())
    } else if item.is_pinned {
        text::appended("Pinned · ", tip.as_str())
    } else {
        tip
    }
}

/// The row of an item.
pub fn make_history_row(item: &ClipboardItem, mode: ListMode, selected: bool) -> (r: ListRow)
    requires
        timestamps::age_fits(item@.created_at, mode.time()),
    ensures
        r@ == row_of(item@, mode, selected),
{
    let symbol: &'static str = if mode.selecting {
        if selected {
            "checkmark.circle.fill"
        } else {
            "circle"
        }
    } else if item.is_pinned {
        "pin.fill"
    } else {
        item.content_type.sf_symbol()
    };
    ListRow {
        id: item.id,
        title: text::truncate_chars(item.preview.as_str(), TITLE_MAX),
        tool_tip: make_tool_tip(item, mode.selecting, selected),
        symbol,
        meaning: item.content_type.label(),
        selecting: mode.selecting,
        selected,
        pin_title: if item.is_pinned {
            "Unpin"
        } else {
            "Pin"
        },
        age: timestamps::format_relative_time(item.created_at.as_str(), mode.now),
    }
}

// ── The list ────────────────────────────────────────────────────────────────

/// What stands in the list.
#[derive(Debug)]
pub enum Element {
    Header(&'static str),
    Separator,
    Row(ListRow),
}

/// The mathematical content of an [`Element`].
pub enum ElementView {
    Header(Seq<char>),
    Separator,
    Row(RowView),
}

/// Something in the list and its position.
#[derive(Debug)]
pub struct Placement {
    pub element: Element,
    pub position: i128,
}

/// The mathematical content of a [`Placement`].
pub struct PlacementView {
    pub element: ElementView,
    pub position: int,
}

impl DeepView for Placement {
    type V = PlacementView;

    open spec fn deep_view(&self) -> PlacementView {
        PlacementView {
            element: match self.element {
                Element::Header(t) => ElementView::Header(t@),
                Element::Separator => ElementView::Separator,
                Element::Row(r) => ElementView::Row(r@),
            },
            position: self.position as int,
        }
    }
}

/// The pinned items.
pub open spec fn pinned_of(items: Seq<ItemModel>) -> Seq<ItemModel> {
    items.filter(|i: ItemModel| i.is_pinned)
}

/// The other items.
pub open spec fn recent_of(items: Seq<ItemModel>) -> Seq<ItemModel> {
    items.filter(|i: ItemModel| !i.is_pinned)
}

/// The height of the list with `pinned` and `recent` items.
pub open spec fn list_height(pinned: nat, recent: nat) -> int {
    4 + (if pinned == 0 {
        0
    } else {
        20 + 34 * pinned + (if recent == 0 {
            0int
        } else {
            7
        })
    }) + (if recent == 0 {
        0
    } else {
        34 * recent + (if pinned == 0 {
            0int
        } else {
            20
        })
    }) + 4
}

/// Where the rows of the pinned items begin.
pub open spec fn pinned_top() -> int {
    26
}

/// Where the rows of the other items begin.
pub open spec fn recent_top(pinned: nat) -> int {
    if pinned == 0 {
        4
    } else {
        pinned_top() + 34 * pinned + 35
    }
}

/// The rows of items from a height on.
pub open spec fn rows_at(
    items: Seq<ItemModel>,
    top: int,
    mode: ListMode,
    selection: Set<u64>,
) -> Seq<PlacementView> {
    Seq::new(
        items.len(),
        |i: int|
            PlacementView {
                element: ElementView::Row(row_of(items[i], mode, selection.contains(items[i].id))),
                position: top + 34 * i + 32,
            },
    )
}

/// The header of the pinned items, where there are any.
pub open spec fn pinned_header(pinned: nat) -> Seq<PlacementView> {
    if pinned == 0 {
        Seq::empty()
    } else {
        seq![PlacementView { element: ElementView::Header("PINNED"@), position: 22 }]
    }
}

/// What stands between the pinned items and the others, where there are both.
pub open spec fn between(pinned: nat, recent: nat) -> Seq<PlacementView> {
    if pinned == 0 || recent == 0 {
        Seq::empty()
    } else {
        let end = pinned_top() + 34 * pinned;
        seq![
            PlacementView { element: ElementView::Separator, position: end + 7 },
            PlacementView { element: ElementView::Header("RECENT"@), position: end + 31 },
        ]
    }
}

/// All that stands in the list: the pinned items under their header, then the
/// others, under one of their own where there are pinned items.
pub open spec fn list_of_items(
    items: Seq<ItemModel>,
    mode: ListMode,
    selection: Set<u64>,
) -> Seq<PlacementView> {
    let pinned = pinned_of(items);
    let recent = recent_of(items);
    pinned_header(pinned.len()) + rows_at(pinned, pinned_top(), mode, selection) + between(
        pinned.len(),
        recent.len(),
    ) + rows_at(recent, recent_top(pinned.len()), mode, selection)
}

/// The height of an element.
pub open spec fn element_height(e: ElementView) -> int {
    match e {
        ElementView::Header(_) => 18,
        ElementView::Separator => 1,
        ElementView::Row(_) => 32,
    }
}

/// Nothing in the list covers anything else: each element begins at or below
/// the bottom edge of the one before it.
pub proof fn law_list_does_not_overlap(
    items: Seq<ItemModel>,
    mode: ListMode,
    selection: Set<u64>,
    i: int,
)
    requires
        0 <= i < list_of_items(items, mode, selection).len() - 1,
    ensures
        ({
            let list = list_of_items(items, mode, selection);
            list[i].position + element_height(list[i + 1].element) <= list[i + 1].position
        }),
{
    let pinned = pinned_of(items);
    let recent = recent_of(items);
    let p = pinned.len();
    let r = recent.len();
    let list = list_of_items(items, mode, selection);
    let head = pinned_header(p);
    let upper = rows_at(pinned, pinned_top(), mode, selection);
    let middle = between(p, r);
    let lower = rows_at(recent, recent_top(p), mode, selection);
    if p == 0 {
        assert(list =~= lower);
    } else {
        assert(list[0] == head[0]);
        assert(forall|k: int| 0 <= k < p ==> list[k + 1] == upper[k]);
        if r > 0 {
            assert(list[p as int + 1] == middle[0]);
            assert(list[p as int + 2] == middle[1]);
            assert(forall|k: int| 0 <= k < r ==> list[k + p + 3] == lower[k]);
            if i >= p + 3 {
                assert(list[i] == lower[i - p - 3]);
                assert(list[i + 1] == lower[i - p - 2]);
            } else if i == p + 2 {
                assert(list[i + 1] == lower[0]);
            }
        }
        if 1 <= i < p {
            assert(list[i] == upper[i - 1]);
            assert(list[i + 1] == upper[i]);
        } else if i == 0 {
            assert(list[1] == upper[0]);
        } else if i == p {
            assert(list[i] == upper[p - 1]);
        }
    }
}

/// A list of pinned items alone, or of others alone, lies within its height.
pub proof fn law_list_within_height(
    items: Seq<ItemModel>,
    mode: ListMode,
    selection: Set<u64>,
    i: int,
)
    requires
        0 <= i < list_of_items(items, mode, selection).len(),
        pinned_of(items).len() == 0 || recent_of(items).len() == 0,
    ensures
        list_of_items(items, mode, selection)[i].position <= list_height(
            pinned_of(items).len(),
            recent_of(items).len(),
        ),
{
    let pinned = pinned_of(items);
    let recent = recent_of(items);
    let list = list_of_items(items, mode, selection);
    let upper = rows_at(pinned, pinned_top(), mode, selection);
    let lower = rows_at(recent, recent_top(pinned.len()), mode, selection);
    if pinned.len() == 0 {
        assert(list =~= lower);
    } else if i > 0 {
        assert(list[i] == upper[i - 1]);
    }
}

/// Every item has its row in the list.
pub proof fn law_every_item_has_its_row(
    items: Seq<ItemModel>,
    mode: ListMode,
    selection: Set<u64>,
    item: ItemModel,
)
    requires
        items.contains(item),
    ensures
        exists|i: int|
            0 <= i < list_of_items(items, mode, selection).len() && (#[trigger] list_of_items(
                items,
                mode,
                selection,
            )[i]).element == ElementView::Row(row_of(item, mode, selection.contains(item.id))),
{
    let pinned = pinned_of(items);
    let recent = recent_of(items);
    let list = list_of_items(items, mode, selection);
    let head = pinned_header(pinned.len());
    let upper = rows_at(pinned, pinned_top(), mode, selection);
    let middle = between(pinned.len(), recent.len());
    let lower = rows_at(recent, recent_top(pinned.len()), mode, selection);
    lists::lemma_filter_members(items, |i: ItemModel| i.is_pinned);
    lists::lemma_filter_members(items, |i: ItemModel| !i.is_pinned);
    if item.is_pinned {
        assert(pinned.contains(item));
        let k = choose|k: int| 0 <= k < pinned.len() && pinned[k] == item;
        assert(list[head.len() + k] == upper[k]);
    } else {
        assert(recent.contains(item));
        let k = choose|k: int| 0 <= k < recent.len() && recent[k] == item;
        assert(list[head.len() + upper.len() + middle.len() + k] == lower[k]);
    }
}

// ── What a row and the list show ────────────────────────────────────────────

/// A row stands for its item: the id, the preview as its title, cut after 39
/// characters where it has more than 40, the kind, and the age.
pub proof fn law_row(item: ItemModel, mode: ListMode, selected: bool)
    ensures
        ({
            let row = row_of(item, mode, selected);
            &&& row.id == item.id
            &&& row.selecting == mode.selecting
            &&& row.selected == selected
            &&& row.meaning == item.content_type.label_text()
            &&& row.age == timestamps::relative_label(item.created_at, mode.time())
            &&& row.pin_title == "Unpin"@ <==> item.is_pinned
            &&& row.pin_title == "Pin"@ <==> !item.is_pinned
            &&& item.preview.len() <= 40 ==> row.title == item.preview
            &&& item.preview.len() > 40 ==> row.title == item.preview.take(39) + seq!['…']
        }),
{
    reveal_strlit("Pin");
    reveal_strlit("Unpin");
    assert("Pin"@.len() == 3 && "Unpin"@.len() == 5);
    if item.preview.len() > 40 {
        assert(item.preview.take(39).push('…') =~= item.preview.take(39) + seq!['…']);
    }
}

/// The symbol of a row: a full or an empty circle while items are being
/// selected, else a pin for a pinned item and the kind's own symbol for
/// another.
pub proof fn law_row_symbol(item: ItemModel, mode: ListMode, selected: bool)
    ensures
        ({
            let symbol = row_of(item, mode, selected).symbol;
            &&& mode.selecting && selected ==> symbol == "checkmark.circle.fill"@
            &&& mode.selecting && !selected ==> symbol == "circle"@
            &&& !mode.selecting && item.is_pinned ==> symbol == "pin.fill"@
            &&& !mode.selecting && !item.is_pinned ==> symbol == item.content_type.symbol_text()
        }),
{
}

/// The tooltip holds the item's text, or its preview where it has none, whole
/// up to 400 characters and else the first 400 and an ellipsis. In front of it
/// stands what a click does while items are being selected, and that the item
/// is pinned.
pub proof fn law_row_tool_tip(item: ItemModel, mode: ListMode, selected: bool)
    ensures
        ({
            let tip = row_of(item, mode, selected).tool_tip;
            let front = if mode.selecting && selected {
                "Selected · "@
            } else if mode.selecting {
                "Click to select · "@
            } else if item.is_pinned {
                "Pinned · "@
            } else {
                Seq::empty()
            };
            let whole = if item.text is Some {
                item.text->Some_0
            } else {
                item.preview
            };
            &&& whole.len() <= 400 ==> tip == front + whole
            &&& whole.len() > 400 ==> tip == front + whole.take(400) + seq!['…']
        }),
{
    let tip = row_of(item, mode, selected).tool_tip;
    let whole = if item.text is Some {
        item.text->Some_0
    } else {
        item.preview
    };
    let front = if mode.selecting && selected {
        "Selected · "@
    } else if mode.selecting {
        "Click to select · "@
    } else if item.is_pinned {
        "Pinned · "@
    } else {
        Seq::empty()
    };
    if whole.len() <= 400 {
        assert(tip =~= front + whole);
    } else {
        assert(tip =~= front + whole.take(400) + seq!['…']);
    }
}

/// Pinned items and others are told apart by their pins, each group in the
/// order of the items.
pub proof fn law_groups_one_more(items: Seq<ItemModel>, item: ItemModel)
    ensures
        item.is_pinned ==> pinned_of(items.push(item)) == pinned_of(items).push(item)
            && recent_of(items.push(item)) == recent_of(items),
        !item.is_pinned ==> recent_of(items.push(item)) == recent_of(items).push(item)
            && pinned_of(items.push(item)) == pinned_of(items),
        pinned_of(Seq::empty()).len() == 0,
        recent_of(Seq::empty()).len() == 0,
{
    reveal(Seq::filter);
    assert(items.push(item).drop_last() =~= items);
}

/// A row more, pinned or not, makes the list 34 points higher; the headers and
/// the line between the groups add what they need.
pub proof fn law_list_height(pinned: nat, recent: nat)
    ensures
        list_height(0, 0) == 8,
        list_height(0, recent) == 8 + 34 * recent,
        pinned > 0 ==> list_height(pinned, 0) == 28 + 34 * pinned,
        pinned > 0 && recent > 0 ==> list_height(pinned, recent) == 55 + 34 * (pinned + recent),
{
}

/// What stands where in a list with pinned items and others: the first header,
/// the pinned rows in their order, the line and the second header, and the
/// other rows in their order, a row every 34 points.
pub proof fn law_list_layout(
    items: Seq<ItemModel>,
    mode: ListMode,
    selection: Set<u64>,
    i: int,
)
    ensures
        ({
            let list = list_of_items(items, mode, selection);
            let (pinned, recent) = (pinned_of(items), recent_of(items));
            let (p, r) = (pinned.len(), recent.len());
            &&& p > 0 && r > 0 ==> list.len() == p + r + 3
            &&& p > 0 && r == 0 ==> list.len() == p + 1
            &&& p == 0 ==> list.len() == r
            &&& p > 0 ==> list[0] == (PlacementView {
                element: ElementView::Header("PINNED"@),
                position: 22,
            })
            &&& 0 <= i < p ==> list[1 + i] == (PlacementView {
                element: ElementView::Row(
                    row_of(pinned[i], mode, selection.contains(pinned[i].id)),
                ),
                position: 58 + 34 * i,
            })
            &&& p > 0 && r > 0 ==> list[p as int + 1] == (PlacementView {
                element: ElementView::Separator,
                position: 33int + 34 * p,
            })
            &&& p > 0 && r > 0 ==> list[p as int + 2] == (PlacementView {
                element: ElementView::Header("RECENT"@),
                position: 57int + 34 * p,
            })
            &&& p > 0 && 0 <= i < r ==> list[p + 3 + i] == (PlacementView {
                element: ElementView::Row(
                    row_of(recent[i], mode, selection.contains(recent[i].id)),
                ),
                position: 93int + 34 * p + 34 * i,
            })
            &&& p == 0 && 0 <= i < r ==> list[i] == (PlacementView {
                element: ElementView::Row(
                    row_of(recent[i], mode, selection.contains(recent[i].id)),
                ),
                position: 36 + 34 * i,
            })
        }),
{
    let (pinned, recent) = (pinned_of(items), recent_of(items));
    let (p, r) = (pinned.len(), recent.len());
    let list = list_of_items(items, mode, selection);
    let head = pinned_header(p);
    let upper = rows_at(pinned, pinned_top(), mode, selection);
    let middle = between(p, r);
    let lower = rows_at(recent, recent_top(p), mode, selection);
    if p > 0 {
        assert(list[0] == head[0]);
        if 0 <= i < p {
            assert(list[1 + i] == upper[i]);
        }
        if r > 0 {
            assert(list[p as int + 1] == middle[0]);
            assert(list[p as int + 2] == middle[1]);
            if 0 <= i < r {
                assert(list[p + 3 + i] == lower[i]);
            }
        }
    } else {
        assert(list =~= lower);
    }
}

/// A row shows what it holds.
pub proof fn law_row_view(row: ListRow)
    ensures
        row@.id == row.id,
        row@.title == row.title@,
        row@.tool_tip == row.tool_tip@,
        row@.symbol == row.symbol@,
        row@.meaning == row.meaning@,
        row@.selecting == row.selecting,
        row@.selected == row.selected,
        row@.pin_title == row.pin_title@,
        row@.age == row.age@,
{
}

} // verus!
