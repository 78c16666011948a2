//! The in-memory history: a bounded list of items, newest first.
use std::collections::VecDeque;
use vstd::prelude::*;

use crate::clipboard::{ClipboardItem, ItemModel};
use crate::lists;
use crate::text;

verus! {

/// The recent clipboard items, newest at the front, at most as many as its
/// capacity.
#[derive(Debug)]
pub struct History {
    items: VecDeque<ClipboardItem>,
    max_size: usize,
}

impl View for History {
    type V = Seq<ItemModel>;

    closed spec fn view(&self) -> Seq<ItemModel> {
        self.items.deep_view()
    }
}

// ── What the operations do ──────────────────────────────────────────────────

/// The position of the last item that is not pinned, or -1.
pub open spec fn last_unpinned(items: Seq<ItemModel>) -> int
    decreases items.len(),
{
    if items.len() == 0 {
        -1
    } else if !items.last().is_pinned {
        items.len() - 1
    } else {
        last_unpinned(items.drop_last())
    }
}

/// The items without the oldest unpinned one; without the oldest where all
/// are pinned.
pub open spec fn without_oldest(items: Seq<ItemModel>) -> Seq<ItemModel> {
    if last_unpinned(items) >= 0 {
        items.remove(last_unpinned(items))
    } else {
        items.drop_last()
    }
}

/// The history after a capture. One with the fingerprint of the newest item
/// only refreshes that item's timestamp and id; any other comes to the front,
/// and the oldest leaves where the capacity is exceeded.
pub open spec fn pushed(items: Seq<ItemModel>, item: ItemModel, capacity: nat) -> Seq<ItemModel> {
    if items.len() > 0 && items[0].hash == item.hash {
        items.update(
            0,
            ItemModel { created_at: item.created_at, id: item.id, ..items[0] },
        )
    } else {
        let all = seq![item] + items;
        if all.len() > capacity {
            without_oldest(all)
        } else {
            all
        }
    }
}

/// The position of the first item with the given id, or the length.
pub open spec fn position_of(items: Seq<ItemModel>, id: u64) -> int
    decreases items.len(),
{
    if items.len() == 0 || items[0].id == id {
        0
    } else {
        1 + position_of(items.drop_first(), id)
    }
}

/// Pinned items first, each group in the order it had.
pub open spec fn pinned_first(items: Seq<ItemModel>) -> Seq<ItemModel> {
    items.filter(|i: ItemModel| i.is_pinned) + items.filter(|i: ItemModel| !i.is_pinned)
}

/// The history after the pin of the first item with the id was set.
pub open spec fn with_pin(items: Seq<ItemModel>, id: u64, pinned: bool) -> Seq<ItemModel> {
    let k = position_of(items, id);
    if k < items.len() {
        pinned_first(items.update(k, ItemModel { is_pinned: pinned, ..items[k] }))
    } else {
        items
    }
}

/// The items that do not have the id.
pub open spec fn without(items: Seq<ItemModel>, id: u64) -> Seq<ItemModel> {
    items.filter(|i: ItemModel| i.id != id)
}

/// The items whose id is not among those given.
pub open spec fn without_all(items: Seq<ItemModel>, ids: Seq<u64>) -> Seq<ItemModel> {
    items.filter(|i: ItemModel| !ids.contains(i.id))
}

/// The pinned items.
pub open spec fn only_pinned(items: Seq<ItemModel>) -> Seq<ItemModel> {
    items.filter(|i: ItemModel| i.is_pinned)
}

// ── Searching ───────────────────────────────────────────────────────────────

/// A text where there is one.
pub open spec fn one_or_none(t: Option<Seq<char>>) -> Seq<Seq<char>> {
    match t {
        Some(s) => seq![s],
        None => Seq::empty(),
    }
}

/// The texts of an item: preview, plain text, HTML where it counts, URL and
/// file paths.
pub open spec fn item_texts(item: ItemModel, with_html: bool) -> Seq<Seq<char>> {
    seq![item.preview] + one_or_none(item.text) + one_or_none(
        if with_html {
            item.html
        } else {
            None
        },
    ) + one_or_none(item.url) + (match item.file_paths {
        Some(p) => p,
        None => Seq::empty(),
    })
}

/// The lower-case forms of texts.
pub open spec fn lowered(texts: Seq<Seq<char>>) -> Seq<Seq<char>> {
    texts.map_values(|s: Seq<char>| text::lower_form(s))
}

/// Whether `needle` occurs in text number `i`.
pub open spec fn found_in(texts: Seq<Seq<char>>, needle: Seq<char>, i: int) -> bool {
    0 <= i < texts.len() && text::occurs_in(needle, texts[i])
}

/// Whether `needle` occurs in one of the texts.
pub open spec fn found_in_any(texts: Seq<Seq<char>>, needle: Seq<char>) -> bool {
    exists|i: int| found_in(texts, needle, i)
}

/// Whether a query that is in lower case already occurs in one of an item's
/// texts, its HTML included.
pub open spec fn item_matches(item: ItemModel, q_lower: Seq<char>) -> bool {
    found_in_any(lowered(item_texts(item, true)), q_lower)
}

/// Whether the history's search finds an item by a query that is in lower case
/// already: it looks at preview, plain text, URL and file paths.
pub open spec fn found_by(item: ItemModel, q_lower: Seq<char>) -> bool {
    found_in_any(lowered(item_texts(item, false)), q_lower)
}

/// The items that a query in lower case finds; all where it is empty.
pub open spec fn matching(items: Seq<ItemModel>, q_lower: Seq<char>) -> Seq<ItemModel> {
    if q_lower.len() == 0 {
        items
    } else {
        items.filter(|i: ItemModel| found_by(i, q_lower))
    }
}

/// The items that a query finds, whatever its case and the white space around
/// it; all where it is blank.
pub open spec fn shown(items: Seq<ItemModel>, query: Seq<char>) -> Seq<ItemModel> {
    matching(items, text::lower_form(text::trimmed(query)))
}

/// Whether the text occurs in one of the others.
pub fn any_contains(texts: &[String], needle: &str) -> (r: bool)
    ensures
        r == found_in_any(texts.deep_view(), needle@),
{
    let ghost all = texts.deep_view();
    let mut i: usize = 0;
    while i < texts.len()
        invariant
            i <= texts@.len(),
            all == texts.deep_view(),
            forall|j: int| 0 <= j < i ==> !found_in(all, needle@, j),
        decreases texts@.len() - i,
    {
        assert(all[i as int] == texts@[i as int]@);
        if text::contains(texts[i].as_str(), needle) {
            assert(found_in(all, needle@, i as int));
            return true;
        }
        i += 1;
    }
    false
}

/// Appends the lower-case form of a text where there is one.
fn push_lowered(out: &mut Vec<String>, t: &Option<String>)
    ensures
        final(out).deep_view() == old(out).deep_view() + lowered(one_or_none(t.deep_view())),
{
    let ghost start = out.deep_view();
    if let Some(s) = t {
        out.push(text::lower_text(s.as_str()));
    }
    assert(out.deep_view() =~= start + lowered(one_or_none(t.deep_view())));
}

/// The lower-case forms of the texts of an item, with its HTML or without.
pub fn lowered_texts(item: &ClipboardItem, with_html: bool) -> (r: Vec<String>)
    ensures
        r.deep_view() == lowered(item_texts(item@, with_html)),
{
    let mut r: Vec<String> = Vec::new();
    r.push(text::lower_text(item.preview.as_str()));
    assert(r.deep_view() =~= lowered(seq![item@.preview]));
    push_lowered(&mut r, &item.content_text);
    if with_html {
        push_lowered(&mut r, &item.content_html);
    }
    push_lowered(&mut r, &item.content_url);
    let ghost single = seq![item@.preview] + one_or_none(item@.text) + one_or_none(
        if with_html {
            item@.html
        } else {
            None
        },
    ) + one_or_none(item@.url);
    assert(r.deep_view() =~= lowered(single));
    if let Some(paths) = &item.content_file_paths {
        let ghost all = paths.deep_view();
        let mut i: usize = 0;
        assert(single + all.take(0) =~= single);
        while i < paths.len()
            invariant
                i <= paths@.len(),
                all == paths.deep_view(),
                r.deep_view() == lowered(single + all.take(i as int)),
            decreases paths@.len() - i,
        {
            let ghost prior = r.deep_view();
            r.push(text::lower_text(paths[i].as_str()));
            assert(r.deep_view() =~= prior.push(text::lower_form(paths@[i as int]@)));
            i += 1;
            assert(r.deep_view() =~= lowered(single + all.take(i as int)));
        }
        assert(all.take(i as int) =~= all);
    } else {
        assert(single + Seq::<Seq<char>>::empty() =~= single);
    }
    r
}

/// Whether a query that is in lower case already occurs in one of an item's
/// texts, its HTML included.
pub fn item_matches_query(item: &ClipboardItem, q_lower: &str) -> (r: bool)
    ensures
        r == item_matches(item@, q_lower@),
{
    any_contains(lowered_texts(item, true).as_slice(), q_lower)
}

// ── The history ─────────────────────────────────────────────────────────────

impl History {
    /// The most items that are kept.
    pub closed spec fn capacity(&self) -> nat {
        self.max_size as nat
    }

    /// The invariant: room for one item at least, and never more items than
    /// there is room for.
    pub open spec fn wf(&self) -> bool {
        &&& self.capacity() >= 1
        &&& self@.len() <= self.capacity()
    }

    /// An empty history with room for `max_size` items, for one at least.
    pub fn new(max_size: usize) -> (r: Self)
        ensures
            r.wf(),
            r@ == Seq::<ItemModel>::empty(),
            r.capacity() == (if max_size == 0 {
                1
            } else {
                max_size as nat
            }),
    {
        let h = History {
            items: VecDeque::new(),
            max_size: if max_size == 0 {
                1
            } else {
                max_size
            },
        };
        assert(h@ =~= Seq::empty());
        h
    }

    /// The number of items.
    pub fn len(&self) -> (r: usize)
        ensures
            r == self@.len(),
    {
        self.items.len()
    }

    /// Whether there are no items.
    pub fn is_empty(&self) -> (r: bool)
        ensures
            r == (self@.len() == 0),
    {
        self.items.len() == 0
    }

    /// The items, newest first.
    pub fn items(&self) -> (r: &VecDeque<ClipboardItem>)
        ensures
            r.deep_view() == self@,
    {
        &self.items
    }

    /// Replaces all items, given newest first; those beyond the capacity are
    /// dropped.
    pub fn replace_all(&mut self, items: Vec<ClipboardItem>)
        requires
            old(self).wf(),
        ensures
            final(self).wf(),
            final(self).capacity() == old(self).capacity(),
            final(self)@ == (if items@.len() > old(self).capacity() {
                items.deep_view().take(old(self).capacity() as int)
            } else {
                items.deep_view()
            }),
    {
        let ghost all = items.deep_view();
        let mut rest: Vec<ClipboardItem> = items;
        if rest.len() > self.max_size {
            rest.truncate(self.max_size);
        }
        let ghost kept = rest.deep_view();
        assert(kept =~= (if all.len() > self.capacity() {
            all.take(self.capacity() as int)
        } else {
            all
        }));
        let mut deque: VecDeque<ClipboardItem> = VecDeque::new();
        assert(deque.deep_view() =~= kept.skip(rest@.len() as int));
        while rest.len() > 0
            invariant
                rest@.len() <= kept.len(),
                rest.deep_view() == kept.take(rest@.len() as int),
                deque.deep_view() == kept.skip(rest@.len() as int),
            decreases rest@.len(),
        {
            let ghost n = rest@.len();
            let ghost prior = deque.deep_view();
            assert(rest@[n - 1]@ == kept[n - 1]) by {
                assert(rest.deep_view()[n - 1] == kept.take(n as int)[n - 1]);
            }
            let item: ClipboardItem = rest.pop().unwrap();
            deque.push_front(item);
            assert(deque.deep_view() =~= seq![kept[n - 1]] + prior);
            assert(deque.deep_view() =~= kept.skip(n - 1));
            assert(rest.deep_view() =~= kept.take(n - 1));
        }
        assert(kept.skip(0) =~= kept);
        self.items = deque;
    }

    /// The position of the last item that is not pinned.
    fn last_unpinned_position(&self) -> (r: Option<usize>)
        ensures
            match r {
                Some(k) => k == last_unpinned(self@) && k < self@.len(),
                None => last_unpinned(self@) == -1,
            },
    {
        let ghost all = self@;
        let mut n: usize = self.items.len();
        assert(all.take(n as int) =~= all);
        while n > 0
            invariant
                n <= self.items@.len(),
                all == self@,
                last_unpinned(all) == last_unpinned(all.take(n as int)),
            decreases n,
        {
            assert(all[n - 1] == self.items@[n - 1]@);
            assert(all.take(n as int).drop_last() =~= all.take(n - 1));
            if !self.items[n - 1].is_pinned {
                return Some(n - 1);
            }
            n -= 1;
        }
        None
    }

    /// Takes a capture: it refreshes the newest item where that has the same
    /// fingerprint, else it comes to the front and the oldest unpinned item
    /// makes room.
    pub fn push_front(&mut self, item: ClipboardItem)
        requires
            old(self).wf(),
        ensures
            final(self).wf(),
            final(self).capacity() == old(self).capacity(),
            final(self)@ == pushed(old(self)@, item@, old(self).capacity()),
    {
        let ghost before = self@;
        let cap: usize = self.max_size;
        if self.items.len() > 0 {
            assert(before[0] == self.items@[0]@);
            if text::same_text(self.items[0].hash.as_str(), item.hash.as_str()) {
                let mut existing: ClipboardItem = self.items.pop_front().unwrap();
                existing.created_at = item.created_at;
                existing.id = item.id;
                self.items.push_front(existing);
                assert(self@ =~= before.update(
                    0,
                    ItemModel { created_at: item@.created_at, id: item@.id, ..before[0] },
                ));
                return;
            }
        }
        let ghost model = item@;
        self.items.push_front(item);
        assert(self@ =~= seq![model] + before);
        if self.items.len() > cap {
            let ghost all = self@;
            match self.last_unpinned_position() {
                Some(k) => {
                    let _ = self.items.remove(k);
                    assert(self@ =~= all.remove(k as int));
                },
                None => {
                    let _ = self.items.pop_back();
                    assert(self@ =~= all.drop_last());
                },
            }
        }
    }

    /// The position of the first item with the id.
    fn find(&self, id: u64) -> (r: Option<usize>)
        ensures
            match r {
                Some(k) => k == position_of(self@, id) && k < self@.len() && self@[k as int].id
                    == id,
                None => position_of(self@, id) == self@.len(),
            },
    {
        let ghost all = self@;
        let mut i: usize = 0;
        assert(all.skip(0) =~= all);
        while i < self.items.len()
            invariant
                i <= self.items@.len(),
                all == self@,
                position_of(all, id) == i + position_of(all.skip(i as int), id),
            decreases self.items@.len() - i,
        {
            assert(all[i as int] == self.items@[i as int]@);
            if self.items[i].id == id {
                return Some(i);
            }
            assert(all.skip(i as int).drop_first() =~= all.skip(i + 1));
            i += 1;
        }
        None
    }

    /// The item with the id; the first one, should there be several.
    pub fn get(&self, id: u64) -> (r: Option<&ClipboardItem>)
        ensures
            r.deep_view() == (if position_of(self@, id) < self@.len() {
                Some(self@[position_of(self@, id)])
            } else {
                None
            }),
    {
        match self.find(id) {
            Some(k) => {
                assert(self@[k as int] == self.items@[k as int]@);
                Some(&self.items[k])
            },
            None => None,
        }
    }

    /// Orders the pinned items before the others, each group as it was.
    fn sort_pinned_first(&mut self)
        ensures
            final(self)@ == pinned_first(old(self)@),
            final(self).capacity() == old(self).capacity(),
    {
        let ghost all = self@;
        let ghost on = |i: ItemModel| i.is_pinned;
        let ghost off = |i: ItemModel| !i.is_pinned;
        let mut pinned: VecDeque<ClipboardItem> = VecDeque::new();
        let mut rest: VecDeque<ClipboardItem> = VecDeque::new();
        let ghost mut i: int = 0;
        proof {
            reveal(Seq::filter);
            assert(all.skip(0) =~= all);
            assert(pinned.deep_view() =~= all.take(0).filter(on));
            assert(rest.deep_view() =~= all.take(0).filter(off));
        }
        while self.items.len() > 0
            invariant
                0 <= i <= all.len(),
                on == (|i: ItemModel| i.is_pinned),
                off == (|i: ItemModel| !i.is_pinned),
                self@ == all.skip(i),
                pinned.deep_view() == all.take(i).filter(on),
                rest.deep_view() == all.take(i).filter(off),
                self.max_size == old(self).max_size,
            decreases self.items@.len(),
        {
            let ghost m = self.items@[0]@;
            assert(self@.len() == self.items@.len() && self@[0] == m);
            let ghost prior = self@;
            let item: ClipboardItem = self.items.pop_front().unwrap();
            assert(self@ =~= prior.skip(1));
            assert(self@ =~= all.skip(i + 1));
            proof {
                lists::lemma_filter_step(all, on, i);
                lists::lemma_filter_step(all, off, i);
            }
            let ghost p = pinned.deep_view();
            let ghost r = rest.deep_view();
            if item.is_pinned {
                pinned.push_back(item);
                assert(pinned.deep_view() =~= p.push(m));
            } else {
                rest.push_back(item);
                assert(rest.deep_view() =~= r.push(m));
            }
            proof {
                i = i + 1;
            }
        }
        assert(self@.len() == 0);
        assert(all.take(i) =~= all);
        let ghost p = pinned.deep_view();
        let ghost r = rest.deep_view();
        pinned.append(&mut rest);
        assert(pinned.deep_view() =~= p + r);
        self.items = pinned;
    }

    /// Sets the pin of the item with the id and orders pinned items first.
    /// Tells whether there was such an item.
    pub fn set_pinned(&mut self, id: u64, pinned: bool) -> (r: bool)
        requires
            old(self).wf(),
        ensures
            final(self).wf(),
            final(self).capacity() == old(self).capacity(),
            final(self)@ == with_pin(old(self)@, id, pinned),
            r == (position_of(old(self)@, id) < old(self)@.len()),
    {
        let ghost before = self@;
        match self.find(id) {
            Some(k) => {
                assert(before[k as int] == self.items@[k as int]@);
                let mut item: ClipboardItem = self.items.remove(k).unwrap();
                item.is_pinned = pinned;
                self.items.insert(k, item);
                assert(self@ =~= before.update(
                    k as int,
                    ItemModel { is_pinned: pinned, ..before[k as int] },
                ));
                proof {
                    lemma_pinned_first_len(self@);
                }
                self.sort_pinned_first();
                true
            },
            None => false,
        }
    }
}

/// Ordering pinned items first keeps their number.
proof fn lemma_pinned_first_len(items: Seq<ItemModel>)
    ensures
        pinned_first(items).len() == items.len(),
{
    lists::lemma_filter_parts(items, |i: ItemModel| i.is_pinned, |i: ItemModel| !i.is_pinned);
}

/// Which items stay when some are removed.
enum Keep<'a> {
    OtherThan(u64),
    NoneOf(&'a [u64]),
    Pinned,
}

impl<'a> Keep<'a> {
    spec fn keeps(self, i: ItemModel) -> bool {
        match self {
            Keep::OtherThan(id) => i.id != id,
            Keep::NoneOf(ids) => !ids@.contains(i.id),
            Keep::Pinned => i.is_pinned,
        }
    }

    spec fn predicate(self) -> spec_fn(ItemModel) -> bool {
        |i: ItemModel| self.keeps(i)
    }

    fn holds(&self, item: &ClipboardItem) -> (r: bool)
        ensures
            r == self.keeps(item@),
    {
        match self {
            Keep::OtherThan(id) => item.id != *id,
            Keep::NoneOf(ids) => !contains_id(ids, item.id),
            Keep::Pinned => item.is_pinned,
        }
    }
}

/// Whether the id is among those given.
pub fn contains_id(ids: &[u64], id: u64) -> (r: bool)
    ensures
        r == ids@.contains(id),
{
    let mut i: usize = 0;
    while i < ids.len()
        invariant
            i <= ids@.len(),
            forall|j: int| 0 <= j < i ==> ids@[j] != id,
        decreases ids@.len() - i,
    {
        if ids[i] == id {
            return true;
        }
        i += 1;
    }
    false
}

/// The position of an id tells whether any item has it.
pub proof fn lemma_position_of(items: Seq<ItemModel>, id: u64)
    ensures
        0 <= position_of(items, id) <= items.len(),
        position_of(items, id) < items.len() ==> items[position_of(items, id)].id == id,
        forall|i: int| 0 <= i < position_of(items, id) ==> #[trigger] items[i].id != id,
    decreases items.len(),
{
    if items.len() > 0 && items[0].id != id {
        lemma_position_of(items.drop_first(), id);
        assert forall|i: int| 0 <= i < position_of(items, id) implies #[trigger] items[i].id
            != id by {
            if i > 0 {
                assert(items[i] == items.drop_first()[i - 1]);
            }
        }
    }
}

impl History {
    /// Removes all items that are not to be kept.
    fn retain(&mut self, keep: &Keep)
        ensures
            final(self)@ == old(self)@.filter(keep.predicate()),
            final(self).capacity() == old(self).capacity(),
    {
        let ghost all = self@;
        let ghost p = keep.predicate();
        let mut kept: VecDeque<ClipboardItem> = VecDeque::new();
        let ghost mut i: int = 0;
        proof {
            reveal(Seq::filter);
            assert(all.skip(0) =~= all);
            assert(kept.deep_view() =~= all.take(0).filter(p));
        }
        while self.items.len() > 0
            invariant
                0 <= i <= all.len(),
                p == keep.predicate(),
                self@ == all.skip(i),
                kept.deep_view() == all.take(i).filter(p),
                self.max_size == old(self).max_size,
            decreases self.items@.len(),
        {
            let ghost m = self.items@[0]@;
            assert(self@.len() == self.items@.len() && self@[0] == m);
            let ghost prior = self@;
            let item: ClipboardItem = self.items.pop_front().unwrap();
            assert(self@ =~= prior.skip(1));
            assert(self@ =~= all.skip(i + 1));
            proof {
                lists::lemma_filter_step(all, p, i);
            }
            if keep.holds(&item) {
                let ghost k = kept.deep_view();
                kept.push_back(item);
                assert(kept.deep_view() =~= k.push(m));
            }
            proof {
                i = i + 1;
            }
        }
        assert(self@.len() == 0);
        assert(all.take(i) =~= all);
        self.items = kept;
    }

    /// Removes the item with the id. Tells whether there was one.
    pub fn remove(&mut self, id: u64) -> (r: bool)
        requires
            old(self).wf(),
        ensures
            final(self).wf(),
            final(self).capacity() == old(self).capacity(),
            final(self)@ == without(old(self)@, id),
            r == (position_of(old(self)@, id) < old(self)@.len()),
    {
        let before: usize = self.items.len();
        let ghost all = self@;
        let keep = Keep::OtherThan(id);
        self.retain(&keep);
        proof {
            let p = |i: ItemModel| i.id != id;
            assert(keep.predicate() =~= p);
            lists::lemma_filter_len(all, p);
            lemma_position_of(all, id);
            assert(self@.len() == self.items@.len());
        }
        self.items.len() != before
    }

    /// Removes the items with the given ids.
    pub fn remove_many(&mut self, ids: &[u64])
        requires
            old(self).wf(),
        ensures
            final(self).wf(),
            final(self).capacity() == old(self).capacity(),
            final(self)@ == without_all(old(self)@, ids@),
    {
        let ghost all = self@;
        let keep = Keep::NoneOf(ids);
        self.retain(&keep);
        proof {
            let p = |i: ItemModel| !ids@.contains(i.id);
            assert(keep.predicate() =~= p);
            lists::lemma_filter_len(all, p);
        }
    }

    /// Drops the items that are not pinned.
    pub fn clear_unpinned(&mut self)
        requires
            old(self).wf(),
        ensures
            final(self).wf(),
            final(self).capacity() == old(self).capacity(),
            final(self)@ == only_pinned(old(self)@),
    {
        let ghost all = self@;
        let keep = Keep::Pinned;
        self.retain(&keep);
        proof {
            let p = |i: ItemModel| i.is_pinned;
            assert(keep.predicate() =~= p);
            lists::lemma_filter_len(all, p);
        }
    }

    /// Drops all items.
    pub fn clear_all(&mut self)
        requires
            old(self).wf(),
        ensures
            final(self).wf(),
            final(self).capacity() == old(self).capacity(),
            final(self)@ == Seq::<ItemModel>::empty(),
    {
        self.items.clear();
        assert(self@ =~= Seq::empty());
    }

    /// The items that a query in lower case finds; all where it is empty.
    pub fn filter_lowered(&self, q_lower: &str) -> (r: Vec<ClipboardItem>)
        ensures
            r.deep_view() == matching(self@, q_lower@),
    {
        let ghost all = self@;
        let ghost p = |i: ItemModel| found_by(i, q_lower@);
        let everything: bool = q_lower.is_empty();
        let mut r: Vec<ClipboardItem> = Vec::new();
        let mut i: usize = 0;
        proof {
            reveal(Seq::filter);
            assert(r.deep_view() =~= all.take(0));
            assert(r.deep_view() =~= all.take(0).filter(p));
        }
        while i < self.items.len()
            invariant
                i <= self.items@.len(),
                all == self@,
                all.len() == self.items@.len(),
                everything == (q_lower@.len() == 0),
                p == (|i: ItemModel| found_by(i, q_lower@)),
                r.deep_view() == (if everything {
                    all.take(i as int)
                } else {
                    all.take(i as int).filter(p)
                }),
            decreases self.items@.len() - i,
        {
            let ghost prior = r.deep_view();
            let item: &ClipboardItem = &self.items[i];
            assert(all[i as int] == item@);
            assert(all.take(i + 1) =~= all.take(i as int).push(item@));
            proof {
                lists::lemma_filter_step(all, p, i as int);
            }
            if everything || any_contains(lowered_texts(item, false).as_slice(), q_lower) {
                r.push(item.clone());
                assert(r.deep_view() =~= prior.push(item@));
            }
            i += 1;
        }
        assert(all.take(i as int) =~= all);
        r
    }

    /// The items in whose preview, text, URL or paths the query occurs,
    /// whatever the case; all where the query is blank.
    pub fn filter(&self, query: &str) -> (r: Vec<ClipboardItem>)
        ensures
            r.deep_view() == shown(self@, query@),
            text::trimmed(query@).len() == 0 ==> r.deep_view() == self@,
    {
        let q: String = text::lower_text(text::trim(query).as_str());
        self.filter_lowered(q.as_str())
    }
}

// ── Laws ────────────────────────────────────────────────────────────────────

/// Where the last unpinned item stands.
proof fn lemma_last_unpinned(items: Seq<ItemModel>)
    ensures
        -1 <= last_unpinned(items) < items.len(),
        last_unpinned(items) >= 0 ==> !items[last_unpinned(items)].is_pinned,
        forall|i: int| last_unpinned(items) < i < items.len() ==> #[trigger] items[i].is_pinned,
    decreases items.len(),
{
    if items.len() > 0 && items.last().is_pinned {
        lemma_last_unpinned(items.drop_last());
        assert forall|i: int| last_unpinned(items) < i < items.len() implies #[trigger] items[i].is_pinned by {
            if i < items.len() - 1 {
                assert(items[i] == items.drop_last()[i]);
            }
        }
    }
}

/// A capture never makes the history exceed its capacity.
pub proof fn law_push_within_capacity(items: Seq<ItemModel>, item: ItemModel, capacity: nat)
    requires
        items.len() <= capacity,
        capacity >= 1,
    ensures
        pushed(items, item, capacity).len() <= capacity,
{
    lemma_last_unpinned(seq![item] + items);
}

/// A capture drives out no pinned item as long as there is an unpinned one,
/// the new one included.
pub proof fn law_push_keeps_pinned(items: Seq<ItemModel>, item: ItemModel, capacity: nat)
    requires
        items.len() > 0 ==> items[0].hash != item.hash,
        last_unpinned(seq![item] + items) >= 0,
    ensures
        only_pinned(pushed(items, item, capacity)) == only_pinned(seq![item] + items),
{
    let all = seq![item] + items;
    lemma_last_unpinned(all);
    if all.len() > capacity {
        lists::lemma_filter_remove(all, |i: ItemModel| i.is_pinned, last_unpinned(all));
    }
}

/// A capture with the fingerprint of the newest item adds no item and keeps
/// all content; it only refreshes the newest item's id and timestamp.
pub proof fn law_duplicate_adds_nothing(items: Seq<ItemModel>, item: ItemModel, capacity: nat)
    requires
        items.len() > 0,
        items[0].hash == item.hash,
    ensures
        pushed(items, item, capacity).len() == items.len(),
        pushed(items, item, capacity).skip(1) == items.skip(1),
        pushed(items, item, capacity)[0] == (ItemModel {
            id: item.id,
            created_at: item.created_at,
            ..items[0]
        }),
{
    assert(pushed(items, item, capacity).skip(1) =~= items.skip(1));
}

/// A new capture that finds room stands at the front.
pub proof fn law_new_capture_in_front(items: Seq<ItemModel>, item: ItemModel, capacity: nat)
    requires
        items.len() > 0 ==> items[0].hash != item.hash,
        items.len() < capacity || last_unpinned(items) >= 0,
    ensures
        pushed(items, item, capacity).len() > 0,
        pushed(items, item, capacity)[0] == item,
{
    let all = seq![item] + items;
    lemma_last_unpinned(all);
    lemma_last_unpinned(items);
    if last_unpinned(items) >= 0 {
        assert(all[last_unpinned(items) + 1] == items[last_unpinned(items)]);
    }
}

/// Clearing keeps the pinned items, each one, and nothing else.
pub proof fn law_clear_keeps_pinned(items: Seq<ItemModel>, x: ItemModel)
    ensures
        only_pinned(items).contains(x) <==> items.contains(x) && x.is_pinned,
{
    lists::lemma_filter_members(items, |i: ItemModel| i.is_pinned);
}

/// After a removal no item has the id, and all others are still there.
pub proof fn law_removed_is_gone(items: Seq<ItemModel>, id: u64, x: ItemModel)
    ensures
        without(items, id).contains(x) <==> items.contains(x) && x.id != id,
        position_of(without(items, id), id) == without(items, id).len(),
{
    lists::lemma_filter_members(items, |i: ItemModel| i.id != id);
    let rest = without(items, id);
    lemma_position_of(rest, id);
    let k = position_of(rest, id);
    if k < rest.len() {
        assert(rest.contains(rest[k]));
    }
}

/// After a removal of many no item has one of the ids, and all others are
/// still there.
pub proof fn law_removed_many_are_gone(items: Seq<ItemModel>, ids: Seq<u64>, x: ItemModel)
    ensures
        without_all(items, ids).contains(x) <==> items.contains(x) && !ids.contains(x.id),
{
    lists::lemma_filter_members(items, |i: ItemModel| !ids.contains(i.id));
}

/// Removing no ids changes nothing.
pub proof fn law_remove_none(items: Seq<ItemModel>)
    ensures
        without_all(items, Seq::empty()) == items,
    decreases items.len(),
{
    reveal(Seq::filter);
    if items.len() > 0 {
        law_remove_none(items.drop_last());
        assert(items =~= items.drop_last().push(items.last()));
    } else {
        assert(without_all(items, Seq::empty()) =~= items);
    }
}

/// Ordering by pin moves items and neither adds nor loses one.
pub proof fn law_pinned_first_permutes(items: Seq<ItemModel>)
    ensures
        pinned_first(items).to_multiset() == items.to_multiset(),
    decreases items.len(),
{
    broadcast use vstd::seq_lib::group_to_multiset_ensures;
    broadcast use vstd::multiset::group_multiset_axioms;

    reveal(Seq::filter);
    let on = items.filter(|i: ItemModel| i.is_pinned);
    let off = items.filter(|i: ItemModel| !i.is_pinned);
    if items.len() > 0 {
        let front = items.drop_last();
        law_pinned_first_permutes(front);
        let on0 = front.filter(|i: ItemModel| i.is_pinned);
        let off0 = front.filter(|i: ItemModel| !i.is_pinned);
        vstd::seq_lib::lemma_multiset_commutative(on, off);
        vstd::seq_lib::lemma_multiset_commutative(on0, off0);
        assert(items =~= front.push(items.last()));
        assert(pinned_first(items).to_multiset() =~= items.to_multiset());
    } else {
        assert(pinned_first(items) =~= items);
    }
}

/// After ordering by pin no unpinned item stands before a pinned one.
pub proof fn law_pinned_stand_first(items: Seq<ItemModel>, i: int, j: int)
    requires
        0 <= i < j < pinned_first(items).len(),
        pinned_first(items)[j].is_pinned,
    ensures
        pinned_first(items)[i].is_pinned,
{
    let p = |i: ItemModel| i.is_pinned;
    let u = |i: ItemModel| !i.is_pinned;
    let on = items.filter(p);
    let off = items.filter(u);
    lists::lemma_filter_members(items, p);
    lists::lemma_filter_members(items, u);
    if j >= on.len() {
        assert(off.contains(off[j - on.len()]));
    } else {
        assert(on.contains(on[i]));
    }
}

/// Setting a pin changes that one flag: as many items as before, and the one
/// meant has the pin.
pub proof fn law_set_pinned(items: Seq<ItemModel>, id: u64, pinned: bool)
    requires
        position_of(items, id) < items.len(),
    ensures
        with_pin(items, id, pinned).len() == items.len(),
        with_pin(items, id, pinned).contains(
            (ItemModel { is_pinned: pinned, ..items[position_of(items, id)] }),
        ),
{
    lemma_position_of(items, id);
    let k = position_of(items, id);
    let m = ItemModel { is_pinned: pinned, ..items[k] };
    let t = items.update(k, m);
    lemma_pinned_first_len(t);
    assert(t[k] == m);
    assert(t.contains(m));
    let p = |i: ItemModel| i.is_pinned;
    let u = |i: ItemModel| !i.is_pinned;
    lists::lemma_filter_members(t, p);
    lists::lemma_filter_members(t, u);
    let r = with_pin(items, id, pinned);
    if pinned {
        assert(t.filter(p).contains(m));
        let i = choose|i: int| 0 <= i < t.filter(p).len() && t.filter(p)[i] == m;
        assert(r[i] == m);
    } else {
        assert(t.filter(u).contains(m));
        let i = choose|i: int| 0 <= i < t.filter(u).len() && t.filter(u)[i] == m;
        assert(r[t.filter(p).len() + i] == m);
    }
}

/// A search shows exactly the items that the query finds.
pub proof fn law_search_exact(items: Seq<ItemModel>, q_lower: Seq<char>, x: ItemModel)
    requires
        q_lower.len() > 0,
    ensures
        matching(items, q_lower).contains(x) <==> items.contains(x) && found_by(x, q_lower),
{
    lists::lemma_filter_members(items, |i: ItemModel| found_by(i, q_lower));
}

/// A search shows items of the history in their order.
pub proof fn law_search_keeps_order(items: Seq<ItemModel>, query: Seq<char>)
    ensures
        lists::subsequence(shown(items, query), items),
{
    let q = text::lower_form(text::trimmed(query));
    lists::lemma_filter_subsequence(items, |i: ItemModel| found_by(i, q));
    lists::lemma_subsequence_of_itself(items);
}

/// A blank query shows all items.
pub proof fn law_blank_query_shows_all(items: Seq<ItemModel>, query: Seq<char>)
    requires
        text::trimmed(query).len() == 0,
    ensures
        shown(items, query) == items,
{
}

/// White space around a query changes nothing.
pub proof fn law_search_ignores_outer_space(items: Seq<ItemModel>, query: Seq<char>)
    ensures
        shown(items, text::trimmed(query)) == shown(items, query),
{
    text::law_trim(query);
}

/// ASCII queries that differ only in the case of letters find the same items.
pub proof fn law_search_ignores_case(items: Seq<ItemModel>, a: Seq<char>, b: Seq<char>)
    requires
        text::all_ascii(a),
        text::all_ascii(b),
        text::ascii_lower(a) == text::ascii_lower(b),
    ensures
        shown(items, a) == shown(items, b),
{
    text::lemma_trimmed_lower(a);
    text::lemma_trimmed_lower(b);
}

/// An ASCII query finds in capitals what it finds as it is.
pub proof fn law_search_in_capitals(items: Seq<ItemModel>, query: Seq<char>)
    requires
        text::all_ascii(query),
    ensures
        shown(items, text::ascii_upper(query)) == shown(items, query),
{
    text::lemma_upper_lower(query);
    law_search_ignores_case(items, text::ascii_upper(query), query);
}

/// An item is shown where one of its texts is ASCII and holds the ASCII query,
/// whatever the case of either.
pub proof fn law_search_finds_text(
    items: Seq<ItemModel>,
    query: Seq<char>,
    x: ItemModel,
    t: Seq<char>,
)
    requires
        items.contains(x),
        item_texts(x, false).contains(t),
        text::all_ascii(t),
        text::all_ascii(query),
        text::occurs_in(text::ascii_lower(text::trimmed(query)), text::ascii_lower(t)),
    ensures
        shown(items, query).contains(x),
{
    text::lemma_trimmed_lower(query);
    let q = text::lower_form(text::trimmed(query));
    let texts = item_texts(x, false);
    let k = choose|k: int| 0 <= k < texts.len() && texts[k] == t;
    assert(found_in(lowered(texts), q, k));
    if q.len() > 0 {
        law_search_exact(items, q, x);
    }
}

/// A query in lower case that contains another finds no more than that one,
/// and in the same order.
pub proof fn law_longer_lowered_finds_no_more(
    items: Seq<ItemModel>,
    part: Seq<char>,
    whole: Seq<char>,
)
    requires
        text::occurs_in(part, whole),
    ensures
        lists::subsequence(matching(items, whole), matching(items, part)),
{
    let p = |i: ItemModel| found_by(i, whole);
    let q = |i: ItemModel| found_by(i, part);
    lists::lemma_subsequence_of_itself(items);
    lists::lemma_filter_subsequence(items, p);
    assert forall|x: ItemModel| #[trigger] p(x) implies q(x) by {
        let texts = lowered(item_texts(x, false));
        let k = choose|k: int| found_in(texts, whole, k);
        text::lemma_occurs_in_part(part, whole, texts[k]);
        assert(found_in(texts, part, k));
    }
    lists::lemma_filter_stricter(items, p, q);
}

/// An ASCII query that contains another finds no more than that one, and in
/// the same order.
pub proof fn law_longer_query_finds_no_more(
    items: Seq<ItemModel>,
    part: Seq<char>,
    whole: Seq<char>,
)
    requires
        text::all_ascii(part),
        text::all_ascii(whole),
        text::occurs_in(text::trimmed(part), text::trimmed(whole)),
    ensures
        lists::subsequence(shown(items, whole), shown(items, part)),
{
    text::lemma_trimmed_lower(part);
    text::lemma_trimmed_lower(whole);
    text::lemma_lower_occurs(text::trimmed(part), text::trimmed(whole));
    law_longer_lowered_finds_no_more(
        items,
        text::lower_form(text::trimmed(part)),
        text::lower_form(text::trimmed(whole)),
    );
}

// ── What is found, said of the items' own parts ─────────────────────────────

/// An item with a text in which the query occurs in lower case is shown.
proof fn lemma_shown(items: Seq<ItemModel>, query: Seq<char>, x: ItemModel, k: int)
    requires
        items.contains(x),
        0 <= k < item_texts(x, false).len(),
        text::occurs_in(
            text::lower_form(text::trimmed(query)),
            text::lower_form(item_texts(x, false)[k]),
        ),
    ensures
        shown(items, query).contains(x),
{
    let q = text::lower_form(text::trimmed(query));
    assert(found_in(lowered(item_texts(x, false)), q, k));
    if q.len() > 0 {
        law_search_exact(items, q, x);
    }
}

/// A search finds an item by any part of its plain text, wherever in the text
/// it stands.
pub proof fn law_search_finds_by_text(
    items: Seq<ItemModel>,
    query: Seq<char>,
    x: ItemModel,
    t: Seq<char>,
)
    requires
        items.contains(x),
        x.text == Some(t),
        text::occurs_in(text::lower_form(text::trimmed(query)), text::lower_form(t)),
    ensures
        shown(items, query).contains(x),
{
    assert(item_texts(x, false)[1] == t);
    lemma_shown(items, query, x, 1);
}

/// A search finds an item by any part of its preview.
pub proof fn law_search_finds_by_preview(items: Seq<ItemModel>, query: Seq<char>, x: ItemModel)
    requires
        items.contains(x),
        text::occurs_in(text::lower_form(text::trimmed(query)), text::lower_form(x.preview)),
    ensures
        shown(items, query).contains(x),
{
    assert(item_texts(x, false)[0] == x.preview);
    lemma_shown(items, query, x, 0);
}

/// A search finds an item by any part of its URL.
pub proof fn law_search_finds_by_url(
    items: Seq<ItemModel>,
    query: Seq<char>,
    x: ItemModel,
    u: Seq<char>,
)
    requires
        items.contains(x),
        x.url == Some(u),
        text::occurs_in(text::lower_form(text::trimmed(query)), text::lower_form(u)),
    ensures
        shown(items, query).contains(x),
{
    let k: int = 1int + one_or_none(x.text).len();
    assert(item_texts(x, false)[k] == u);
    lemma_shown(items, query, x, k);
}

/// A search finds an item by any part of any of its file paths.
pub proof fn law_search_finds_by_path(
    items: Seq<ItemModel>,
    query: Seq<char>,
    x: ItemModel,
    paths: Seq<Seq<char>>,
    i: int,
)
    requires
        items.contains(x),
        x.file_paths == Some(paths),
        0 <= i < paths.len(),
        text::occurs_in(text::lower_form(text::trimmed(query)), text::lower_form(paths[i])),
    ensures
        shown(items, query).contains(x),
{
    let k: int = 1int + one_or_none(x.text).len() + one_or_none(x.url).len() + i;
    assert(item_texts(x, false)[k] == paths[i]);
    lemma_shown(items, query, x, k);
}

/// A search with ASCII letters finds ASCII text in any case: the query occurs
/// in the plain text, the preview, the URL or a path once both are in lower
/// case.
pub proof fn law_ascii_search_finds(
    items: Seq<ItemModel>,
    query: Seq<char>,
    x: ItemModel,
    t: Seq<char>,
    i: int,
)
    requires
        items.contains(x),
        x.text == Some(t) || x.preview == t || x.url == Some(t) || (x.file_paths matches Some(p)
            && 0 <= i < p.len() && p[i] == t),
        forall|k: int| 0 <= k < t.len() ==> (#[trigger] t[k] as u32) < 128,
        forall|k: int| 0 <= k < query.len() ==> (#[trigger] query[k] as u32) < 128,
        text::occurs_in(text::ascii_lower(text::trimmed(query)), text::ascii_lower(t)),
    ensures
        shown(items, query).contains(x),
{
    text::lemma_trimmed_lower(query);
    assert(text::all_ascii(t));
    if x.text == Some(t) {
        law_search_finds_by_text(items, query, x, t);
    } else if x.preview == t {
        law_search_finds_by_preview(items, query, x);
    } else if x.url == Some(t) {
        law_search_finds_by_url(items, query, x, t);
    } else {
        law_search_finds_by_path(items, query, x, x.file_paths->Some_0, i);
    }
}

/// What a search shows has the query in its plain text, preview, URL or a path.
pub proof fn law_search_shows_only_matches(items: Seq<ItemModel>, query: Seq<char>, x: ItemModel)
    requires
        shown(items, query).contains(x),
        text::lower_form(text::trimmed(query)).len() > 0,
    ensures
        items.contains(x),
        ({
            let q = text::lower_form(text::trimmed(query));
            ||| text::occurs_in(q, text::lower_form(x.preview))
            ||| x.text matches Some(t) && text::occurs_in(q, text::lower_form(t))
            ||| x.url matches Some(u) && text::occurs_in(q, text::lower_form(u))
            ||| x.file_paths matches Some(p) && exists|i: int|
                0 <= i < p.len() && text::occurs_in(q, text::lower_form(#[trigger] p[i]))
        }),
{
    let q = text::lower_form(text::trimmed(query));
    law_search_exact(items, q, x);
    let texts = item_texts(x, false);
    let k = choose|k: int| found_in(lowered(texts), q, k);
    let a: int = 1int + one_or_none(x.text).len();
    let b: int = a + one_or_none(x.url).len();
    assert(lowered(texts)[k] == text::lower_form(texts[k]));
    if k == 0 {
        assert(texts[k] == x.preview);
    } else if k < a {
        assert(texts[k] == x.text->Some_0);
    } else if k < b {
        assert(texts[k] == x.url->Some_0);
    } else {
        assert(texts[k] == x.file_paths->Some_0[k - b]);
    }
}

/// One item more in the history is one more in what a search shows, at its
/// end, or none.
pub proof fn law_search_one_more(items: Seq<ItemModel>, query: Seq<char>, x: ItemModel)
    ensures
        shown(items.push(x), query) == shown(items, query).push(x) || shown(items.push(x), query)
            == shown(items, query),
        shown(Seq::empty(), query) == Seq::<ItemModel>::empty(),
{
    reveal(Seq::filter);
    assert(items.push(x).drop_last() =~= items);
    assert(shown(Seq::empty(), query) =~= Seq::empty());
}

// ── What stays and what leaves, item by item ────────────────────────────────

/// Where there is room a capture comes to the front and every earlier item
/// stays.
pub proof fn law_push_with_room(items: Seq<ItemModel>, item: ItemModel, capacity: nat)
    requires
        items.len() > 0 ==> items[0].hash != item.hash,
        items.len() + 1 <= capacity,
    ensures
        pushed(items, item, capacity) == seq![item] + items,
{
}

/// Where there is no room the oldest unpinned item leaves: it is not pinned,
/// everything behind it is, and all others stay in their order.
pub proof fn law_oldest_unpinned_makes_room(
    items: Seq<ItemModel>,
    item: ItemModel,
    capacity: nat,
    k: int,
)
    requires
        items.len() > 0 ==> items[0].hash != item.hash,
        items.len() + 1 > capacity,
        0 <= k <= items.len(),
        !(seq![item] + items)[k].is_pinned,
        forall|j: int| k < j <= items.len() ==> (#[trigger] (seq![item] + items)[j]).is_pinned,
    ensures
        pushed(items, item, capacity) == (seq![item] + items).remove(k),
{
    let all = seq![item] + items;
    lemma_last_unpinned(all);
    let m = last_unpinned(all);
    if m < k {
        assert(all[k].is_pinned);
    } else if m > k {
        assert(all[m].is_pinned);
    }
}

/// Where all items are pinned, the new one too, the oldest leaves.
pub proof fn law_all_pinned_oldest_leaves(
    items: Seq<ItemModel>,
    item: ItemModel,
    capacity: nat,
)
    requires
        items.len() > 0 ==> items[0].hash != item.hash,
        items.len() + 1 > capacity,
        item.is_pinned,
        forall|j: int| 0 <= j < items.len() ==> (#[trigger] items[j]).is_pinned,
    ensures
        pushed(items, item, capacity) == (seq![item] + items).drop_last(),
{
    let all = seq![item] + items;
    lemma_last_unpinned(all);
    let m = last_unpinned(all);
    if m > 0 {
        assert(all[m] == items[m - 1]);
    }
}

/// Setting a pin sets that of the first item with the id, and nothing else;
/// then the pinned items stand before the others, each group in the order it
/// had.
pub proof fn law_set_pinned_exact(items: Seq<ItemModel>, id: u64, pinned: bool, k: int)
    requires
        0 <= k < items.len(),
        items[k].id == id,
        forall|j: int| 0 <= j < k ==> (#[trigger] items[j]).id != id,
    ensures
        ({
            let changed = items.update(k, ItemModel { is_pinned: pinned, ..items[k] });
            with_pin(items, id, pinned) == changed.filter(|i: ItemModel| i.is_pinned)
                + changed.filter(|i: ItemModel| !i.is_pinned)
        }),
{
    lemma_position_of(items, id);
    if position_of(items, id) < k {
        assert(items[position_of(items, id)].id != id);
    }
}

/// Without an item that has the id, setting a pin changes nothing.
pub proof fn law_set_pinned_of_nothing(items: Seq<ItemModel>, id: u64, pinned: bool)
    requires
        forall|j: int| 0 <= j < items.len() ==> (#[trigger] items[j]).id != id,
    ensures
        with_pin(items, id, pinned) == items,
{
    lemma_position_of(items, id);
    if position_of(items, id) < items.len() {
        assert(items[position_of(items, id)].id != id);
    }
}

/// The first item with an id is the one that is found by it.
pub proof fn law_found_first(items: Seq<ItemModel>, id: u64, k: int)
    requires
        0 <= k <= items.len(),
        k < items.len() ==> items[k].id == id,
        forall|j: int| 0 <= j < k ==> (#[trigger] items[j]).id != id,
    ensures
        position_of(items, id) == k,
{
    lemma_position_of(items, id);
    let p = position_of(items, id);
    if p < k {
        assert(items[p].id != id);
    }
}

/// A removal goes through the items one by one, drops those with the id and
/// keeps the others in their order.
pub proof fn law_remove_one_more(items: Seq<ItemModel>, id: u64, x: ItemModel)
    ensures
        without(items.push(x), id) == (if x.id == id {
            without(items, id)
        } else {
            without(items, id).push(x)
        }),
        without(Seq::empty(), id) == Seq::<ItemModel>::empty(),
{
    reveal(Seq::filter);
    assert(items.push(x).drop_last() =~= items);
}

/// A removal of many goes through the items one by one, drops those with one
/// of the ids and keeps the others in their order.
pub proof fn law_remove_many_one_more(items: Seq<ItemModel>, ids: Seq<u64>, x: ItemModel)
    ensures
        without_all(items.push(x), ids) == (if ids.contains(x.id) {
            without_all(items, ids)
        } else {
            without_all(items, ids).push(x)
        }),
        without_all(Seq::empty(), ids) == Seq::<ItemModel>::empty(),
{
    reveal(Seq::filter);
    assert(items.push(x).drop_last() =~= items);
}

/// Clearing goes through the items one by one and keeps the pinned ones in
/// their order.
pub proof fn law_clear_one_more(items: Seq<ItemModel>, x: ItemModel)
    ensures
        only_pinned(items.push(x)) == (if x.is_pinned {
            only_pinned(items).push(x)
        } else {
            only_pinned(items)
        }),
        only_pinned(Seq::empty()) == Seq::<ItemModel>::empty(),
{
    reveal(Seq::filter);
    assert(items.push(x).drop_last() =~= items);
}

/// The texts of an item in which a query is looked for are its preview, its
/// plain text, its URL and its paths, and its HTML where that counts.
proof fn lemma_found_in_parts(x: ItemModel, with_html: bool, q: Seq<char>)
    ensures
        found_in_any(lowered(item_texts(x, with_html)), q) <==> {
            ||| text::occurs_in(q, text::lower_form(x.preview))
            ||| x.text matches Some(t) && text::occurs_in(q, text::lower_form(t))
            ||| with_html && x.html is Some && text::occurs_in(
                q,
                text::lower_form(x.html->Some_0),
            )
            ||| x.url matches Some(u) && text::occurs_in(q, text::lower_form(u))
            ||| x.file_paths matches Some(p) && exists|i: int|
                0 <= i < p.len() && text::occurs_in(q, text::lower_form(#[trigger] p[i]))
        },
{
    let texts = item_texts(x, with_html);
    let low = lowered(texts);
    let html = if with_html {
        x.html
    } else {
        None
    };
    let a: int = 1int + one_or_none(x.text).len();
    let b: int = a + one_or_none(html).len();
    let c: int = b + one_or_none(x.url).len();
    assert(low.len() == texts.len());
    assert(forall|k: int|
        0 <= k < texts.len() ==> #[trigger] low[k] == text::lower_form(texts[k]));
    assert(texts[0] == x.preview);
    assert(x.text is Some ==> texts[1] == x.text->Some_0);
    assert(html is Some ==> texts[a] == html->Some_0);
    assert(x.url is Some ==> texts[b] == x.url->Some_0);
    if found_in_any(low, q) {
        let k = choose|k: int| found_in(low, q, k);
        if k >= c {
            assert(texts[k] == x.file_paths->Some_0[k - c]);
        }
    }
    if text::occurs_in(q, text::lower_form(x.preview)) {
        assert(found_in(low, q, 0));
    }
    if x.text is Some && text::occurs_in(q, text::lower_form(x.text->Some_0)) {
        assert(found_in(low, q, 1));
    }
    if html is Some && text::occurs_in(q, text::lower_form(html->Some_0)) {
        assert(found_in(low, q, a));
    }
    if x.url is Some && text::occurs_in(q, text::lower_form(x.url->Some_0)) {
        assert(found_in(low, q, b));
    }
    if let Some(p) = x.file_paths {
        assert forall|i: int|
            0 <= i < p.len() && text::occurs_in(
                q,
                text::lower_form(#[trigger] p[i]),
            ) implies found_in_any(low, q) by {
            assert(texts[c + i] == p[i]);
            assert(found_in(low, q, c + i));
        }
    }
}

/// An item matches a query in lower case exactly where the query occurs in the
/// lower-case form of its preview, its plain text, its HTML, its URL or one of
/// its paths.
pub proof fn law_item_matches(x: ItemModel, q: Seq<char>)
    ensures
        item_matches(x, q) <==> {
            ||| text::occurs_in(q, text::lower_form(x.preview))
            ||| x.text matches Some(t) && text::occurs_in(q, text::lower_form(t))
            ||| x.html matches Some(h) && text::occurs_in(q, text::lower_form(h))
            ||| x.url matches Some(u) && text::occurs_in(q, text::lower_form(u))
            ||| x.file_paths matches Some(p) && exists|i: int|
                0 <= i < p.len() && text::occurs_in(q, text::lower_form(#[trigger] p[i]))
        },
{
    lemma_found_in_parts(x, true, q);
}

/// A search goes item by item: an item more is shown behind the others exactly
/// where the query, in lower case, occurs in the lower-case form of its
/// preview, its plain text, its URL or one of its paths, whatever else is
/// shown. An empty query shows every item.
pub proof fn law_search_item_by_item(items: Seq<ItemModel>, q: Seq<char>, x: ItemModel)
    ensures
        q.len() == 0 ==> matching(items, q) == items,
        q.len() > 0 ==> matching(items.push(x), q) == (if {
            ||| text::occurs_in(q, text::lower_form(x.preview))
            ||| x.text matches Some(t) && text::occurs_in(q, text::lower_form(t))
            ||| x.url matches Some(u) && text::occurs_in(q, text::lower_form(u))
            ||| x.file_paths matches Some(p) && exists|i: int|
                0 <= i < p.len() && text::occurs_in(q, text::lower_form(#[trigger] p[i]))
        } {
            matching(items, q).push(x)
        } else {
            matching(items, q)
        }),
        matching(Seq::empty(), q) == Seq::<ItemModel>::empty(),
{
    lemma_found_in_parts(x, false, q);
    reveal(Seq::filter);
    assert(items.push(x).drop_last() =~= items);
    assert(matching(Seq::empty(), q) =~= Seq::empty());
}

/// What a search field shows is what the trimmed query in lower case finds.
pub proof fn law_search_field(
    items: Seq<ItemModel>,
    front: Seq<char>,
    core: Seq<char>,
    back: Seq<char>,
)
    requires
        forall|i: int| 0 <= i < front.len() ==> text::white_space(#[trigger] front[i]),
        forall|i: int| 0 <= i < back.len() ==> text::white_space(#[trigger] back[i]),
        core.len() > 0 ==> !text::white_space(core.first()) && !text::white_space(core.last()),
    ensures
        shown(items, front + core + back) == matching(items, text::lower_form(core)),
{
    text::law_trim_exact(front, core, back);
}

/// A history has room for one item at least and holds no more than it has room
/// for.
pub proof fn law_room(h: History)
    requires
        h.wf(),
    ensures
        1 <= h.capacity(),
        h@.len() <= h.capacity(),
{
}

} // verus!
