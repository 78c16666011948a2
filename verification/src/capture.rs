//! Turning pasteboard changes into history items, and items back into
//! pasteboard content.
//!
//! The pasteboard itself is read and written elsewhere. Here is decided what
//! to ask of it, what a capture holds, and what goes back.
use vstd::prelude::*;

use crate::clipboard;
use crate::clipboard::{ClipboardItem, ContentType, ItemModel};
use crate::digest;
use crate::privacy;
use crate::privacy::{PrivacyMarkers, TypeProbe};
use crate::text;

verus! {

/// What was read from a pasteboard.
pub struct PasteboardReads {
    /// The plain text.
    pub text: Option<String>,
    /// The HTML source.
    pub html: Option<String>,
    /// The rich text bytes.
    pub rtf: Option<Vec<u8>>,
    /// The URL.
    pub url: Option<String>,
    /// The URL of the first file.
    pub file_url: Option<String>,
    /// The list of file names; an entry that is no text is `None`.
    pub filenames: Option<Vec<Option<String>>>,
    /// The image bytes, PNG before TIFF.
    pub image: Option<Vec<u8>>,
    /// The image scaled down, where that succeeded.
    pub thumbnail: Option<Vec<u8>>,
}

/// The mathematical content of [`PasteboardReads`].
#[verifier::ext_equal]
pub struct ReadsModel {
    pub text: Option<Seq<char>>,
    pub html: Option<Seq<char>>,
    pub rtf: Option<Seq<u8>>,
    pub url: Option<Seq<char>>,
    pub file_url: Option<Seq<char>>,
    pub filenames: Option<Seq<Option<Seq<char>>>>,
    pub image: Option<Seq<u8>>,
    pub thumbnail: Option<Seq<u8>>,
}

impl View for PasteboardReads {
    type V = ReadsModel;

    open spec fn view(&self) -> ReadsModel {
        ReadsModel {
            text: self.text.deep_view(),
            html: self.html.deep_view(),
            rtf: self.rtf.deep_view(),
            url: self.url.deep_view(),
            file_url: self.file_url.deep_view(),
            filenames: self.filenames.deep_view(),
            image: self.image.deep_view(),
            thumbnail: self.thumbnail.deep_view(),
        }
    }
}

// ── The parts of a capture ──────────────────────────────────────────────────

/// Whether `s` is a web address.
pub open spec fn web_address(s: Seq<char>) -> bool {
    text::stands_at(s, "http://"@, 0) || text::stands_at(s, "https://"@, 0)
}

/// The URL of a capture: the one given, unless it is empty, else the file URL
/// where that is a web address.
pub open spec fn captured_url(url: Option<Seq<char>>, file_url: Option<Seq<char>>) -> Option<
    Seq<char>,
> {
    match url {
        Some(u) if u.len() > 0 => Some(u),
        _ => match file_url {
            Some(f) if web_address(f) => Some(f),
            _ => None,
        },
    }
}

/// The texts among the entries.
pub open spec fn texts_of(entries: Seq<Option<Seq<char>>>) -> Seq<Seq<char>>
    decreases entries.len(),
{
    if entries.len() == 0 {
        Seq::empty()
    } else {
        match entries.last() {
            Some(s) => texts_of(entries.drop_last()).push(s),
            None => texts_of(entries.drop_last()),
        }
    }
}

/// A file URL without its scheme.
pub open spec fn path_of_file_url(s: Seq<char>) -> Seq<char> {
    if text::stands_at(s, "file://"@, 0) {
        s.skip("file://"@.len() as int)
    } else {
        s
    }
}

/// The file paths of a capture: the texts among the file names, unless there
/// are none, else the path of the file URL, unless that is empty.
pub open spec fn captured_paths(
    filenames: Option<Seq<Option<Seq<char>>>>,
    file_url: Option<Seq<char>>,
) -> Option<Seq<Seq<char>>> {
    match filenames {
        Some(f) if texts_of(f).len() > 0 => Some(texts_of(f)),
        _ => match file_url {
            Some(s) if s.len() > 0 => Some(seq![path_of_file_url(s)]),
            _ => None,
        },
    }
}

/// The image of a capture: the image scaled down. One that cannot be scaled
/// down is left out, for what is kept is never a full-size image.
pub open spec fn captured_image(image: Option<Seq<u8>>, thumbnail: Option<Seq<u8>>) -> Option<
    Seq<u8>,
> {
    if image is Some {
        thumbnail
    } else {
        None
    }
}

/// The kind of a capture: the first of text, rich text, HTML, image, files
/// and URL that it has something of; none where it has nothing.
pub open spec fn captured_kind(
    text: Option<Seq<char>>,
    rtf: Option<Seq<u8>>,
    html: Option<Seq<char>>,
    image: Option<Seq<u8>>,
    file_paths: Option<Seq<Seq<char>>>,
    url: Option<Seq<char>>,
) -> Option<ContentType> {
    if text matches Some(t) && text::trimmed(t).len() > 0 {
        Some(ContentType::Text)
    } else if rtf is Some {
        Some(ContentType::Rtf)
    } else if html matches Some(h) && h.len() > 0 {
        Some(ContentType::Html)
    } else if image is Some {
        Some(ContentType::Image)
    } else if file_paths matches Some(p) && p.len() > 0 {
        Some(ContentType::File)
    } else if url matches Some(u) && u.len() > 0 {
        Some(ContentType::Url)
    } else {
        None
    }
}

/// The item that the reads make, not stored yet: without an id, a pin or a
/// timestamp.
pub open spec fn captured_item(reads: ReadsModel) -> Option<ItemModel> {
    let url = captured_url(reads.url, reads.file_url);
    let file_paths = captured_paths(reads.filenames, reads.file_url);
    let image = captured_image(reads.image, reads.thumbnail);
    match captured_kind(reads.text, reads.rtf, reads.html, image, file_paths, url) {
        None => None,
        Some(kind) => Some(
            ItemModel {
                id: 0,
                content_type: kind,
                text: reads.text,
                rtf: reads.rtf,
                html: reads.html,
                image,
                file_paths,
                url,
                source_app: None,
                is_pinned: false,
                created_at: Seq::empty(),
                hash: digest::hex_text(
                    digest::sha256_of(
                        clipboard::hash_input(
                            kind,
                            reads.text,
                            reads.rtf,
                            reads.html,
                            image,
                            file_paths,
                            url,
                        ),
                    ),
                ),
                preview: clipboard::item_preview(kind, reads.text, reads.html, url, file_paths),
            },
        ),
    }
}

/// The URL of a capture.
pub fn extract_url(url: &Option<String>, file_url: &Option<String>) -> (r: Option<String>)
    ensures
        r.deep_view() == captured_url(url.deep_view(), file_url.deep_view()),
{
    if let Some(u) = url {
        if !u.as_str().is_empty() {
            return Some(u.clone());
        }
    }
    if let Some(f) = file_url {
        if text::starts_with(f.as_str(), "http://") || text::starts_with(f.as_str(), "https://") {
            return Some(f.clone());
        }
    }
    None
}

/// The texts among the entries of a list.
pub fn nsarray_of_strings(entries: &[Option<String>]) -> (r: Option<Vec<String>>)
    ensures
        r.deep_view() == (if texts_of(entries.deep_view()).len() > 0 {
            Some(texts_of(entries.deep_view()))
        } else {
            None
        }),
{
    let mut out: Vec<String> = Vec::new();
    let ghost all = entries.deep_view();
    let mut i: usize = 0;
    assert(out.deep_view() =~= texts_of(all.take(0)));
    while i < entries.len()
        invariant
            i <= entries@.len(),
            all == entries.deep_view(),
            out.deep_view() == texts_of(all.take(i as int)),
        decreases entries@.len() - i,
    {
        let ghost prior = out.deep_view();
        assert(all.take(i + 1).drop_last() =~= all.take(i as int));
        assert(all.take(i + 1).last() == entries@[i as int].deep_view());
        if let Some(s) = &entries[i] {
            out.push(s.clone());
            assert(out.deep_view() =~= prior.push(s@));
        }
        i += 1;
    }
    assert(all.take(i as int) =~= all);
    assert(out.deep_view().len() == out@.len());
    if out.len() == 0 {
        None
    } else {
        Some(out)
    }
}

/// The file paths of a capture.
pub fn extract_file_paths(
    filenames: &Option<Vec<Option<String>>>,
    file_url: &Option<String>,
) -> (r: Option<Vec<String>>)
    ensures
        r.deep_view() == captured_paths(filenames.deep_view(), file_url.deep_view()),
{
    if let Some(entries) = filenames {
        let paths: Option<Vec<String>> = nsarray_of_strings(entries.as_slice());
        if paths.is_some() {
            return paths;
        }
    }
    if let Some(s) = file_url {
        if !s.as_str().is_empty() {
            let path: String = if text::starts_with(s.as_str(), "file://") {
                proof {
                    reveal_strlit("file://");
                }
                text::skip_chars(s.as_str(), 7)
            } else {
                s.clone()
            };
            let mut one: Vec<String> = Vec::new();
            one.push(path);
            assert(one.deep_view() =~= seq![path_of_file_url(s@)]);
            return Some(one);
        }
    }
    None
}

/// The image of a capture.
pub fn extract_image_thumbnail(
    image: &Option<Vec<u8>>,
    thumbnail: &Option<Vec<u8>>,
) -> (r: Option<Vec<u8>>)
    ensures
        r.deep_view() == captured_image(image.deep_view(), thumbnail.deep_view()),
{
    if image.is_some() {
        clipboard::copy_bytes(thumbnail)
    } else {
        None
    }
}

/// The kind of a capture.
pub fn classify(
    text: &Option<String>,
    rtf: &Option<Vec<u8>>,
    html: &Option<String>,
    image: &Option<Vec<u8>>,
    file_paths: &Option<Vec<String>>,
    url: &Option<String>,
) -> (r: Option<ContentType>)
    ensures
        r == captured_kind(
            text.deep_view(),
            rtf.deep_view(),
            html.deep_view(),
            image.deep_view(),
            file_paths.deep_view(),
            url.deep_view(),
        ),
{
    if let Some(t) = text {
        if !text::trim(t.as_str()).as_str().is_empty() {
            return Some(ContentType::Text);
        }
    }
    if rtf.is_some() {
        return Some(ContentType::Rtf);
    }
    if let Some(h) = html {
        if !h.as_str().is_empty() {
            return Some(ContentType::Html);
        }
    }
    if image.is_some() {
        return Some(ContentType::Image);
    }
    if let Some(p) = file_paths {
        if p.len() > 0 {
            return Some(ContentType::File);
        }
    }
    if let Some(u) = url {
        if !u.as_str().is_empty() {
            return Some(ContentType::Url);
        }
    }
    None
}

/// Builds the item of a capture from all that could be read.
pub fn extract_clipboard_item(reads: PasteboardReads) -> (r: Option<ClipboardItem>)
    ensures
        r.deep_view() == captured_item(reads@),
{
    let url: Option<String> = extract_url(&reads.url, &reads.file_url);
    let file_paths: Option<Vec<String>> = extract_file_paths(&reads.filenames, &reads.file_url);
    let image: Option<Vec<u8>> = extract_image_thumbnail(&reads.image, &reads.thumbnail);
    let kind: ContentType = match classify(
        &reads.text,
        &reads.rtf,
        &reads.html,
        &image,
        &file_paths,
        &url,
    ) {
        Some(k) => k,
        None => return None,
    };
    let hash: String = ClipboardItem::compute_hash(
        kind,
        clipboard::text_ref(&reads.text),
        clipboard::bytes_ref(&reads.rtf),
        clipboard::text_ref(&reads.html),
        clipboard::bytes_ref(&image),
        clipboard::list_ref(&file_paths),
        clipboard::text_ref(&url),
    );
    let preview: String = ClipboardItem::make_preview(
        kind,
        clipboard::text_ref(&reads.text),
        clipboard::text_ref(&reads.html),
        clipboard::text_ref(&url),
        clipboard::list_ref(&file_paths),
        image.is_some(),
        reads.rtf.is_some(),
    );
    Some(
        ClipboardItem {
            id: 0,
            content_type: kind,
            content_text: reads.text,
            content_rtf: reads.rtf,
            content_html: reads.html,
            content_image: image,
            content_file_paths: file_paths,
            content_url: url,
            source_app_bundle_id: None,
            is_pinned: false,
            created_at: String::new(),
            hash,
            preview,
        },
    )
}

/// A capture is never empty: it has text, rich text, HTML, an image, a file
/// or a URL.
pub proof fn law_capture_not_empty(reads: ReadsModel)
    ensures
        captured_item(reads) matches Some(item) ==> {
            ||| item.text matches Some(t) && t.len() > 0
            ||| item.rtf is Some
            ||| item.html matches Some(h) && h.len() > 0
            ||| item.image is Some
            ||| item.file_paths matches Some(p) && p.len() > 0
            ||| item.url matches Some(u) && u.len() > 0
        },
{
}

/// What could be read is kept as it was, whichever kind the capture has.
pub proof fn law_capture_keeps_reads(reads: ReadsModel)
    ensures
        captured_item(reads) matches Some(item) ==> item.text == reads.text && item.rtf
            == reads.rtf && item.html == reads.html,
{
}

/// The image of a capture is a thumbnail, never the image that was read.
pub proof fn law_image_is_thumbnail(reads: ReadsModel)
    ensures
        captured_item(reads) matches Some(item) ==> (item.image is Some ==> reads.image is Some
            && item.image == reads.thumbnail),
{
}

// ── Polling ─────────────────────────────────────────────────────────────────

/// Result of a single clipboard poll tick.
#[derive(Debug)]
pub enum PollResult {
    /// Nothing to do.
    NoChange,
    /// A change with privacy markers; no content was read.
    SkippedPrivate(PrivacyMarkers),
    /// A change without a usable payload.
    EmptyOrUnsupported,
    /// A new item.
    Captured(ClipboardItem),
}

/// What a poll needs next.
#[derive(Debug)]
pub enum PollStep {
    /// The poll is over.
    Done(PollResult),
    /// The pasteboard's types are to be inspected for privacy markers.
    Inspect,
    /// The pasteboard's content is to be read.
    Read,
}

/// Tracks the pasteboard's change count.
pub struct ClipboardPoller {
    last_change_count: isize,
    ignore_next: bool,
}

/// The mathematical content of a [`ClipboardPoller`].
pub struct PollerModel {
    /// The change count seen last.
    pub seen: isize,
    /// Whether the next change is to be passed over.
    pub ignoring: bool,
}

impl View for ClipboardPoller {
    type V = PollerModel;

    closed spec fn view(&self) -> PollerModel {
        PollerModel { seen: self.last_change_count, ignoring: self.ignore_next }
    }
}

/// The poller after it saw a change count.
pub open spec fn after_poll(p: PollerModel, change_count: isize) -> PollerModel {
    PollerModel { seen: change_count, ignoring: p.ignoring && change_count == p.seen }
}

/// Whether a change count leads to an inspection of the pasteboard: it is a new
/// one and not to be passed over.
pub open spec fn leads_to_inspection(p: PollerModel, change_count: isize) -> bool {
    change_count != p.seen && !p.ignoring
}

/// The change that follows a copy-back is passed over, and no other: the next
/// one after it is looked at again.
pub proof fn law_one_change_passed_over(seen: isize, first: isize, second: isize)
    requires
        first != seen,
        second != first,
    ensures
        ({
            let waiting = PollerModel { seen, ignoring: true };
            &&& !leads_to_inspection(waiting, first)
            &&& leads_to_inspection(after_poll(waiting, first), second)
        }),
{
}

/// While nothing changes nothing is looked at, and a change still to come is
/// passed over as before.
pub proof fn law_no_change_no_inspection(p: PollerModel)
    ensures
        !leads_to_inspection(p, p.seen),
        after_poll(p, p.seen) == p,
{
}

/// What follows an inspection that found these markers: content is read only
/// where there are none.
pub open spec fn after_inspection(markers: PrivacyMarkers) -> PollStep {
    if markers.sensitive() {
        PollStep::Done(PollResult::SkippedPrivate(markers))
    } else {
        PollStep::Read
    }
}

/// Content that the pasteboard lists as concealed or transient is never read.
pub proof fn law_marked_content_not_read(probe: TypeProbe)
    requires
        probe.types.deep_view().contains(privacy::CONCEALED_TYPE@)
            || probe.types.deep_view().contains(privacy::TRANSIENT_TYPE@),
    ensures
        after_inspection(probe.markers()) == PollStep::Done(
            PollResult::SkippedPrivate(probe.markers()),
        ),
{
    privacy::law_listed_marker_found(probe);
}

impl ClipboardPoller {
    /// A poller to which what is on the pasteboard now is not new.
    pub fn new(change_count: isize) -> (r: Self)
        ensures
            r@ == (PollerModel { seen: change_count, ignoring: false }),
    {
        ClipboardPoller { last_change_count: change_count, ignore_next: false }
    }

    /// Passes over the next pasteboard change (used after a copy-back, which
    /// is no new history).
    pub fn ignore_next_change(&mut self)
        ensures
            final(self)@ == (PollerModel { ignoring: true, ..old(self)@ }),
    {
        self.ignore_next = true;
    }

    /// Polls once: where the change count is a new one that is not to be
    /// passed over, the types are inspected.
    pub fn poll(&mut self, change_count: isize) -> (r: PollStep)
        ensures
            final(self)@ == after_poll(old(self)@, change_count),
            r == (if leads_to_inspection(old(self)@, change_count) {
                PollStep::Inspect
            } else {
                PollStep::Done(PollResult::NoChange)
            }),
    {
        if change_count == self.last_change_count {
            return PollStep::Done(PollResult::NoChange);
        }
        self.last_change_count = change_count;
        if self.ignore_next {
            self.ignore_next = false;
            return PollStep::Done(PollResult::NoChange);
        }
        PollStep::Inspect
    }

    /// Goes on with the markers found: content is asked for only where there
    /// are none.
    pub fn inspected(markers: PrivacyMarkers) -> (r: PollStep)
        ensures
            r == after_inspection(markers),
    {
        if markers.is_sensitive() {
            PollStep::Done(PollResult::SkippedPrivate(markers))
        } else {
            PollStep::Read
        }
    }

    /// Ends the poll with the content read.
    pub fn read(reads: PasteboardReads) -> (r: PollResult)
        ensures
            match captured_item(reads@) {
                Some(item) => r matches PollResult::Captured(i) && i@ == item,
                None => r == PollResult::EmptyOrUnsupported,
            },
    {
        match extract_clipboard_item(reads) {
            Some(item) => PollResult::Captured(item),
            None => PollResult::EmptyOrUnsupported,
        }
    }
}

// ── Copy-back ───────────────────────────────────────────────────────────────

/// A pasteboard representation.
#[derive(Debug, Clone, Copy, PartialEq, Eq, Structural)]
pub enum PasteboardType {
    PlainText,
    Html,
    Rtf,
    Png,
    Tiff,
    Url,
}

/// What is written under a representation.
#[derive(Debug)]
pub enum Payload {
    Text(String),
    Data(Vec<u8>),
}

/// One write to the pasteboard.
#[derive(Debug)]
pub struct PasteboardWrite {
    /// The representation.
    pub kind: PasteboardType,
    /// The representation to try where the first is refused.
    pub fallback: Option<PasteboardType>,
    /// The content.
    pub payload: Payload,
    /// Whether the write counts as done even where the pasteboard refuses it.
    pub always_counts: bool,
}

/// The mathematical content of a [`Payload`].
pub enum PayloadModel {
    Text(Seq<char>),
    Data(Seq<u8>),
}

/// The mathematical content of a [`PasteboardWrite`].
pub struct WriteModel {
    pub kind: PasteboardType,
    pub fallback: Option<PasteboardType>,
    pub payload: PayloadModel,
    pub always_counts: bool,
}

impl DeepView for PasteboardWrite {
    type V = WriteModel;

    open spec fn deep_view(&self) -> WriteModel {
        WriteModel {
            kind: self.kind,
            fallback: self.fallback,
            payload: match self.payload {
                Payload::Text(s) => PayloadModel::Text(s@),
                Payload::Data(b) => PayloadModel::Data(b@),
            },
            always_counts: self.always_counts,
        }
    }
}

/// A write of a text where there is one.
pub open spec fn text_write(kind: PasteboardType, t: Option<Seq<char>>) -> Seq<WriteModel> {
    match t {
        Some(s) => seq![
            WriteModel {
                kind,
                fallback: None,
                payload: PayloadModel::Text(s),
                always_counts: false,
            },
        ],
        None => Seq::empty(),
    }
}

/// A write of bytes where there are any.
pub open spec fn data_write(
    kind: PasteboardType,
    fallback: Option<PasteboardType>,
    b: Option<Seq<u8>>,
) -> Seq<WriteModel> {
    match b {
        Some(d) => seq![
            WriteModel { kind, fallback, payload: PayloadModel::Data(d), always_counts: false },
        ],
        None => Seq::empty(),
    }
}

/// The URL as plain text, for applications that read only that; it stands in
/// for a missing text.
pub open spec fn url_as_text(item: ItemModel) -> Seq<WriteModel> {
    match (item.url, item.text) {
        (Some(u), None) => seq![
            WriteModel {
                kind: PasteboardType::PlainText,
                fallback: None,
                payload: PayloadModel::Text(u),
                always_counts: true,
            },
        ],
        _ => Seq::empty(),
    }
}

/// The file paths as plain text, one to a line; they stand in for a missing
/// text.
pub open spec fn paths_as_text(item: ItemModel) -> Seq<WriteModel> {
    match (item.file_paths, item.text) {
        (Some(p), None) if p.len() > 0 => text_write(
            PasteboardType::PlainText,
            Some(text::joined(p, "\n"@)),
        ),
        _ => Seq::empty(),
    }
}

/// The writes that put an item back on the pasteboard, in order.
pub open spec fn copy_writes(item: ItemModel) -> Seq<WriteModel> {
    text_write(PasteboardType::PlainText, item.text) + text_write(PasteboardType::Html, item.html)
        + data_write(PasteboardType::Rtf, None, item.rtf) + data_write(
        PasteboardType::Png,
        Some(PasteboardType::Tiff),
        item.image,
    ) + text_write(PasteboardType::Url, item.url) + url_as_text(item) + paths_as_text(item)
}

fn push_text_write(out: &mut Vec<PasteboardWrite>, kind: PasteboardType, t: &Option<String>)
    ensures
        final(out).deep_view() == old(out).deep_view() + text_write(kind, t.deep_view()),
{
    let ghost start = out.deep_view();
    if let Some(s) = t {
        out.push(
            PasteboardWrite {
                kind,
                fallback: None,
                payload: Payload::Text(s.clone()),
                always_counts: false,
            },
        );
    }
    assert(out.deep_view() =~= start + text_write(kind, t.deep_view()));
}

fn push_data_write(
    out: &mut Vec<PasteboardWrite>,
    kind: PasteboardType,
    fallback: Option<PasteboardType>,
    b: &Option<Vec<u8>>,
)
    ensures
        final(out).deep_view() == old(out).deep_view() + data_write(
            kind,
            fallback,
            b.deep_view(),
        ),
{
    let ghost start = out.deep_view();
    if let Some(d) = b {
        let bytes: Vec<u8> = d.clone();
        assert(bytes@ =~= d.deep_view());
        out.push(
            PasteboardWrite { kind, fallback, payload: Payload::Data(bytes), always_counts: false },
        );
    }
    assert(out.deep_view() =~= start + data_write(kind, fallback, b.deep_view()));
}

/// The writes that put an item back on the pasteboard, in order.
pub fn copy_item_to_pasteboard(item: &ClipboardItem) -> (r: Vec<PasteboardWrite>)
    ensures
        r.deep_view() == copy_writes(item@),
{
    let mut r: Vec<PasteboardWrite> = Vec::new();
    assert(r.deep_view() =~= Seq::empty());
    push_text_write(&mut r, PasteboardType::PlainText, &item.content_text);
    push_text_write(&mut r, PasteboardType::Html, &item.content_html);
    push_data_write(&mut r, PasteboardType::Rtf, None, &item.content_rtf);
    push_data_write(
        &mut r,
        PasteboardType::Png,
        Some(PasteboardType::Tiff),
        &item.content_image,
    );
    push_text_write(&mut r, PasteboardType::Url, &item.content_url);
    let ghost start = r.deep_view();
    if item.content_text.is_none() {
        if let Some(u) = &item.content_url {
            r.push(
                PasteboardWrite {
                    kind: PasteboardType::PlainText,
                    fallback: None,
                    payload: Payload::Text(u.clone()),
                    always_counts: true,
                },
            );
        }
    }
    assert(r.deep_view() =~= start + url_as_text(item@));
    let ghost start = r.deep_view();
    if item.content_text.is_none() {
        if let Some(p) = &item.content_file_paths {
            if p.len() > 0 {
                let all: Option<String> = Some(text::join(p.as_slice(), "\n"));
                push_text_write(&mut r, PasteboardType::PlainText, &all);
            }
        }
    }
    assert(r.deep_view() =~= start + paths_as_text(item@));
    assert(r.deep_view() =~= copy_writes(item@));
    r
}

/// Whether write number `i` of a copy-back counts as done, given which of the
/// writes were accepted.
pub open spec fn counts_as_written(writes: Seq<WriteModel>, accepted: Seq<bool>, i: int) -> bool {
    0 <= i < writes.len() && (writes[i].always_counts || (i < accepted.len() && accepted[i]))
}

/// Whether a copy-back put anything on the pasteboard.
pub open spec fn anything_written(writes: Seq<WriteModel>, accepted: Seq<bool>) -> bool {
    exists|i: int| counts_as_written(writes, accepted, i)
}

/// Tells whether a copy-back put anything on the pasteboard.
pub fn wrote_anything(writes: &[PasteboardWrite], accepted: &[bool]) -> (r: bool)
    ensures
        r == anything_written(writes.deep_view(), accepted@),
{
    let ghost all = writes.deep_view();
    let mut i: usize = 0;
    while i < writes.len()
        invariant
            i <= writes@.len(),
            all == writes.deep_view(),
            forall|j: int| 0 <= j < i ==> !counts_as_written(all, accepted@, j),
        decreases writes@.len() - i,
    {
        assert(all[i as int] == writes@[i as int].deep_view());
        if writes[i].always_counts || (i < accepted.len() && accepted[i]) {
            assert(counts_as_written(all, accepted@, i as int));
            return true;
        }
        i += 1;
    }
    false
}

/// A captured text goes back to the pasteboard as the plain text it was.
pub proof fn law_copy_back_gives_text(reads: ReadsModel)
    requires
        reads.text is Some,
    ensures
        captured_item(reads) matches Some(item) ==> copy_writes(item).len() > 0 && copy_writes(
            item,
        )[0] == (WriteModel {
            kind: PasteboardType::PlainText,
            fallback: None,
            payload: PayloadModel::Text(reads.text->Some_0),
            always_counts: false,
        }),
{
}

/// Every capture has something to put back.
pub proof fn law_copy_back_not_empty(reads: ReadsModel)
    ensures
        captured_item(reads) matches Some(item) ==> copy_writes(item).len() > 0,
{
}

// ── What a copy-back holds, write by write ──────────────────────────────────

/// Every write of a copy-back holds the part of the item that its
/// representation is for: the rich text as rich text, the image as an image,
/// and so on. Plain text is the item's text, or its URL or paths where it has
/// none.
pub proof fn law_copy_back_writes(item: ItemModel, i: int)
    requires
        0 <= i < copy_writes(item).len(),
    ensures
        ({
            let w = copy_writes(item)[i];
            match w.kind {
                PasteboardType::Rtf => item.rtf matches Some(b) && w.payload == PayloadModel::Data(
                    b,
                ) && w.fallback is None && !w.always_counts,
                PasteboardType::Png => item.image matches Some(b) && w.payload
                    == PayloadModel::Data(b) && w.fallback == Some(PasteboardType::Tiff)
                    && !w.always_counts,
                PasteboardType::Html => item.html matches Some(h) && w.payload
                    == PayloadModel::Text(h) && w.fallback is None && !w.always_counts,
                PasteboardType::Url => item.url matches Some(u) && w.payload
                    == PayloadModel::Text(u) && w.fallback is None && !w.always_counts,
                PasteboardType::PlainText => w.fallback is None && match item.text {
                    Some(t) => w.payload == PayloadModel::Text(t) && !w.always_counts,
                    None => {
                        ||| item.url matches Some(u) && w.payload == PayloadModel::Text(u)
                            && w.always_counts
                        ||| item.file_paths matches Some(p) && p.len() > 0 && w.payload
                            == PayloadModel::Text(text::joined(p, "\n"@)) && !w.always_counts
                    },
                },
                PasteboardType::Tiff => false,
            }
        }),
{
    let a = text_write(PasteboardType::PlainText, item.text);
    let b = text_write(PasteboardType::Html, item.html);
    let c = data_write(PasteboardType::Rtf, None, item.rtf);
    let d = data_write(PasteboardType::Png, Some(PasteboardType::Tiff), item.image);
    let e = text_write(PasteboardType::Url, item.url);
    let f = url_as_text(item);
    let g = paths_as_text(item);
    let w = copy_writes(item)[i];
    let n1: int = a.len() as int;
    let n2: int = n1 + b.len();
    let n3: int = n2 + c.len();
    let n4: int = n3 + d.len();
    let n5: int = n4 + e.len();
    let n6: int = n5 + f.len();
    if i < n1 {
        assert(w == a[i]);
    } else if i < n2 {
        assert(w == b[i - n1]);
    } else if i < n3 {
        assert(w == c[i - n2]);
    } else if i < n4 {
        assert(w == d[i - n3]);
    } else if i < n5 {
        assert(w == e[i - n4]);
    } else if i < n6 {
        assert(w == f[i - n5]);
    } else {
        assert(w == g[i - n6]);
    }
}

/// Every part that an item has is written under its representation, and
/// nothing is written twice: text, HTML, rich text, image and URL once each,
/// and URL and paths as plain text where there is no text.
pub proof fn law_copy_back_complete(item: ItemModel)
    ensures
        ({
            let w = copy_writes(item);
            &&& item.text matches Some(t) ==> exists|i: int|
                0 <= i < w.len() && (#[trigger] w[i]).kind == PasteboardType::PlainText
                    && w[i].payload == PayloadModel::Text(t)
            &&& item.html matches Some(h) ==> exists|i: int|
                0 <= i < w.len() && (#[trigger] w[i]).kind == PasteboardType::Html && w[i].payload
                    == PayloadModel::Text(h)
            &&& item.rtf matches Some(b) ==> exists|i: int|
                0 <= i < w.len() && (#[trigger] w[i]).kind == PasteboardType::Rtf && w[i].payload
                    == PayloadModel::Data(b)
            &&& item.image matches Some(b) ==> exists|i: int|
                0 <= i < w.len() && (#[trigger] w[i]).kind == PasteboardType::Png && w[i].payload
                    == PayloadModel::Data(b)
            &&& item.url matches Some(u) ==> exists|i: int|
                0 <= i < w.len() && (#[trigger] w[i]).kind == PasteboardType::Url && w[i].payload
                    == PayloadModel::Text(u)
            &&& item.text is None && item.url is Some ==> exists|i: int|
                0 <= i < w.len() && (#[trigger] w[i]).kind == PasteboardType::PlainText
                    && w[i].payload == PayloadModel::Text(item.url->Some_0) && w[i].always_counts
            &&& item.text is None && item.file_paths is Some && item.file_paths->Some_0.len() > 0
                ==> exists|i: int|
                0 <= i < w.len() && (#[trigger] w[i]).kind == PasteboardType::PlainText
                    && w[i].payload == PayloadModel::Text(
                    text::joined(item.file_paths->Some_0, "\n"@),
                )
        }),
        ({
            let counts = |there: bool| if there {
                1int
            } else {
                0
            };
            copy_writes(item).len() == counts(item.text is Some) + counts(item.html is Some)
                + counts(item.rtf is Some) + counts(item.image is Some) + counts(item.url is Some)
                + counts(item.text is None && item.url is Some) + counts(
                item.text is None && item.file_paths is Some && item.file_paths->Some_0.len() > 0,
            )
        }),
{
    let w = copy_writes(item);
    let a = text_write(PasteboardType::PlainText, item.text);
    let b = text_write(PasteboardType::Html, item.html);
    let c = data_write(PasteboardType::Rtf, None, item.rtf);
    let d = data_write(PasteboardType::Png, Some(PasteboardType::Tiff), item.image);
    let e = text_write(PasteboardType::Url, item.url);
    let f = url_as_text(item);
    let n1: int = a.len() as int;
    let n2: int = n1 + b.len();
    let n3: int = n2 + c.len();
    let n4: int = n3 + d.len();
    let n5: int = n4 + e.len();
    let n6: int = n5 + f.len();
    if item.text is Some {
        assert(w[0] == a[0]);
    }
    if item.html is Some {
        assert(w[n1] == b[0]);
    }
    if item.rtf is Some {
        assert(w[n2] == c[0]);
    }
    if item.image is Some {
        assert(w[n3] == d[0]);
    }
    if item.url is Some {
        assert(w[n4] == e[0]);
    }
    if item.text is None && item.url is Some {
        assert(w[n5] == f[0]);
    }
    if item.text is None && item.file_paths is Some && item.file_paths->Some_0.len() > 0 {
        assert(w[n6] == paths_as_text(item)[0]);
    }
}

/// A copy-back put something on the pasteboard exactly where a write was
/// accepted or counts in any case.
pub proof fn law_written(writes: Seq<WriteModel>, accepted: Seq<bool>)
    requires
        accepted.len() == writes.len(),
    ensures
        anything_written(writes, accepted) <==> exists|i: int|
            0 <= i < writes.len() && ((#[trigger] writes[i]).always_counts || accepted[i]),
{
    if exists|i: int|
        0 <= i < writes.len() && ((#[trigger] writes[i]).always_counts || accepted[i]) {
        let i = choose|i: int|
            0 <= i < writes.len() && ((#[trigger] writes[i]).always_counts || accepted[i]);
        assert(counts_as_written(writes, accepted, i));
    }
    if anything_written(writes, accepted) {
        let i = choose|i: int| counts_as_written(writes, accepted, i);
        assert(writes[i].always_counts || accepted[i]);
    }
}

// ── What a capture is, said of its own parts ────────────────────────────────

/// The kind of a capture goes by rank: text that shows anything, rich text,
/// HTML that is not empty, an image, files, a URL.
pub proof fn law_capture_kind(reads: ReadsModel)
    ensures
        captured_item(reads) matches Some(item) ==> {
            let text = item.text is Some && text::trimmed(item.text->Some_0).len() > 0;
            let html = item.html is Some && item.html->Some_0.len() > 0;
            let files = item.file_paths is Some && item.file_paths->Some_0.len() > 0;
            &&& item.content_type == ContentType::Text <==> text
            &&& item.content_type == ContentType::Rtf <==> !text && item.rtf is Some
            &&& item.content_type == ContentType::Html <==> !text && item.rtf is None && html
            &&& item.content_type == ContentType::Image <==> !text && item.rtf is None && !html
                && item.image is Some
            &&& item.content_type == ContentType::File <==> !text && item.rtf is None && !html
                && item.image is None && files
            &&& item.content_type == ContentType::Url ==> !text && item.rtf is None && !html
                && item.image is None && !files && item.url is Some
        },
{
}

/// Something is captured exactly where there is text that shows anything, rich
/// text, HTML that is not empty, an image of which a thumbnail could be made, a
/// file name, or an address that is not empty.
pub proof fn law_capture_owed(reads: ReadsModel)
    ensures
        captured_item(reads) is Some <==> {
            ||| reads.text is Some && text::trimmed(reads.text->Some_0).len() > 0
            ||| reads.rtf is Some
            ||| reads.html is Some && reads.html->Some_0.len() > 0
            ||| reads.image is Some && reads.thumbnail is Some
            ||| reads.filenames is Some && texts_of(reads.filenames->Some_0).len() > 0
            ||| reads.file_url is Some && reads.file_url->Some_0.len() > 0
            ||| reads.url is Some && reads.url->Some_0.len() > 0
        },
{
    if reads.file_url is Some && reads.file_url->Some_0.len() == 0 {
        reveal_strlit("http://");
        reveal_strlit("https://");
    }
}

/// What is new of a capture: its fingerprint and preview come from its own
/// parts, it has no id, pin, timestamp or source yet.
pub proof fn law_capture_fresh(reads: ReadsModel)
    ensures
        captured_item(reads) matches Some(item) ==> {
            &&& item.id == 0 && !item.is_pinned && item.created_at.len() == 0 && item.source_app
                is None
            &&& item.hash == digest::hex_text(
                digest::sha256_of(
                    clipboard::hash_input(
                        item.content_type,
                        item.text,
                        item.rtf,
                        item.html,
                        item.image,
                        item.file_paths,
                        item.url,
                    ),
                ),
            )
            &&& item.preview == clipboard::item_preview(
                item.content_type,
                item.text,
                item.html,
                item.url,
                item.file_paths,
            )
        },
{
}

/// The URL of a capture is the one on the pasteboard, or else a file URL that
/// is a web address.
pub proof fn law_capture_url(reads: ReadsModel, rest: Seq<char>)
    ensures
        captured_item(reads) matches Some(item) ==> {
            &&& reads.url is Some && reads.url->Some_0.len() > 0 ==> item.url == reads.url
            &&& (reads.url is None || reads.url->Some_0.len() == 0) && (reads.file_url == Some(
                "http://"@ + rest,
            ) || reads.file_url == Some("https://"@ + rest)) ==> item.url == reads.file_url
            &&& item.url is Some ==> item.url->Some_0.len() > 0 && (item.url == reads.url
                || item.url == reads.file_url)
            &&& (reads.url is None || reads.url->Some_0.len() == 0) && reads.file_url is None
                ==> item.url is None
        },
        reads.file_url == Some("file://"@ + rest) && reads.url is None ==> (captured_item(
            reads,
        ) matches Some(item) ==> item.url is None),
{
    reveal_strlit("http://");
    reveal_strlit("https://");
    reveal_strlit("file://");
    text::law_begins_with(Seq::empty(), "http://"@, rest);
    text::law_begins_with(Seq::empty(), "https://"@, rest);
    let f = "file://"@ + rest;
    assert(f[0] == 'f');
    if web_address(f) {
        text::law_begins_with(f, "http://"@, rest);
        text::law_begins_with(f, "https://"@, rest);
        assert("http://"@[0] == 'h' && "https://"@[0] == 'h');
        assert(f.subrange(0, 7)[0] == 'f' && f.subrange(0, 8)[0] == 'f');
    }
}

/// The file paths of a capture are the file names on the pasteboard, in their
/// order, or else the one path that a file URL names.
pub proof fn law_capture_paths(reads: ReadsModel, rest: Seq<char>)
    ensures
        captured_item(reads) matches Some(item) ==> {
            &&& reads.filenames is Some && texts_of(reads.filenames->Some_0).len() > 0
                ==> item.file_paths == Some(texts_of(reads.filenames->Some_0))
            &&& reads.filenames is None && reads.file_url == Some("file://"@ + rest)
                ==> item.file_paths == Some(seq![rest])
            &&& reads.filenames is None && reads.file_url is Some
                && reads.file_url->Some_0.len() > 0 && !text::stands_at(
                reads.file_url->Some_0,
                "file://"@,
                0,
            ) ==> item.file_paths == Some(seq![reads.file_url->Some_0])
            &&& reads.filenames is None && reads.file_url is None ==> item.file_paths is None
        },
{
    reveal_strlit("file://");
    text::law_begins_with(Seq::empty(), "file://"@, rest);
    assert(("file://"@ + rest).skip(7) =~= rest);
}

/// The file names are gone through one by one: a text is kept, in its place,
/// and anything else is passed over.
pub proof fn law_texts_one_more(entries: Seq<Option<Seq<char>>>, name: Seq<char>)
    ensures
        texts_of(entries.push(Some(name))) == texts_of(entries).push(name),
        texts_of(entries.push(None)) == texts_of(entries),
        texts_of(Seq::empty()) == Seq::<Seq<char>>::empty(),
{
    assert(entries.push(Some(name)).drop_last() =~= entries);
    assert(entries.push(None).drop_last() =~= entries);
}

/// The image of a capture is the thumbnail of the image that was read.
pub proof fn law_capture_image(reads: ReadsModel)
    ensures
        captured_item(reads) matches Some(item) ==> {
            &&& reads.image is Some ==> item.image == reads.thumbnail
            &&& reads.image is None ==> item.image is None
        },
{
}

/// A poll remembers the change count that it saw, and after it no change is
/// passed over any more, unless there was none.
pub proof fn law_poll_remembers(p: PollerModel, count: isize)
    ensures
        after_poll(p, count).seen == count,
        count != p.seen ==> !after_poll(p, count).ignoring,
        count == p.seen ==> after_poll(p, count).ignoring == p.ignoring,
        count != p.seen && !p.ignoring ==> leads_to_inspection(p, count),
{
}

/// What was read of the pasteboard is taken as it was read.
pub proof fn law_reads_view(reads: PasteboardReads)
    ensures
        reads@.text == reads.text.deep_view(),
        reads@.html == reads.html.deep_view(),
        reads@.rtf == reads.rtf.deep_view(),
        reads@.url == reads.url.deep_view(),
        reads@.file_url == reads.file_url.deep_view(),
        reads@.filenames == reads.filenames.deep_view(),
        reads@.image == reads.image.deep_view(),
        reads@.thumbnail == reads.thumbnail.deep_view(),
{
}

/// A write puts out its payload as it is, under its kind.
pub proof fn law_write_view(w: PasteboardWrite)
    ensures
        w.deep_view().kind == w.kind,
        w.deep_view().fallback == w.fallback,
        w.deep_view().always_counts == w.always_counts,
        w.payload matches Payload::Text(s) ==> w.deep_view().payload == PayloadModel::Text(s@),
        w.payload matches Payload::Data(b) ==> w.deep_view().payload == PayloadModel::Data(b@),
{
}

/// A name for a file stands before the address: where no name could be read
/// the address counts, without the `file://` in front of it, and where there is
/// none there are no paths. An address is a URL only where it is one of the
/// web.
pub proof fn law_capture_address(reads: ReadsModel, address: Seq<char>, rest: Seq<char>)
    requires
        reads.filenames is None || texts_of(reads.filenames->Some_0).len() == 0,
    ensures
        captured_item(reads) matches Some(item) ==> {
            &&& reads.file_url == Some("file://"@ + rest) ==> item.file_paths == Some(seq![rest])
            &&& reads.file_url == Some(address) && address.len() > 0 && !text::stands_at(
                address,
                "file://"@,
                0,
            ) ==> item.file_paths == Some(seq![address])
            &&& reads.file_url is None || reads.file_url->Some_0.len() == 0 ==> item.file_paths
                is None
            &&& (reads.url is None || reads.url->Some_0.len() == 0) && reads.file_url == Some(
                address,
            ) && !text::stands_at(address, "http://"@, 0) && !text::stands_at(
                address,
                "https://"@,
                0,
            ) ==> item.url is None
        },
{
    reveal_strlit("file://");
    text::law_begins_with("file://"@ + rest, "file://"@, rest);
    assert(("file://"@ + rest).skip(7) =~= rest);
}

/// What is found decides: content with a marker is passed over, whichever
/// marker it is, and content without one is read.
pub proof fn law_inspection(markers: PrivacyMarkers)
    ensures
        markers.concealed || markers.transient ==> after_inspection(markers) == PollStep::Done(
            PollResult::SkippedPrivate(markers),
        ),
        !markers.concealed && !markers.transient ==> after_inspection(markers) == PollStep::Read,
{
}

/// The writes of an item without plain text end with the one that stands for
/// the text: its paths where it has any, and else its URL. An item with plain
/// text begins with it.
pub proof fn law_copy_back_order(item: ItemModel)
    ensures
        ({
            let w = copy_writes(item);
            &&& item.text is Some ==> w.len() > 0 && w[0].kind == PasteboardType::PlainText
            &&& item.text is None && item.file_paths is Some && item.file_paths->Some_0.len() > 0
                ==> w.len() > 0 && w.last().payload == PayloadModel::Text(
                text::joined(item.file_paths->Some_0, "\n"@),
            )
            &&& item.text is None && item.url is Some && (item.file_paths is None
                || item.file_paths->Some_0.len() == 0) ==> w.len() > 0 && w.last().kind
                == PasteboardType::PlainText && w.last().payload == PayloadModel::Text(
                item.url->Some_0,
            )
        }),
{
    let w = copy_writes(item);
    if item.text is Some {
        assert(w[0] == text_write(PasteboardType::PlainText, item.text)[0]);
    } else if paths_as_text(item).len() > 0 {
        assert(w.last() == paths_as_text(item)[0]);
    } else if item.url is Some {
        assert(w.last() == url_as_text(item)[0]);
    }
}

} // verus!
