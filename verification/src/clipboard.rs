//! Clipboard entries: what they hold, how they are previewed and identified.
use vstd::prelude::*;
use vstd::utf8::encode_utf8;

use crate::digest;
use crate::numbers;
use crate::text;

verus! {

/// Default number of items kept in the in-memory history.
pub const DEFAULT_HISTORY_LIMIT: usize = 100;

/// Kind of clipboard payload.
#[derive(Debug, Clone, Copy, PartialEq, Eq, Structural)]
pub enum ContentType {
    Text,
    Rtf,
    Html,
    Image,
    File,
    Url,
}

impl ContentType {
    /// The short label in list rows.
    pub open spec fn label_text(self) -> Seq<char> {
        match self {
            ContentType::Text => "TXT"@,
            ContentType::Rtf => "RTF"@,
            ContentType::Html => "HTML"@,
            ContentType::Image => "IMG"@,
            ContentType::File => "FILE"@,
            ContentType::Url => "URL"@,
        }
    }

    /// The name of the system symbol in list rows.
    pub open spec fn symbol_text(self) -> Seq<char> {
        match self {
            ContentType::Text => "text.alignleft"@,
            ContentType::Rtf => "doc.richtext"@,
            ContentType::Html => "chevron.left.forwardslash.chevron.right"@,
            ContentType::Image => "photo"@,
            ContentType::File => "doc"@,
            ContentType::Url => "link"@,
        }
    }

    /// The stored name.
    pub open spec fn tag(self) -> Seq<char> {
        match self {
            ContentType::Text => "text"@,
            ContentType::Rtf => "rtf"@,
            ContentType::Html => "html"@,
            ContentType::Image => "image"@,
            ContentType::File => "file"@,
            ContentType::Url => "url"@,
        }
    }

    /// The kind with the stored name `s`; text where no kind has it.
    pub open spec fn with_tag(s: Seq<char>) -> ContentType {
        if s == "rtf"@ {
            ContentType::Rtf
        } else if s == "html"@ {
            ContentType::Html
        } else if s == "image"@ {
            ContentType::Image
        } else if s == "file"@ {
            ContentType::File
        } else if s == "url"@ {
            ContentType::Url
        } else {
            ContentType::Text
        }
    }

    /// Short label used in the list (type indicator).
    pub fn label(self) -> (r: &'static str)
        ensures
            r@ == self.label_text(),
    {
        match self {
            ContentType::Text => "TXT",
            ContentType::Rtf => "RTF",
            ContentType::Html => "HTML",
            ContentType::Image => "IMG",
            ContentType::File => "FILE",
            ContentType::Url => "URL",
        }
    }

    /// System symbol name for list rows.
    pub fn sf_symbol(self) -> (r: &'static str)
        ensures
            r@ == self.symbol_text(),
    {
        match self {
            ContentType::Text => "text.alignleft",
            ContentType::Rtf => "doc.richtext",
            ContentType::Html => "chevron.left.forwardslash.chevron.right",
            ContentType::Image => "photo",
            ContentType::File => "doc",
            ContentType::Url => "link",
        }
    }

    /// Stable name stored in the `content_type` column.
    pub fn as_str(self) -> (r: &'static str)
        ensures
            r@ == self.tag(),
    {
        match self {
            ContentType::Text => "text",
            ContentType::Rtf => "rtf",
            ContentType::Html => "html",
            ContentType::Image => "image",
            ContentType::File => "file",
            ContentType::Url => "url",
        }
    }

    /// Reads a stored name (falls back to text).
    pub fn from_str_lossy(s: &str) -> (r: Self)
        ensures
            r == Self::with_tag(s@),
    {
        if text::same_text(s, "rtf") {
            ContentType::Rtf
        } else if text::same_text(s, "html") {
            ContentType::Html
        } else if text::same_text(s, "image") {
            ContentType::Image
        } else if text::same_text(s, "file") {
            ContentType::File
        } else if text::same_text(s, "url") {
            ContentType::Url
        } else {
            ContentType::Text
        }
    }
}

/// A kind reads back from its stored name.
pub proof fn law_tag_round_trip(t: ContentType)
    ensures
        ContentType::with_tag(t.tag()) == t,
{
    reveal_strlit("text");
    reveal_strlit("rtf");
    reveal_strlit("html");
    reveal_strlit("image");
    reveal_strlit("file");
    reveal_strlit("url");
    assert("text"@[0] == 't' && "rtf"@[0] == 'r' && "html"@[0] == 'h');
    assert("image"@[0] == 'i' && "file"@[0] == 'f' && "url"@[0] == 'u');
}

// ── Items ───────────────────────────────────────────────────────────────────

/// One captured clipboard entry.
#[derive(Debug)]
pub struct ClipboardItem {
    pub id: u64,
    pub content_type: ContentType,
    pub content_text: Option<String>,
    pub content_rtf: Option<Vec<u8>>,
    pub content_html: Option<String>,
    /// Thumbnail bytes, never a full-size image.
    pub content_image: Option<Vec<u8>>,
    pub content_file_paths: Option<Vec<String>>,
    pub content_url: Option<String>,
    pub source_app_bundle_id: Option<String>,
    pub is_pinned: bool,
    /// ISO 8601 timestamp (`…Z`).
    pub created_at: String,
    /// SHA-256 of the primary content in hexadecimal (deduplication key).
    pub hash: String,
    /// One-line preview for the list.
    pub preview: String,
}

/// The mathematical content of a [`ClipboardItem`].
#[verifier::ext_equal]
pub struct ItemModel {
    pub id: u64,
    pub content_type: ContentType,
    pub text: Option<Seq<char>>,
    pub rtf: Option<Seq<u8>>,
    pub html: Option<Seq<char>>,
    pub image: Option<Seq<u8>>,
    pub file_paths: Option<Seq<Seq<char>>>,
    pub url: Option<Seq<char>>,
    pub source_app: Option<Seq<char>>,
    pub is_pinned: bool,
    pub created_at: Seq<char>,
    pub hash: Seq<char>,
    pub preview: Seq<char>,
}

impl View for ClipboardItem {
    type V = ItemModel;

    open spec fn view(&self) -> ItemModel {
        ItemModel {
            id: self.id,
            content_type: self.content_type,
            text: self.content_text.deep_view(),
            rtf: self.content_rtf.deep_view(),
            html: self.content_html.deep_view(),
            image: self.content_image.deep_view(),
            file_paths: self.content_file_paths.deep_view(),
            url: self.content_url.deep_view(),
            source_app: self.source_app_bundle_id.deep_view(),
            is_pinned: self.is_pinned,
            created_at: self.created_at@,
            hash: self.hash@,
            preview: self.preview@,
        }
    }
}

impl DeepView for ClipboardItem {
    type V = ItemModel;

    open spec fn deep_view(&self) -> ItemModel {
        self@
    }
}

/// A copy of an optional text.
pub fn copy_text(t: &Option<String>) -> (r: Option<String>)
    ensures
        r.deep_view() == t.deep_view(),
{
    match t {
        Some(s) => Some(s.clone()),
        None => None,
    }
}

/// A copy of optional bytes.
pub fn copy_bytes(b: &Option<Vec<u8>>) -> (r: Option<Vec<u8>>)
    ensures
        r.deep_view() == b.deep_view(),
{
    match b {
        Some(v) => {
            let c: Vec<u8> = v.clone();
            assert(c.deep_view() =~= v.deep_view());
            Some(c)
        },
        None => None,
    }
}

/// A copy of a list of texts.
pub fn copy_list(list: &[String]) -> (r: Vec<String>)
    ensures
        r.deep_view() == list.deep_view(),
{
    let mut r: Vec<String> = Vec::new();
    let mut i: usize = 0;
    while i < list.len()
        invariant
            i <= list@.len(),
            r.deep_view() == list.deep_view().take(i as int),
        decreases list@.len() - i,
    {
        let ghost prior = r.deep_view();
        r.push(list[i].clone());
        assert(r.deep_view() =~= prior.push(list@[i as int]@));
        i += 1;
        assert(r.deep_view() =~= list.deep_view().take(i as int));
    }
    assert(list.deep_view().take(i as int) =~= list.deep_view());
    r
}

/// A view into an optional text.
pub fn text_ref(t: &Option<String>) -> (r: Option<&str>)
    ensures
        r.deep_view() == t.deep_view(),
{
    match t {
        Some(s) => Some(s.as_str()),
        None => None,
    }
}

/// A view into optional bytes.
pub fn bytes_ref(b: &Option<Vec<u8>>) -> (r: Option<&[u8]>)
    ensures
        r.deep_view() == b.deep_view(),
{
    match b {
        Some(v) => Some(v.as_slice()),
        None => None,
    }
}

/// A view into an optional list of texts.
pub fn list_ref(l: &Option<Vec<String>>) -> (r: Option<&[String]>)
    ensures
        r.deep_view() == l.deep_view(),
{
    match l {
        Some(v) => Some(v.as_slice()),
        None => None,
    }
}

impl Clone for ClipboardItem {
    /// An item with the same content.
    fn clone(&self) -> (r: Self)
        ensures
            r@ == self@,
    {
        let paths: Option<Vec<String>> = match &self.content_file_paths {
            Some(p) => Some(copy_list(p.as_slice())),
            None => None,
        };
        ClipboardItem {
            id: self.id,
            content_type: self.content_type,
            content_text: copy_text(&self.content_text),
            content_rtf: copy_bytes(&self.content_rtf),
            content_html: copy_text(&self.content_html),
            content_image: copy_bytes(&self.content_image),
            content_file_paths: paths,
            content_url: copy_text(&self.content_url),
            source_app_bundle_id: copy_text(&self.source_app_bundle_id),
            is_pinned: self.is_pinned,
            created_at: self.created_at.clone(),
            hash: self.hash.clone(),
            preview: self.preview.clone(),
        }
    }
}

// ── Previews ────────────────────────────────────────────────────────────────

/// Longest preview, in characters.
pub const PREVIEW_MAX: usize = 120;

/// Line ends become spaces.
pub open spec fn flattened(s: Seq<char>) -> Seq<char> {
    s.map_values(
        |c: char|
            if c == '\n' || c == '\r' {
                ' '
            } else {
                c
            },
    )
}

/// The one-line form of `s`, cut to the preview length.
pub open spec fn preview_of(s: Seq<char>) -> Seq<char> {
    text::truncated(text::trimmed(flattened(s)), PREVIEW_MAX as nat)
}

/// The preview of a list of file paths.
pub open spec fn files_preview(paths: Seq<Seq<char>>) -> Seq<char> {
    if paths.len() == 0 {
        "[Files]"@
    } else if paths.len() == 1 {
        preview_of(paths[0])
    } else {
        preview_of(numbers::decimal(paths.len()) + " files: "@ + paths[0])
    }
}

/// The one that is there, the first before the second.
pub open spec fn first_of(
    a: Option<Seq<char>>,
    b: Option<Seq<char>>,
    default: Seq<char>,
) -> Seq<char> {
    match a {
        Some(s) => s,
        None => match b {
            Some(s) => s,
            None => default,
        },
    }
}

/// The one-line preview of an item with these parts.
pub open spec fn item_preview(
    content_type: ContentType,
    text: Option<Seq<char>>,
    html: Option<Seq<char>>,
    url: Option<Seq<char>>,
    file_paths: Option<Seq<Seq<char>>>,
) -> Seq<char> {
    match content_type {
        ContentType::Text => preview_of(first_of(text, None, Seq::empty())),
        ContentType::Rtf => match text {
            Some(t) => if t.len() > 0 {
                preview_of(t)
            } else {
                "[Rich Text]"@
            },
            None => "[Rich Text]"@,
        },
        ContentType::Html => preview_of(first_of(html, text, "[HTML]"@)),
        ContentType::Image => "[Image]"@,
        ContentType::File => files_preview(
            match file_paths {
                Some(p) => p,
                None => Seq::empty(),
            },
        ),
        ContentType::Url => preview_of(first_of(url, text, "[URL]"@)),
    }
}

/// The text on one line, cut to the preview length.
pub fn truncate_preview(s: &str) -> (r: String)
    ensures
        r@ == preview_of(s@),
{
    let v: Vec<char> = text::chars_of(s);
    let mut flat: String = String::new();
    let mut i: usize = 0;
    while i < v.len()
        invariant
            i <= v@.len(),
            v@ == s@,
            flat@ == flattened(s@.take(i as int)),
        decreases v@.len() - i,
    {
        let c: char = v[i];
        if c == '\n' || c == '\r' {
            flat.push(' ');
        } else {
            flat.push(c);
        }
        i += 1;
        assert(flat@ =~= flattened(s@.take(i as int)));
    }
    assert(s@.take(i as int) =~= s@);
    text::truncate_chars(text::trim(flat.as_str()).as_str(), PREVIEW_MAX)
}

/// The preview of a list of file paths: the path, or how many there are and
/// the first of them.
pub fn file_preview(paths: &[String]) -> (r: String)
    ensures
        r@ == files_preview(paths.deep_view()),
{
    if paths.len() == 0 {
        return "[Files]".to_owned();
    }
    if paths.len() == 1 {
        return truncate_preview(paths[0].as_str());
    }
    let mut all: String = numbers::decimal_string(paths.len() as u64);
    all.append(" files: ");
    all.append(paths[0].as_str());
    truncate_preview(all.as_str())
}

fn pick<'a>(a: Option<&'a str>, b: Option<&'a str>, default: &'a str) -> (r: &'a str)
    ensures
        r@ == first_of(a.deep_view(), b.deep_view(), default@),
{
    match a {
        Some(s) => s,
        None => match b {
            Some(s) => s,
            None => default,
        },
    }
}

impl ClipboardItem {
    /// Builds the one-line preview from the parts that there are.
    pub fn make_preview(
        content_type: ContentType,
        text: Option<&str>,
        html: Option<&str>,
        url: Option<&str>,
        file_paths: Option<&[String]>,
        _has_image: bool,
        _has_rtf: bool,
    ) -> (r: String)
        ensures
            r@ == item_preview(
                content_type,
                text.deep_view(),
                html.deep_view(),
                url.deep_view(),
                file_paths.deep_view(),
            ),
    {
        match content_type {
            ContentType::Text => {
                proof {
                    reveal_strlit("");
                    assert(""@ =~= Seq::empty());
                }
                truncate_preview(pick(text, None, ""))
            },
            ContentType::Rtf => {
                if let Some(t) = text {
                    if !t.is_empty() {
                        return truncate_preview(t);
                    }
                }
                "[Rich Text]".to_owned()
            },
            ContentType::Html => truncate_preview(pick(html, text, "[HTML]")),
            ContentType::Image => "[Image]".to_owned(),
            ContentType::File => match file_paths {
                Some(p) => file_preview(p),
                None => "[Files]".to_owned(),
            },
            ContentType::Url => truncate_preview(pick(url, text, "[URL]")),
        }
    }
}

/// What is trimmed holds only characters of the whole.
proof fn lemma_trimmed_chars(s: Seq<char>)
    ensures
        forall|i: int|
            0 <= i < text::trimmed(s).len() ==> s.contains(#[trigger] text::trimmed(s)[i]),
{
    lemma_trimmed_front_chars(s);
    lemma_trimmed_back_chars(text::trimmed_front(s));
}

proof fn lemma_trimmed_front_chars(s: Seq<char>)
    ensures
        forall|c: char| #[trigger] text::trimmed_front(s).contains(c) ==> s.contains(c),
    decreases s.len(),
{
    if s.len() > 0 && text::white_space(s.first()) {
        lemma_trimmed_front_chars(s.drop_first());
        assert forall|c: char| #[trigger] text::trimmed_front(s).contains(c) implies s.contains(
            c,
        ) by {
            let t = s.drop_first();
            assert(text::trimmed_front(t).contains(c));
            assert(t.contains(c));
            let i = choose|i: int| 0 <= i < t.len() && t[i] == c;
            assert(s[i + 1] == c);
        }
    }
}

proof fn lemma_trimmed_back_chars(s: Seq<char>)
    ensures
        forall|i: int|
            0 <= i < text::trimmed_back(s).len() ==> s.contains(
                #[trigger] text::trimmed_back(s)[i],
            ),
    decreases s.len(),
{
    if s.len() > 0 && text::white_space(s.last()) {
        lemma_trimmed_back_chars(s.drop_last());
        assert forall|i: int| 0 <= i < text::trimmed_back(s).len() implies s.contains(
            #[trigger] text::trimmed_back(s)[i],
        ) by {
            let t = s.drop_last();
            let c = text::trimmed_back(s)[i];
            assert(c == text::trimmed_back(t)[i]);
            assert(t.contains(c));
            let j = choose|j: int| 0 <= j < t.len() && t[j] == c;
            assert(s[j] == c);
        }
    }
}

/// A preview is one line of bounded length, without white space at either end.
pub proof fn law_preview_one_line(s: Seq<char>)
    ensures
        text::trimmed(preview_of(s)) == preview_of(s),
        preview_of(s).len() <= PREVIEW_MAX,
        !preview_of(s).contains('\n'),
        !preview_of(s).contains('\r'),
{
    let f = flattened(s);
    let t = text::trimmed(f);
    let p = preview_of(s);
    lemma_trimmed_chars(f);
    text::law_trim(f);
    if p.len() > 0 {
        assert(p.first() == t.first() || p.first() == '…');
        assert(p.last() == t.last() || p.last() == '…');
    }
    assert(text::trimmed(p) == p);
    assert forall|i: int| 0 <= i < p.len() implies #[trigger] p[i] != '\n' && p[i] != '\r' by {
        if p[i] != '…' {
            assert(p[i] == t[i]);
            let j = choose|j: int| 0 <= j < f.len() && f[j] == t[i];
            assert(f[j] != '\n' && f[j] != '\r');
        }
    }
}

// ── Fingerprints ────────────────────────────────────────────────────────────

/// The UTF-8 bytes of a text that may be missing.
pub open spec fn utf8_or_empty(t: Option<Seq<char>>) -> Seq<u8> {
    match t {
        Some(s) => encode_utf8(s),
        None => Seq::empty(),
    }
}

/// Each path's UTF-8 bytes followed by a zero byte.
pub open spec fn paths_bytes(paths: Seq<Seq<char>>) -> Seq<u8>
    decreases paths.len(),
{
    if paths.len() == 0 {
        Seq::empty()
    } else {
        paths_bytes(paths.drop_last()) + encode_utf8(paths.last()).push(0x00)
    }
}

/// The bytes of the part that the kind of an item makes its primary one. File
/// paths enter in order, so that where they stood does not matter.
pub open spec fn primary_bytes(
    content_type: ContentType,
    text: Option<Seq<char>>,
    rtf: Option<Seq<u8>>,
    html: Option<Seq<char>>,
    image: Option<Seq<u8>>,
    file_paths: Option<Seq<Seq<char>>>,
    url: Option<Seq<char>>,
) -> Seq<u8> {
    match content_type {
        ContentType::Text => utf8_or_empty(text),
        ContentType::Rtf => match rtf {
            Some(b) => b,
            None => utf8_or_empty(text),
        },
        ContentType::Html => match html {
            Some(h) => encode_utf8(h),
            None => utf8_or_empty(text),
        },
        ContentType::Image => match image {
            Some(b) => b,
            None => Seq::empty(),
        },
        ContentType::File => match file_paths {
            Some(p) => paths_bytes(digest::in_order(p)),
            None => Seq::empty(),
        },
        ContentType::Url => match url {
            Some(u) => encode_utf8(u),
            None => utf8_or_empty(text),
        },
    }
}

/// The bytes of which an item's fingerprint is taken: its kind, the primary
/// part, and the plain text where it stands beside another primary part.
pub open spec fn hash_input(
    content_type: ContentType,
    text: Option<Seq<char>>,
    rtf: Option<Seq<u8>>,
    html: Option<Seq<char>>,
    image: Option<Seq<u8>>,
    file_paths: Option<Seq<Seq<char>>>,
    url: Option<Seq<char>>,
) -> Seq<u8> {
    encode_utf8(content_type.tag()).push(0xff) + primary_bytes(
        content_type,
        text,
        rtf,
        html,
        image,
        file_paths,
        url,
    ) + (if content_type == ContentType::Text || text is None {
        Seq::empty()
    } else {
        seq![0xfeu8] + utf8_or_empty(text)
    })
}

/// Appends bytes.
fn push_bytes(out: &mut Vec<u8>, bytes: &[u8])
    ensures
        final(out)@ == old(out)@ + bytes@,
{
    out.extend_from_slice(bytes);
    assert(out@ =~= old(out)@ + bytes@);
}

/// Appends the UTF-8 bytes of a text where there is one.
fn push_text(out: &mut Vec<u8>, t: Option<&str>)
    ensures
        final(out)@ == old(out)@ + utf8_or_empty(t.deep_view()),
{
    match t {
        Some(s) => push_bytes(out, s.as_bytes()),
        None => {
            assert(out@ =~= out@ + Seq::<u8>::empty());
        },
    }
}

/// Appends the paths in order.
fn push_paths(out: &mut Vec<u8>, paths: &[String])
    ensures
        final(out)@ == old(out)@ + paths_bytes(digest::in_order(paths.deep_view())),
{
    let sorted: Vec<String> = digest::sort_texts(paths);
    let ghost all = sorted.deep_view();
    let ghost start = out@;
    let mut i: usize = 0;
    assert(start + paths_bytes(all.take(0)) =~= start);
    while i < sorted.len()
        invariant
            i <= sorted@.len(),
            all == sorted.deep_view(),
            out@ == start + paths_bytes(all.take(i as int)),
        decreases sorted@.len() - i,
    {
        assert(all.take(i + 1).drop_last() =~= all.take(i as int));
        push_bytes(out, sorted[i].as_str().as_bytes());
        out.push(0x00);
        i += 1;
        assert(out@ =~= start + paths_bytes(all.take(i as int)));
    }
    assert(all.take(i as int) =~= all);
}

impl ClipboardItem {
    /// The bytes of which the fingerprint of an item with these parts is taken.
    pub fn fingerprint_input(
        content_type: ContentType,
        text: Option<&str>,
        rtf: Option<&[u8]>,
        html: Option<&str>,
        image: Option<&[u8]>,
        file_paths: Option<&[String]>,
        url: Option<&str>,
    ) -> (r: Vec<u8>)
        ensures
            r@ == hash_input(
                content_type,
                text.deep_view(),
                rtf.deep_view(),
                html.deep_view(),
                image.deep_view(),
                file_paths.deep_view(),
                url.deep_view(),
            ),
    {
        let mut r: Vec<u8> = Vec::new();
        push_bytes(&mut r, content_type.as_str().as_bytes());
        r.push(0xff);
        match content_type {
            ContentType::Text => push_text(&mut r, text),
            ContentType::Rtf => match rtf {
                Some(b) => push_bytes(&mut r, b),
                None => push_text(&mut r, text),
            },
            ContentType::Html => match html {
                Some(h) => push_bytes(&mut r, h.as_bytes()),
                None => push_text(&mut r, text),
            },
            ContentType::Image => {
                if let Some(b) = image {
                    push_bytes(&mut r, b);
                }
            },
            ContentType::File => {
                if let Some(p) = file_paths {
                    push_paths(&mut r, p);
                }
            },
            ContentType::Url => match url {
                Some(u) => push_bytes(&mut r, u.as_bytes()),
                None => push_text(&mut r, text),
            },
        }
        if content_type != ContentType::Text {
            if let Some(t) = text {
                r.push(0xfe);
                push_bytes(&mut r, t.as_bytes());
            }
        }
        r
    }

    /// SHA-256 over the primary payload, for detecting consecutive duplicates.
    pub fn compute_hash(
        content_type: ContentType,
        text: Option<&str>,
        rtf: Option<&[u8]>,
        html: Option<&str>,
        image: Option<&[u8]>,
        file_paths: Option<&[String]>,
        url: Option<&str>,
    ) -> (r: String)
        ensures
            r@ == digest::hex_text(
                digest::sha256_of(
                    hash_input(
                        content_type,
                        text.deep_view(),
                        rtf.deep_view(),
                        html.deep_view(),
                        image.deep_view(),
                        file_paths.deep_view(),
                        url.deep_view(),
                    ),
                ),
            ),
            r@.len() == 64,
    {
        let input: Vec<u8> = Self::fingerprint_input(
            content_type,
            text,
            rtf,
            html,
            image,
            file_paths,
            url,
        );
        digest::sha256_hex(input.as_slice())
    }
}

/// Where the file paths of an item stand in the list does not change its
/// fingerprint.
pub proof fn law_hash_ignores_file_order(
    text: Option<Seq<char>>,
    rtf: Option<Seq<u8>>,
    html: Option<Seq<char>>,
    image: Option<Seq<u8>>,
    a: Seq<Seq<char>>,
    b: Seq<Seq<char>>,
    url: Option<Seq<char>>,
)
    requires
        a.to_multiset() == b.to_multiset(),
    ensures
        hash_input(ContentType::File, text, rtf, html, image, Some(a), url) == hash_input(
            ContentType::File,
            text,
            rtf,
            html,
            image,
            Some(b),
            url,
        ),
{
    digest::law_in_order_of_permutation(a, b);
}

/// Different plain texts enter the fingerprint differently.
pub proof fn law_text_hash_input_injective(a: Seq<char>, b: Seq<char>)
    requires
        hash_input(ContentType::Text, Some(a), None, None, None, None, None) == hash_input(
            ContentType::Text,
            Some(b),
            None,
            None,
            None,
            None,
            None,
        ),
    ensures
        a == b,
{
    let tag = encode_utf8(ContentType::Text.tag()).push(0xff);
    let x = tag + encode_utf8(a) + Seq::<u8>::empty();
    let y = tag + encode_utf8(b) + Seq::<u8>::empty();
    assert(x.skip(tag.len() as int) =~= encode_utf8(a));
    assert(y.skip(tag.len() as int) =~= encode_utf8(b));
    vstd::utf8::encode_utf8_decode_utf8(a);
    vstd::utf8::encode_utf8_decode_utf8(b);
}

// ── What tells two fingerprints apart ───────────────────────────────────────

proof fn lemma_scalar_bytes(c: u32)
    by (bit_vector)
    requires
        vstd::utf8::is_scalar(c),
    ensures
        vstd::utf8::has_width_1_encoding(c) ==> vstd::utf8::leading_byte_width_1(c) < 0x80 && (c
            != 0 ==> vstd::utf8::leading_byte_width_1(c) != 0),
        0 < vstd::utf8::leading_byte_width_2(c) < 0xf8,
        0 < vstd::utf8::leading_byte_width_3(c) < 0xf8,
        0 < vstd::utf8::leading_byte_width_4(c) < 0xf8,
        0 < vstd::utf8::last_continuation_byte(c) < 0xf8,
        0 < vstd::utf8::second_last_continuation_byte(c) < 0xf8,
        0 < vstd::utf8::third_last_continuation_byte(c) < 0xf8,
{
}

/// The bytes of a text are no separators: none is above 0xf7, and none is zero
/// where no character is.
proof fn lemma_utf8_bytes(s: Seq<char>)
    ensures
        forall|i: int| 0 <= i < encode_utf8(s).len() ==> #[trigger] encode_utf8(s)[i] < 0xf8,
        !s.contains('\0') ==> forall|i: int|
            0 <= i < encode_utf8(s).len() ==> #[trigger] encode_utf8(s)[i] != 0,
    decreases s.len(),
{
    if s.len() > 0 {
        let rest = s.drop_first();
        lemma_utf8_bytes(rest);
        vstd::utf8::char_is_scalar(s[0]);
        lemma_scalar_bytes(s[0] as u32);
        let one = vstd::utf8::encode_scalar(s[0] as u32);
        if !s.contains('\0') {
            assert(s.contains(s[0]));
            assert forall|i: int| 0 <= i < rest.len() implies #[trigger] rest[i] != '\0' by {
                assert(s.contains(s[i + 1]));
            }
            assert(!rest.contains('\0'));
            let c: char = s[0];
            vstd::utf8::char_u32_cast(c, c as u32);
            assert(0u32 as char == '\0');
            assert(c as u32 != 0);
        }
        assert forall|i: int| 0 <= i < one.len() implies #[trigger] one[i] < 0xf8 && (s[0] as u32
            != 0 ==> one[i] != 0) by {}
        assert forall|i: int| 0 <= i < encode_utf8(s).len() implies #[trigger] encode_utf8(s)[i]
            < 0xf8 && (!s.contains('\0') ==> encode_utf8(s)[i] != 0) by {
            if i < one.len() {
                assert(encode_utf8(s)[i] == one[i]);
            } else {
                assert(encode_utf8(s)[i] == encode_utf8(rest)[i - one.len()]);
            }
        }
    }
}

proof fn lemma_utf8_injective(a: Seq<char>, b: Seq<char>)
    requires
        encode_utf8(a) == encode_utf8(b),
    ensures
        a == b,
{
    vstd::utf8::encode_utf8_decode_utf8(a);
    vstd::utf8::encode_utf8_decode_utf8(b);
}

/// What stands between two ends that are the same is the same.
proof fn lemma_same_middle(front: Seq<u8>, a: Seq<u8>, b: Seq<u8>, back: Seq<u8>)
    requires
        front + a + back == front + b + back,
    ensures
        a == b,
{
    let x = front + a + back;
    let y = front + b + back;
    assert(x.len() == front.len() + a.len() + back.len());
    assert(y.len() == front.len() + b.len() + back.len());
    let k = front.len() as int;
    assert(x.subrange(k, k + a.len()) =~= a);
    assert(y.subrange(k, k + b.len()) =~= b);
}

/// A part without the byte 0xfe, and one behind it that begins with that byte,
/// can be told apart.
proof fn lemma_two_parts(front: Seq<u8>, a: Seq<u8>, p: Seq<u8>, b: Seq<u8>, q: Seq<u8>)
    requires
        front + a + p == front + b + q,
        forall|i: int| 0 <= i < a.len() ==> #[trigger] a[i] != 0xfe,
        forall|i: int| 0 <= i < b.len() ==> #[trigger] b[i] != 0xfe,
        p.len() > 0 ==> p[0] == 0xfe,
        q.len() > 0 ==> q[0] == 0xfe,
    ensures
        a == b,
        p == q,
{
    let x = front + a + p;
    let y = front + b + q;
    let k = front.len() as int;
    assert(x.len() == y.len());
    if a.len() < b.len() {
        assert(x[k + a.len()] == p[0]);
        assert(y[k + a.len()] == b[a.len() as int]);
    } else if b.len() < a.len() {
        assert(y[k + b.len()] == q[0]);
        assert(x[k + b.len()] == a[b.len() as int]);
    }
    assert(x.subrange(k, k + a.len()) =~= a);
    assert(y.subrange(k, k + b.len()) =~= b);
    assert(x.skip(k + a.len()) =~= p);
    assert(y.skip(k + b.len()) =~= q);
}

/// Paths without a zero character can be told apart by their bytes.
proof fn lemma_paths_injective(a: Seq<Seq<char>>, b: Seq<Seq<char>>)
    requires
        paths_bytes(a) == paths_bytes(b),
        forall|i: int| 0 <= i < a.len() ==> !(#[trigger] a[i]).contains('\0'),
        forall|i: int| 0 <= i < b.len() ==> !(#[trigger] b[i]).contains('\0'),
    ensures
        a == b,
    decreases a.len(),
{
    let x = paths_bytes(a);
    let y = paths_bytes(b);
    if a.len() == 0 || b.len() == 0 {
        assert(a =~= b);
    } else {
        let ra = paths_bytes(a.drop_last());
        let rb = paths_bytes(b.drop_last());
        let ea = encode_utf8(a.last());
        let eb = encode_utf8(b.last());
        assert(!a[a.len() - 1].contains('\0') && !b[b.len() - 1].contains('\0'));
        lemma_utf8_bytes(a.last());
        lemma_utf8_bytes(b.last());
        lemma_paths_end(a.drop_last());
        lemma_paths_end(b.drop_last());
        let n = x.len() as int;
        assert(x == ra + ea.push(0) && y == rb + eb.push(0));
        if ea.len() < eb.len() {
            let k = n - 2 - ea.len();
            assert(y[k] == eb[k - rb.len()]);
            assert(x[k] == ra[k]);
        } else if eb.len() < ea.len() {
            let k = n - 2 - eb.len();
            assert(x[k] == ea[k - ra.len()]);
            assert(y[k] == rb[k]);
        }
        assert(x.take(ra.len() as int) =~= ra);
        assert(y.take(rb.len() as int) =~= rb);
        assert(x.subrange(ra.len() as int, n - 1) =~= ea);
        assert(y.subrange(rb.len() as int, n - 1) =~= eb);
        lemma_utf8_injective(a.last(), b.last());
        assert forall|i: int| 0 <= i < a.drop_last().len() implies !(
        #[trigger] a.drop_last()[i]).contains('\0') by {
            assert(!a[i].contains('\0'));
        }
        assert forall|i: int| 0 <= i < b.drop_last().len() implies !(
        #[trigger] b.drop_last()[i]).contains('\0') by {
            assert(!b[i].contains('\0'));
        }
        lemma_paths_injective(a.drop_last(), b.drop_last());
        assert(a =~= a.drop_last().push(a.last()));
        assert(b =~= b.drop_last().push(b.last()));
    }
}

proof fn lemma_paths_end(a: Seq<Seq<char>>)
    ensures
        paths_bytes(a).len() > 0 ==> paths_bytes(a).last() == 0,
        forall|i: int| 0 <= i < paths_bytes(a).len() ==> #[trigger] paths_bytes(a)[i] < 0xf8,
    decreases a.len(),
{
    if a.len() > 0 {
        lemma_paths_end(a.drop_last());
        lemma_utf8_bytes(a.last());
    }
}

/// Captures of different kinds have different fingerprint inputs, whatever
/// they hold.
pub proof fn law_fingerprint_tells_kinds_apart(
    k1: ContentType,
    t1: Option<Seq<char>>,
    r1: Option<Seq<u8>>,
    h1: Option<Seq<char>>,
    i1: Option<Seq<u8>>,
    f1: Option<Seq<Seq<char>>>,
    u1: Option<Seq<char>>,
    k2: ContentType,
    t2: Option<Seq<char>>,
    r2: Option<Seq<u8>>,
    h2: Option<Seq<char>>,
    i2: Option<Seq<u8>>,
    f2: Option<Seq<Seq<char>>>,
    u2: Option<Seq<char>>,
)
    requires
        hash_input(k1, t1, r1, h1, i1, f1, u1) == hash_input(k2, t2, r2, h2, i2, f2, u2),
    ensures
        k1 == k2,
{
    lemma_first_byte(k1);
    lemma_first_byte(k2);
    assert(hash_input(k1, t1, r1, h1, i1, f1, u1)[0] == encode_utf8(k1.tag())[0]);
    assert(hash_input(k2, t2, r2, h2, i2, f2, u2)[0] == encode_utf8(k2.tag())[0]);
}

proof fn lemma_first_byte(k: ContentType)
    ensures
        encode_utf8(k.tag()).len() > 0,
        encode_utf8(k.tag())[0] == (match k {
            ContentType::Text => 116u8,
            ContentType::Rtf => 114u8,
            ContentType::Html => 104u8,
            ContentType::Image => 105u8,
            ContentType::File => 102u8,
            ContentType::Url => 117u8,
        }),
{
    reveal_strlit("text");
    reveal_strlit("rtf");
    reveal_strlit("html");
    reveal_strlit("image");
    reveal_strlit("file");
    reveal_strlit("url");
    assert(vstd::utf8::is_ascii_chars(k.tag()));
    vstd::utf8::is_ascii_chars_encode_utf8(k.tag());
    assert(k.tag()[0] as u8 == encode_utf8(k.tag())[0]);
}

/// All of a text enters its fingerprint, and nothing beside it does.
pub proof fn law_text_fingerprint(
    a: Seq<char>,
    r1: Option<Seq<u8>>,
    h1: Option<Seq<char>>,
    i1: Option<Seq<u8>>,
    f1: Option<Seq<Seq<char>>>,
    u1: Option<Seq<char>>,
    b: Seq<char>,
    r2: Option<Seq<u8>>,
    h2: Option<Seq<char>>,
    i2: Option<Seq<u8>>,
    f2: Option<Seq<Seq<char>>>,
    u2: Option<Seq<char>>,
)
    ensures
        hash_input(ContentType::Text, Some(a), r1, h1, i1, f1, u1) == hash_input(
            ContentType::Text,
            Some(b),
            r2,
            h2,
            i2,
            f2,
            u2,
        ) <==> a == b,
{
    let x = hash_input(ContentType::Text, Some(a), r1, h1, i1, f1, u1);
    let y = hash_input(ContentType::Text, Some(b), r2, h2, i2, f2, u2);
    if x == y {
        let tag = encode_utf8(ContentType::Text.tag()).push(0xff);
        lemma_same_middle(tag, encode_utf8(a), encode_utf8(b), Seq::empty());
        lemma_utf8_injective(a, b);
    }
}

/// Beside the same text, all bytes of a rich text enter its fingerprint, and
/// no other part does.
pub proof fn law_rtf_fingerprint(
    text: Option<Seq<char>>,
    a: Seq<u8>,
    h1: Option<Seq<char>>,
    i1: Option<Seq<u8>>,
    f1: Option<Seq<Seq<char>>>,
    u1: Option<Seq<char>>,
    b: Seq<u8>,
    h2: Option<Seq<char>>,
    i2: Option<Seq<u8>>,
    f2: Option<Seq<Seq<char>>>,
    u2: Option<Seq<char>>,
)
    ensures
        hash_input(ContentType::Rtf, text, Some(a), h1, i1, f1, u1) == hash_input(
            ContentType::Rtf,
            text,
            Some(b),
            h2,
            i2,
            f2,
            u2,
        ) <==> a == b,
{
    let x = hash_input(ContentType::Rtf, text, Some(a), h1, i1, f1, u1);
    let y = hash_input(ContentType::Rtf, text, Some(b), h2, i2, f2, u2);
    if x == y {
        let tag = encode_utf8(ContentType::Rtf.tag()).push(0xff);
        lemma_same_middle(tag, a, b, text_part(text));
    }
}

/// Beside the same text, all bytes of an image enter its fingerprint, and no
/// other part does.
pub proof fn law_image_fingerprint(
    text: Option<Seq<char>>,
    a: Seq<u8>,
    r1: Option<Seq<u8>>,
    h1: Option<Seq<char>>,
    f1: Option<Seq<Seq<char>>>,
    u1: Option<Seq<char>>,
    b: Seq<u8>,
    r2: Option<Seq<u8>>,
    h2: Option<Seq<char>>,
    f2: Option<Seq<Seq<char>>>,
    u2: Option<Seq<char>>,
)
    ensures
        hash_input(ContentType::Image, text, r1, h1, Some(a), f1, u1) == hash_input(
            ContentType::Image,
            text,
            r2,
            h2,
            Some(b),
            f2,
            u2,
        ) <==> a == b,
{
    let x = hash_input(ContentType::Image, text, r1, h1, Some(a), f1, u1);
    let y = hash_input(ContentType::Image, text, r2, h2, Some(b), f2, u2);
    if x == y {
        let tag = encode_utf8(ContentType::Image.tag()).push(0xff);
        lemma_same_middle(tag, a, b, text_part(text));
    }
}

/// What a text adds to the fingerprint input of a capture of another kind.
spec fn text_part(text: Option<Seq<char>>) -> Seq<u8> {
    match text {
        Some(t) => seq![0xfeu8] + encode_utf8(t),
        None => Seq::empty(),
    }
}

proof fn lemma_text_part(a: Option<Seq<char>>, b: Option<Seq<char>>)
    requires
        text_part(a) == text_part(b),
    ensures
        a == b,
{
    let x = text_part(a);
    let y = text_part(b);
    if a is Some {
        assert(x.skip(1) =~= encode_utf8(a->Some_0));
    }
    if b is Some {
        assert(y.skip(1) =~= encode_utf8(b->Some_0));
    }
    if a is Some && b is Some {
        lemma_utf8_injective(a->Some_0, b->Some_0);
    }
}

/// All of an HTML source and of the text beside it enter the fingerprint, and
/// no other part does.
pub proof fn law_html_fingerprint(
    t1: Option<Seq<char>>,
    a: Seq<char>,
    r1: Option<Seq<u8>>,
    i1: Option<Seq<u8>>,
    f1: Option<Seq<Seq<char>>>,
    u1: Option<Seq<char>>,
    t2: Option<Seq<char>>,
    b: Seq<char>,
    r2: Option<Seq<u8>>,
    i2: Option<Seq<u8>>,
    f2: Option<Seq<Seq<char>>>,
    u2: Option<Seq<char>>,
)
    ensures
        hash_input(ContentType::Html, t1, r1, Some(a), i1, f1, u1) == hash_input(
            ContentType::Html,
            t2,
            r2,
            Some(b),
            i2,
            f2,
            u2,
        ) <==> a == b && t1 == t2,
{
    let x = hash_input(ContentType::Html, t1, r1, Some(a), i1, f1, u1);
    let y = hash_input(ContentType::Html, t2, r2, Some(b), i2, f2, u2);
    if x == y {
        let tag = encode_utf8(ContentType::Html.tag()).push(0xff);
        lemma_utf8_bytes(a);
        lemma_utf8_bytes(b);
        lemma_two_parts(tag, encode_utf8(a), text_part(t1), encode_utf8(b), text_part(t2));
        lemma_utf8_injective(a, b);
        lemma_text_part(t1, t2);
    }
}

/// All of a URL and of the text beside it enter the fingerprint, and no other
/// part does.
pub proof fn law_url_fingerprint(
    t1: Option<Seq<char>>,
    a: Seq<char>,
    r1: Option<Seq<u8>>,
    h1: Option<Seq<char>>,
    i1: Option<Seq<u8>>,
    f1: Option<Seq<Seq<char>>>,
    t2: Option<Seq<char>>,
    b: Seq<char>,
    r2: Option<Seq<u8>>,
    h2: Option<Seq<char>>,
    i2: Option<Seq<u8>>,
    f2: Option<Seq<Seq<char>>>,
)
    ensures
        hash_input(ContentType::Url, t1, r1, h1, i1, f1, Some(a)) == hash_input(
            ContentType::Url,
            t2,
            r2,
            h2,
            i2,
            f2,
            Some(b),
        ) <==> a == b && t1 == t2,
{
    let x = hash_input(ContentType::Url, t1, r1, h1, i1, f1, Some(a));
    let y = hash_input(ContentType::Url, t2, r2, h2, i2, f2, Some(b));
    if x == y {
        let tag = encode_utf8(ContentType::Url.tag()).push(0xff);
        lemma_utf8_bytes(a);
        lemma_utf8_bytes(b);
        lemma_two_parts(tag, encode_utf8(a), text_part(t1), encode_utf8(b), text_part(t2));
        lemma_utf8_injective(a, b);
        lemma_text_part(t1, t2);
    }
}

/// Which file paths there are, each as often as it is there, and the text
/// beside them enter the fingerprint whole, and no other part does. A path
/// holds no zero character.
pub proof fn law_file_fingerprint(
    t1: Option<Seq<char>>,
    a: Seq<Seq<char>>,
    r1: Option<Seq<u8>>,
    h1: Option<Seq<char>>,
    i1: Option<Seq<u8>>,
    u1: Option<Seq<char>>,
    t2: Option<Seq<char>>,
    b: Seq<Seq<char>>,
    r2: Option<Seq<u8>>,
    h2: Option<Seq<char>>,
    i2: Option<Seq<u8>>,
    u2: Option<Seq<char>>,
)
    requires
        forall|i: int| 0 <= i < a.len() ==> !(#[trigger] a[i]).contains('\0'),
        forall|i: int| 0 <= i < b.len() ==> !(#[trigger] b[i]).contains('\0'),
    ensures
        hash_input(ContentType::File, t1, r1, h1, i1, Some(a), u1) == hash_input(
            ContentType::File,
            t2,
            r2,
            h2,
            i2,
            Some(b),
            u2,
        ) <==> a.to_multiset() == b.to_multiset() && t1 == t2,
{
    let x = hash_input(ContentType::File, t1, r1, h1, i1, Some(a), u1);
    let y = hash_input(ContentType::File, t2, r2, h2, i2, Some(b), u2);
    let oa = digest::in_order(a);
    let ob = digest::in_order(b);
    digest::law_in_order(a);
    digest::law_in_order(b);
    if x == y {
        let tag = encode_utf8(ContentType::File.tag()).push(0xff);
        lemma_paths_end(oa);
        lemma_paths_end(ob);
        lemma_two_parts(tag, paths_bytes(oa), text_part(t1), paths_bytes(ob), text_part(t2));
        lemma_text_part(t1, t2);
        lemma_same_members(a, oa);
        lemma_same_members(b, ob);
        lemma_paths_injective(oa, ob);
    }
    if a.to_multiset() == b.to_multiset() {
        digest::law_in_order_of_permutation(a, b);
    }
}

/// A permutation without zero characters holds none either.
proof fn lemma_same_members(a: Seq<Seq<char>>, o: Seq<Seq<char>>)
    requires
        o.to_multiset() == a.to_multiset(),
        forall|i: int| 0 <= i < a.len() ==> !(#[trigger] a[i]).contains('\0'),
    ensures
        forall|i: int| 0 <= i < o.len() ==> !(#[trigger] o[i]).contains('\0'),
{
    broadcast use vstd::seq_lib::group_to_multiset_ensures;

    assert forall|i: int| 0 <= i < o.len() implies !(#[trigger] o[i]).contains('\0') by {
        assert(o.contains(o[i]));
        assert(o.to_multiset().count(o[i]) > 0);
        assert(a.contains(o[i]));
    }
}

/// Beside the same primary part, all of the text enters the fingerprint of a
/// capture of another kind.
pub proof fn law_text_beside_fingerprint(
    kind: ContentType,
    t1: Option<Seq<char>>,
    t2: Option<Seq<char>>,
    rtf: Option<Seq<u8>>,
    html: Option<Seq<char>>,
    image: Option<Seq<u8>>,
    file_paths: Option<Seq<Seq<char>>>,
    url: Option<Seq<char>>,
)
    requires
        kind != ContentType::Text,
        kind == ContentType::Rtf ==> rtf is Some,
        kind == ContentType::Html ==> html is Some,
        kind == ContentType::Url ==> url is Some,
    ensures
        hash_input(kind, t1, rtf, html, image, file_paths, url) == hash_input(
            kind,
            t2,
            rtf,
            html,
            image,
            file_paths,
            url,
        ) <==> t1 == t2,
{
    let x = hash_input(kind, t1, rtf, html, image, file_paths, url);
    let y = hash_input(kind, t2, rtf, html, image, file_paths, url);
    if x == y {
        let front = encode_utf8(kind.tag()).push(0xff) + primary_bytes(
            kind,
            t1,
            rtf,
            html,
            image,
            file_paths,
            url,
        );
        assert(x.skip(front.len() as int) =~= text_part(t1));
        assert(y.skip(front.len() as int) =~= text_part(t2));
        lemma_text_part(t1, t2);
    }
}

// ── What previews and kinds show ────────────────────────────────────────────

/// A preview is the text with each line end as a space, without white space
/// around it, and cut where it is longer than 120 characters. `flat` is that
/// text on one line.
pub proof fn law_preview(s: Seq<char>, flat: Seq<char>)
    requires
        flat.len() == s.len(),
        forall|i: int|
            0 <= i < s.len() ==> (#[trigger] flat[i]) == (if s[i] == '\n' || s[i] == '\r' {
                ' '
            } else {
                s[i]
            }),
    ensures
        text::trimmed(flat).len() <= 120 ==> preview_of(s) == text::trimmed(flat),
        text::trimmed(flat).len() > 120 ==> preview_of(s) == text::trimmed(flat).take(119).push(
            '…',
        ),
{
    assert(flattened(s) =~= flat);
}

/// The preview of a capture is that of the part its kind names, or of the text
/// where the part is missing.
pub proof fn law_item_preview(
    a: Seq<char>,
    text: Option<Seq<char>>,
    html: Option<Seq<char>>,
    url: Option<Seq<char>>,
    paths: Option<Seq<Seq<char>>>,
)
    ensures
        item_preview(ContentType::Text, Some(a), html, url, paths) == preview_of(a),
        a.len() > 0 ==> item_preview(ContentType::Rtf, Some(a), html, url, paths) == preview_of(a),
        item_preview(ContentType::Rtf, None, html, url, paths) == "[Rich Text]"@,
        item_preview(ContentType::Html, text, Some(a), url, paths) == preview_of(a),
        item_preview(ContentType::Html, Some(a), None, url, paths) == preview_of(a),
        item_preview(ContentType::Image, text, html, url, paths) == "[Image]"@,
        item_preview(ContentType::File, text, html, url, Some(seq![a])) == preview_of(a),
        item_preview(ContentType::Url, text, html, Some(a), paths) == preview_of(a),
        item_preview(ContentType::Url, Some(a), html, None, paths) == preview_of(a),
{
}

/// The preview of several files tells how many there are and names the first.
pub proof fn law_files_preview(
    paths: Seq<Seq<char>>,
    count: Seq<char>,
    text: Option<Seq<char>>,
    html: Option<Seq<char>>,
    url: Option<Seq<char>>,
)
    requires
        paths.len() > 1,
        count == numbers::decimal(paths.len()),
    ensures
        item_preview(ContentType::File, text, html, url, Some(paths)) == preview_of(
            count + " files: "@ + paths[0],
        ),
{
}

/// Kinds look different in the list: no two have the same label or symbol, nor
/// the same stored name.
pub proof fn law_kinds_look_different(a: ContentType, b: ContentType)
    requires
        a.label_text() == b.label_text() || a.symbol_text() == b.symbol_text() || a.tag()
            == b.tag(),
    ensures
        a == b,
{
    law_tag_round_trip(a);
    law_tag_round_trip(b);
    reveal_strlit("TXT");
    reveal_strlit("RTF");
    reveal_strlit("HTML");
    reveal_strlit("IMG");
    reveal_strlit("FILE");
    reveal_strlit("URL");
    reveal_strlit("text.alignleft");
    reveal_strlit("doc.richtext");
    reveal_strlit("chevron.left.forwardslash.chevron.right");
    reveal_strlit("photo");
    reveal_strlit("doc");
    reveal_strlit("link");
    assert("TXT"@[0] == 'T' && "RTF"@[0] == 'R' && "HTML"@[0] == 'H');
    assert("IMG"@[0] == 'I' && "FILE"@[0] == 'F' && "URL"@[0] == 'U');
    assert("text.alignleft"@.len() == 14 && "doc.richtext"@.len() == 12 && "doc"@.len() == 3);
    assert("photo"@.len() == 5 && "link"@.len() == 4);
    assert("chevron.left.forwardslash.chevron.right"@.len() == 39);
}

/// An item's parts are its fields, each on its own.
pub proof fn law_item_view(item: ClipboardItem)
    ensures
        item@.id == item.id,
        item@.content_type == item.content_type,
        item@.text == item.content_text.deep_view(),
        item@.rtf == item.content_rtf.deep_view(),
        item@.html == item.content_html.deep_view(),
        item@.image == item.content_image.deep_view(),
        item@.file_paths == item.content_file_paths.deep_view(),
        item@.url == item.content_url.deep_view(),
        item@.source_app == item.source_app_bundle_id.deep_view(),
        item@.is_pinned == item.is_pinned,
        item@.created_at == item.created_at@,
        item@.hash == item.hash@,
        item@.preview == item.preview@,
        item.deep_view() == item@,
{
}

/// A stored name is that of one kind, and a name that no kind has counts as
/// text.
pub proof fn law_stored_kind(s: Seq<char>)
    ensures
        ContentType::with_tag(s) == ContentType::Rtf <==> s == "rtf"@,
        ContentType::with_tag(s) == ContentType::Html <==> s == "html"@,
        ContentType::with_tag(s) == ContentType::Image <==> s == "image"@,
        ContentType::with_tag(s) == ContentType::File <==> s == "file"@,
        ContentType::with_tag(s) == ContentType::Url <==> s == "url"@,
{
    reveal_strlit("rtf");
    reveal_strlit("html");
    reveal_strlit("image");
    reveal_strlit("file");
    reveal_strlit("url");
    assert("rtf"@[0] == 'r' && "html"@[0] == 'h' && "image"@[0] == 'i');
    assert("file"@[0] == 'f' && "url"@[0] == 'u');
}

/// Where the part that a preview is made of is missing, the preview names the
/// kind, and the plain text stands in where there is one.
pub proof fn law_preview_of_little(
    html: Option<Seq<char>>,
    url: Option<Seq<char>>,
    paths: Option<Seq<Seq<char>>>,
)
    ensures
        item_preview(ContentType::Text, None, html, url, paths) == Seq::<char>::empty(),
        item_preview(ContentType::Rtf, Some(Seq::empty()), html, url, paths) == "[Rich Text]"@,
        item_preview(ContentType::Html, None, None, url, paths) == "[HTML]"@,
        item_preview(ContentType::Url, None, html, None, paths) == "[URL]"@,
        item_preview(ContentType::File, None, html, url, None) == "[Files]"@,
        item_preview(ContentType::File, None, html, url, Some(Seq::empty())) == "[Files]"@,
{
    reveal_strlit("[HTML]");
    reveal_strlit("[URL]");
    let none = Seq::<char>::empty();
    law_preview(none, none);
    law_preview("[HTML]"@, "[HTML]"@);
    law_preview("[URL]"@, "[URL]"@);
    text::law_trim_exact(none, none, none);
    text::law_trim_exact(none, "[HTML]"@, none);
    text::law_trim_exact(none, "[URL]"@, none);
    assert(none + "[HTML]"@ + none =~= "[HTML]"@);
    assert(none + "[URL]"@ + none =~= "[URL]"@);
    assert(none + none + none =~= none);
}

/// What a fingerprint is taken of, byte for byte: the kind's name and 0xff, the
/// primary part, and behind 0xfe the plain text where it is not the primary
/// part. Without rich text, HTML or a URL the plain text is primary.
pub proof fn law_fingerprint_bytes(
    t: Seq<char>,
    s: Seq<char>,
    b: Seq<u8>,
    rtf: Option<Seq<u8>>,
    html: Option<Seq<char>>,
    image: Option<Seq<u8>>,
    paths: Option<Seq<Seq<char>>>,
    url: Option<Seq<char>>,
)
    ensures
        ({
            let text = encode_utf8(t);
            let beside = seq![0xfeu8] + text;
            &&& hash_input(ContentType::Text, Some(t), rtf, html, image, paths, url) == encode_utf8(
                "text"@,
            ) + seq![0xffu8] + text
            &&& hash_input(ContentType::Rtf, None, Some(b), html, image, paths, url) == encode_utf8(
                "rtf"@,
            ) + seq![0xffu8] + b
            &&& hash_input(ContentType::Rtf, Some(t), Some(b), html, image, paths, url)
                == encode_utf8("rtf"@) + seq![0xffu8] + b + beside
            &&& hash_input(ContentType::Rtf, Some(t), None, html, image, paths, url) == encode_utf8(
                "rtf"@,
            ) + seq![0xffu8] + text + beside
            &&& hash_input(ContentType::Html, None, rtf, Some(s), image, paths, url) == encode_utf8(
                "html"@,
            ) + seq![0xffu8] + encode_utf8(s)
            &&& hash_input(ContentType::Html, Some(t), rtf, Some(s), image, paths, url)
                == encode_utf8("html"@) + seq![0xffu8] + encode_utf8(s) + beside
            &&& hash_input(ContentType::Html, Some(t), rtf, None, image, paths, url) == encode_utf8(
                "html"@,
            ) + seq![0xffu8] + text + beside
            &&& hash_input(ContentType::Image, None, rtf, html, Some(b), paths, url) == encode_utf8(
                "image"@,
            ) + seq![0xffu8] + b
            &&& hash_input(ContentType::Image, Some(t), rtf, html, Some(b), paths, url)
                == encode_utf8("image"@) + seq![0xffu8] + b + beside
            &&& hash_input(ContentType::Url, None, rtf, html, image, paths, Some(s)) == encode_utf8(
                "url"@,
            ) + seq![0xffu8] + encode_utf8(s)
            &&& hash_input(ContentType::Url, Some(t), rtf, html, image, paths, Some(s))
                == encode_utf8("url"@) + seq![0xffu8] + encode_utf8(s) + beside
            &&& hash_input(ContentType::Url, Some(t), rtf, html, image, paths, None) == encode_utf8(
                "url"@,
            ) + seq![0xffu8] + text + beside
        }),
{
    let text = encode_utf8(t);
    let beside = seq![0xfeu8] + text;
    let none = Seq::<u8>::empty();
    lemma_three_parts("text"@, text, none);
    lemma_three_parts("rtf"@, b, none);
    lemma_three_parts("rtf"@, b, beside);
    lemma_three_parts("rtf"@, text, beside);
    lemma_three_parts("html"@, encode_utf8(s), none);
    lemma_three_parts("html"@, encode_utf8(s), beside);
    lemma_three_parts("html"@, text, beside);
    lemma_three_parts("image"@, b, none);
    lemma_three_parts("image"@, b, beside);
    lemma_three_parts("url"@, encode_utf8(s), none);
    lemma_three_parts("url"@, encode_utf8(s), beside);
    lemma_three_parts("url"@, text, beside);
}

/// The bytes of a fingerprint, one part behind the other.
proof fn lemma_three_parts(tag: Seq<char>, primary: Seq<u8>, rest: Seq<u8>)
    ensures
        encode_utf8(tag).push(0xff) + primary + rest == encode_utf8(tag) + seq![0xffu8] + primary
            + rest,
        rest.len() == 0 ==> encode_utf8(tag).push(0xff) + primary + rest == encode_utf8(tag)
            + seq![0xffu8] + primary,
{
    let head = encode_utf8(tag);
    assert(head.push(0xff) =~= head + seq![0xffu8]);
    assert(rest.len() == 0 ==> head + seq![0xffu8] + primary + rest =~= head + seq![0xffu8]
        + primary);
}

/// The paths of files enter a fingerprint from the least to the greatest, each
/// with a zero byte behind it.
pub proof fn law_paths_fingerprint(
    paths: Seq<Seq<char>>,
    last: Seq<char>,
    rtf: Option<Seq<u8>>,
    html: Option<Seq<char>>,
    image: Option<Seq<u8>>,
    url: Option<Seq<char>>,
)
    requires
        forall|i: int, j: int|
            0 <= i < j < paths.len() ==> digest::text_le(#[trigger] paths[i], #[trigger] paths[j]),
        forall|i: int| 0 <= i < paths.len() ==> digest::text_le(#[trigger] paths[i], last),
    ensures
        hash_input(ContentType::File, None, rtf, html, image, Some(paths.push(last)), url)
            == hash_input(ContentType::File, None, rtf, html, image, Some(paths), url)
            + encode_utf8(last) + seq![0x00u8],
        hash_input(ContentType::File, None, rtf, html, image, Some(Seq::empty()), url)
            == encode_utf8("file"@) + seq![0xffu8],
{
    let more = paths.push(last);
    digest::lemma_in_order_already(paths);
    digest::lemma_in_order_already(more);
    digest::lemma_in_order_already(Seq::empty());
    assert(more.drop_last() =~= paths);
    let head = encode_utf8("file"@).push(0xff);
    assert(head + (paths_bytes(paths) + encode_utf8(last).push(0x00)) + Seq::<u8>::empty() =~= head
        + paths_bytes(paths) + Seq::<u8>::empty() + encode_utf8(last) + seq![0x00u8]);
    assert(head + Seq::<u8>::empty() + Seq::<u8>::empty() =~= encode_utf8("file"@) + seq![0xffu8]);
}

} // verus!
