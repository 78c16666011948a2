//! Text handling over sequences of Unicode scalar values.
//!
//! The model of a string is its sequence of characters. Every function here
//! says what it computes in terms of that sequence.
use vstd::prelude::*;
use vstd::slice::slice_subrange;

verus! {

/// `String::push` of the standard library: appends the one character given
/// and changes nothing else.
pub assume_specification[ String::push ](s: &mut String, c: char)
    ensures
        final(s)@ == old(s)@.push(c),
;

/// The characters of `s`, in order.
pub fn chars_of(s: &str) -> (v: Vec<char>)
    ensures
        v@ == s@,
{
    let mut v: Vec<char> = Vec::new();
    for c in it: s.chars()
        invariant
            v@ == s@.take(it.index() as int),
            it.seq() == s@,
    {
        v.push(c);
        assert(v@ =~= s@.take(it.index() + 1));
    }
    assert(v@ =~= s@);
    v
}

/// The string with exactly these characters.
pub fn string_of(v: &[char]) -> (s: String)
    ensures
        s@ == v@,
{
    let mut s: String = String::new();
    let mut i: usize = 0;
    while i < v.len()
        invariant
            i <= v@.len(),
            s@ == v@.take(i as int),
        decreases v@.len() - i,
    {
        s.push(v[i]);
        i += 1;
        assert(s@ =~= v@.take(i as int));
    }
    assert(v@.take(i as int) =~= v@);
    s
}

/// Whether two texts hold the same characters.
pub fn same_text(a: &str, b: &str) -> (r: bool)
    ensures
        r == (a@ == b@),
{
    a.to_owned() == b.to_owned()
}

// ── White space ─────────────────────────────────────────────────────────────

/// The Unicode `White_Space` property.
pub open spec fn white_space(c: char) -> bool {
    ||| 0x09 <= c as u32 <= 0x0d
    ||| c as u32 == 0x20
    ||| c as u32 == 0x85
    ||| c as u32 == 0xa0
    ||| c as u32 == 0x1680
    ||| 0x2000 <= c as u32 <= 0x200a
    ||| c as u32 == 0x2028
    ||| c as u32 == 0x2029
    ||| c as u32 == 0x202f
    ||| c as u32 == 0x205f
    ||| c as u32 == 0x3000
}

/// Whether `c` has the Unicode `White_Space` property.
pub fn is_white_space(c: char) -> (r: bool)
    ensures
        r == white_space(c),
{
    let n: u32 = c as u32;
    (0x09 <= n && n <= 0x0d) || n == 0x20 || n == 0x85 || n == 0xa0 || n == 0x1680 || (0x2000 <= n
        && n <= 0x200a) || n == 0x2028 || n == 0x2029 || n == 0x202f || n == 0x205f || n == 0x3000
}

/// `s` without the white space at its front.
pub open spec fn trimmed_front(s: Seq<char>) -> Seq<char>
    decreases s.len(),
{
    if s.len() > 0 && white_space(s.first()) {
        trimmed_front(s.drop_first())
    } else {
        s
    }
}

/// `s` without the white space at its back.
pub open spec fn trimmed_back(s: Seq<char>) -> Seq<char>
    decreases s.len(),
{
    if s.len() > 0 && white_space(s.last()) {
        trimmed_back(s.drop_last())
    } else {
        s
    }
}

/// `s` without the white space at either end.
pub open spec fn trimmed(s: Seq<char>) -> Seq<char> {
    trimmed_back(trimmed_front(s))
}

/// The text without leading and trailing white space.
pub fn trim(s: &str) -> (r: String)
    ensures
        r@ == trimmed(s@),
{
    let v: Vec<char> = chars_of(s);
    let mut a: usize = 0;
    assert(v@.skip(0) =~= v@);
    while a < v.len() && is_white_space(v[a])
        invariant
            a <= v@.len(),
            trimmed_front(v@.skip(a as int)) == trimmed_front(v@),
        decreases v@.len() - a,
    {
        assert(v@.skip(a as int).drop_first() =~= v@.skip(a + 1));
        a += 1;
    }
    let ghost f: Seq<char> = v@.skip(a as int);
    assert(trimmed_front(v@) == f);
    let mut b: usize = v.len();
    assert(f.take(b - a) =~= f);
    while b > a && is_white_space(v[b - 1])
        invariant
            a <= b <= v@.len(),
            f == v@.skip(a as int),
            trimmed_back(f.take(b - a)) == trimmed_back(f),
        decreases b,
    {
        assert(f.take(b - a).drop_last() =~= f.take(b - 1 - a));
        b -= 1;
    }
    assert(v@.subrange(a as int, b as int) =~= f.take(b - a));
    string_of(slice_subrange(v.as_slice(), a, b))
}

proof fn lemma_trimmed_front(s: Seq<char>)
    ensures
        trimmed_front(s).len() <= s.len(),
        trimmed_front(s) == s.skip(s.len() - trimmed_front(s).len()),
        trimmed_front(s).len() > 0 ==> !white_space(trimmed_front(s).first()),
    decreases s.len(),
{
    if s.len() > 0 && white_space(s.first()) {
        let t = s.drop_first();
        lemma_trimmed_front(t);
        let n = trimmed_front(t).len();
        assert(s.skip(s.len() - n) =~= t.skip(t.len() - n));
    } else {
        assert(s.skip(0) =~= s);
    }
}

proof fn lemma_trimmed_back(s: Seq<char>)
    ensures
        trimmed_back(s).len() <= s.len(),
        trimmed_back(s) == s.take(trimmed_back(s).len() as int),
        trimmed_back(s).len() > 0 ==> !white_space(trimmed_back(s).last()),
    decreases s.len(),
{
    if s.len() > 0 && white_space(s.last()) {
        let t = s.drop_last();
        lemma_trimmed_back(t);
        let n = trimmed_back(t).len() as int;
        assert(s.take(n) =~= t.take(n));
    } else {
        assert(s.take(s.len() as int) =~= s);
    }
}

/// What is trimmed is a part of the text without white space at either end,
/// and trimming it once more changes nothing.
pub proof fn law_trim(s: Seq<char>)
    ensures
        occurs_in(trimmed(s), s),
        trimmed(s).len() > 0 ==> !white_space(trimmed(s).first()) && !white_space(
            trimmed(s).last(),
        ),
        trimmed(trimmed(s)) == trimmed(s),
{
    let f = trimmed_front(s);
    let t = trimmed(s);
    lemma_trimmed_front(s);
    lemma_trimmed_back(f);
    let at = s.len() - f.len();
    assert(s.subrange(at, at + t.len()) =~= t);
    assert(stands_at(s, t, at));
    if t.len() > 0 {
        assert(t.first() == f.first());
    }
}

// ── Searching ───────────────────────────────────────────────────────────────

/// Whether `needle` stands in `hay` at position `i`.
pub open spec fn stands_at(hay: Seq<char>, needle: Seq<char>, i: int) -> bool {
    0 <= i <= hay.len() - needle.len() && hay.subrange(i, i + needle.len()) == needle
}

/// Whether `needle` occurs in `hay` as a run of consecutive characters.
pub open spec fn occurs_in(needle: Seq<char>, hay: Seq<char>) -> bool {
    exists|i: int| stands_at(hay, needle, i)
}

/// Whether `needle` stands in `hay` at position `at`.
fn matches_at(hay: &[char], needle: &[char], at: usize) -> (r: bool)
    requires
        at + needle@.len() <= hay@.len(),
    ensures
        r == stands_at(hay@, needle@, at as int),
{
    let n: usize = hay.len();
    let mut k: usize = 0;
    while k < needle.len()
        invariant
            k <= needle@.len(),
            at + needle@.len() <= hay@.len() == n,
            forall|j: int| 0 <= j < k ==> hay@[at + j] == needle@[j],
        decreases needle@.len() - k,
    {
        if hay[at + k] != needle[k] {
            assert(hay@.subrange(at as int, at + needle@.len())[k as int] != needle@[k as int]);
            return false;
        }
        k += 1;
    }
    assert(hay@.subrange(at as int, at + needle@.len()) =~= needle@);
    true
}

/// Whether `hay` contains `needle`.
pub fn contains(hay: &str, needle: &str) -> (r: bool)
    ensures
        r == occurs_in(needle@, hay@),
{
    let h: Vec<char> = chars_of(hay);
    let n: Vec<char> = chars_of(needle);
    if n.len() > h.len() {
        return false;
    }
    let mut i: usize = h.len() - n.len();
    loop
        invariant
            h@ == hay@,
            n@ == needle@,
            i <= h@.len() - n@.len(),
            forall|j: int| i < j ==> !stands_at(hay@, needle@, j),
        decreases i,
    {
        if matches_at(h.as_slice(), n.as_slice(), i) {
            return true;
        }
        if i == 0 {
            return false;
        }
        i -= 1;
    }
}

/// Whether the text begins with `prefix`.
pub fn starts_with(s: &str, prefix: &str) -> (r: bool)
    ensures
        r == stands_at(s@, prefix@, 0),
{
    let v: Vec<char> = chars_of(s);
    let p: Vec<char> = chars_of(prefix);
    if p.len() > v.len() {
        return false;
    }
    matches_at(v.as_slice(), p.as_slice(), 0)
}

/// The text after the first `n` characters.
pub fn skip_chars(s: &str, n: usize) -> (r: String)
    requires
        n <= s@.len(),
    ensures
        r@ == s@.skip(n as int),
{
    let v: Vec<char> = chars_of(s);
    assert(v@.subrange(n as int, v@.len() as int) =~= v@.skip(n as int));
    string_of(slice_subrange(v.as_slice(), n, v.len()))
}

// ── Splitting ───────────────────────────────────────────────────────────────

/// The number of characters before the first `c`, or of all where there is none.
pub open spec fn position(s: Seq<char>, c: char) -> int
    decreases s.len(),
{
    if s.len() == 0 || s.first() == c {
        0
    } else {
        1 + position(s.drop_first(), c)
    }
}

/// What stands before the first `c`; all of `s` where there is none.
pub open spec fn before(s: Seq<char>, c: char) -> Seq<char> {
    s.take(position(s, c))
}

/// What stands after the first `c`, where there is one.
pub open spec fn after(s: Seq<char>, c: char) -> Option<Seq<char>> {
    if position(s, c) < s.len() {
        Some(s.skip(position(s, c) + 1))
    } else {
        None
    }
}

/// The position of the first `c` is the one where `c` stands and no `c`
/// stands before it.
pub proof fn lemma_position(s: Seq<char>, c: char)
    ensures
        0 <= position(s, c) <= s.len(),
        position(s, c) < s.len() ==> s[position(s, c)] == c,
        forall|i: int| 0 <= i < position(s, c) ==> s[i] != c,
    decreases s.len(),
{
    if s.len() > 0 && s.first() != c {
        lemma_position(s.drop_first(), c);
        assert forall|i: int| 0 <= i < position(s, c) implies s[i] != c by {
            if i > 0 {
                assert(s[i] == s.drop_first()[i - 1]);
            }
        }
    }
}

/// A position with `c` on it and no `c` before it is the first.
pub proof fn lemma_position_is(s: Seq<char>, c: char, k: int)
    requires
        0 <= k <= s.len(),
        k < s.len() ==> s[k] == c,
        forall|i: int| 0 <= i < k ==> s[i] != c,
    ensures
        position(s, c) == k,
{
    lemma_position(s, c);
}

/// Splits the text at the first `c`: what stands before it, and what stands
/// after it where there is one.
pub fn split_once(s: &str, c: char) -> (r: (String, Option<String>))
    ensures
        r.0@ == before(s@, c),
        r.1.deep_view() == after(s@, c),
{
    let v: Vec<char> = chars_of(s);
    let mut k: usize = 0;
    while k < v.len() && v[k] != c
        invariant
            k <= v@.len(),
            forall|i: int| 0 <= i < k ==> v@[i] != c,
        decreases v@.len() - k,
    {
        k += 1;
    }
    proof {
        lemma_position_is(s@, c, k as int);
    }
    let head: String = string_of(slice_subrange(v.as_slice(), 0, k));
    assert(v@.subrange(0, k as int) =~= s@.take(k as int));
    if k < v.len() {
        assert(v@.subrange(k + 1, v@.len() as int) =~= s@.skip(k + 1));
        (head, Some(string_of(slice_subrange(v.as_slice(), k + 1, v.len()))))
    } else {
        (head, None)
    }
}

/// `s` without the run of `c` at its end.
pub open spec fn stripped_back(s: Seq<char>, c: char) -> Seq<char>
    decreases s.len(),
{
    if s.len() > 0 && s.last() == c {
        stripped_back(s.drop_last(), c)
    } else {
        s
    }
}

/// The text without the run of `c` at its end.
pub fn strip_back(s: &str, c: char) -> (r: String)
    ensures
        r@ == stripped_back(s@, c),
{
    let v: Vec<char> = chars_of(s);
    let mut b: usize = v.len();
    assert(v@.take(b as int) =~= v@);
    while b > 0 && v[b - 1] == c
        invariant
            b <= v@.len(),
            stripped_back(v@.take(b as int), c) == stripped_back(v@, c),
        decreases b,
    {
        assert(v@.take(b as int).drop_last() =~= v@.take(b - 1));
        b -= 1;
    }
    assert(v@.subrange(0, b as int) =~= v@.take(b as int));
    string_of(slice_subrange(v.as_slice(), 0, b))
}

// ── Shortening ──────────────────────────────────────────────────────────────

/// `s` itself where it has at most `max` characters, else its beginning
/// followed by an ellipsis, `max` characters in all (one where `max` is 0).
pub open spec fn truncated(s: Seq<char>, max: nat) -> Seq<char> {
    if s.len() <= max {
        s
    } else if max == 0 {
        seq!['…']
    } else {
        s.take(max - 1).push('…')
    }
}

/// Cuts the text to at most `max` characters, the last an ellipsis where
/// something was cut.
pub fn truncate_chars(s: &str, max: usize) -> (r: String)
    ensures
        r@ == truncated(s@, max as nat),
{
    let v: Vec<char> = chars_of(s);
    if v.len() <= max {
        return string_of(v.as_slice());
    }
    let keep: usize = if max == 0 { 0 } else { max - 1 };
    let mut r: String = string_of(slice_subrange(v.as_slice(), 0, keep));
    r.push('…');
    assert(v@.subrange(0, keep as int) =~= s@.take(keep as int));
    assert(r@ =~= truncated(s@, max as nat));
    r
}

// ── Character-wise rewriting ────────────────────────────────────────────────

/// The ASCII upper-case letters become lower case; all else stays.
pub open spec fn ascii_lower_char(c: char) -> char {
    if 'A' <= c <= 'Z' {
        (c as u32 + 32) as char
    } else {
        c
    }
}

/// `s` with its ASCII letters in lower case.
pub open spec fn ascii_lower(s: Seq<char>) -> Seq<char> {
    s.map_values(|c: char| ascii_lower_char(c))
}

/// The character with its ASCII case folded down.
pub fn to_ascii_lower_char(c: char) -> (r: char)
    ensures
        r == ascii_lower_char(c),
{
    if 'A' <= c && c <= 'Z' {
        ((c as u8) + 32) as char
    } else {
        c
    }
}

/// The text with its ASCII letters in lower case.
pub fn to_ascii_lower(s: &str) -> (r: String)
    ensures
        r@ == ascii_lower(s@),
{
    let v: Vec<char> = chars_of(s);
    let mut r: String = String::new();
    let mut i: usize = 0;
    while i < v.len()
        invariant
            i <= v@.len(),
            v@ == s@,
            r@ == ascii_lower(s@.take(i as int)),
        decreases v@.len() - i,
    {
        r.push(to_ascii_lower_char(v[i]));
        i += 1;
        assert(r@ =~= ascii_lower(s@.take(i as int)));
    }
    assert(s@.take(i as int) =~= s@);
    r
}

// ── Lower case ──────────────────────────────────────────────────────────────

/// Whether a text consists of ASCII characters.
pub open spec fn all_ascii(s: Seq<char>) -> bool {
    forall|i: int| 0 <= i < s.len() ==> (#[trigger] s[i] as u32) < 128
}

/// `s` with its ASCII letters in upper case.
pub open spec fn ascii_upper(s: Seq<char>) -> Seq<char> {
    s.map_values(
        |c: char|
            if 'a' <= c <= 'z' {
                (c as u32 - 32) as char
            } else {
                c
            },
    )
}

/// The lower-case form of a text, as `str::to_lowercase` gives it.
pub uninterp spec fn lowercase_of(s: Seq<char>) -> Seq<char>;

/// `str::to_lowercase` of the standard library: the lower-case equivalent of
/// the text, which depends on the text alone. Of ASCII characters the letters
/// from A to Z have those from a to z as their lower case, and no other
/// character has one; what other characters become is left unsaid.
#[verifier::external_body]
fn to_lowercase(s: &str) -> (r: String)
    ensures
        r@ == lowercase_of(s@),
        all_ascii(s@) ==> r@ == ascii_lower(s@),
{
    s.to_lowercase()
}

/// The lower-case form of a text.
pub open spec fn lower_form(s: Seq<char>) -> Seq<char> {
    if all_ascii(s) {
        ascii_lower(s)
    } else {
        lowercase_of(s)
    }
}

/// The text in lower case.
pub fn lower_text(s: &str) -> (r: String)
    ensures
        r@ == lower_form(s@),
{
    to_lowercase(s)
}

/// What occurs in a text occurs in it in lower case, too.
pub proof fn lemma_lower_occurs(a: Seq<char>, b: Seq<char>)
    requires
        occurs_in(a, b),
    ensures
        occurs_in(ascii_lower(a), ascii_lower(b)),
{
    let i = choose|i: int| stands_at(b, a, i);
    assert(ascii_lower(b).subrange(i, i + a.len()) =~= ascii_lower(a)) by {
        assert forall|k: int| 0 <= k < a.len() implies #[trigger] a[k] == b[i + k] by {
            assert(b.subrange(i, i + a.len())[k] == b[i + k]);
        }
    }
    assert(stands_at(ascii_lower(b), ascii_lower(a), i));
}

/// What occurs in a part of a text occurs in the text.
pub proof fn lemma_occurs_in_part(a: Seq<char>, b: Seq<char>, c: Seq<char>)
    requires
        occurs_in(a, b),
        occurs_in(b, c),
    ensures
        occurs_in(a, c),
{
    let i = choose|i: int| stands_at(b, a, i);
    let j = choose|j: int| stands_at(c, b, j);
    assert(c.subrange(i + j, i + j + a.len()) =~= c.subrange(j, j + b.len()).subrange(
        i,
        i + a.len(),
    ));
    assert(stands_at(c, a, i + j));
}

proof fn lemma_trimmed_front_lower(s: Seq<char>)
    ensures
        trimmed_front(ascii_lower(s)) == ascii_lower(trimmed_front(s)),
    decreases s.len(),
{
    if s.len() > 0 {
        assert(ascii_lower(s).first() == ascii_lower_char(s.first()));
        assert(ascii_lower(s).drop_first() =~= ascii_lower(s.drop_first()));
        lemma_trimmed_front_lower(s.drop_first());
    }
}

proof fn lemma_trimmed_back_lower(s: Seq<char>)
    ensures
        trimmed_back(ascii_lower(s)) == ascii_lower(trimmed_back(s)),
    decreases s.len(),
{
    if s.len() > 0 {
        assert(ascii_lower(s).last() == ascii_lower_char(s.last()));
        assert(ascii_lower(s).drop_last() =~= ascii_lower(s.drop_last()));
        lemma_trimmed_back_lower(s.drop_last());
    }
}

/// The lower-case form of ASCII text that is trimmed is that of the text,
/// trimmed.
pub proof fn lemma_trimmed_lower(s: Seq<char>)
    requires
        all_ascii(s),
    ensures
        all_ascii(trimmed(s)),
        lower_form(trimmed(s)) == trimmed(ascii_lower(s)),
{
    law_trim(s);
    let t = trimmed(s);
    let at = choose|i: int| stands_at(s, t, i);
    assert forall|i: int| 0 <= i < t.len() implies (#[trigger] t[i] as u32) < 128 by {
        assert(s.subrange(at, at + t.len())[i] == s[at + i]);
    }
    lemma_trimmed_front_lower(s);
    lemma_trimmed_back_lower(trimmed_front(s));
}

/// ASCII text in upper case is ASCII text, and has the same lower case.
pub proof fn lemma_upper_lower(s: Seq<char>)
    requires
        all_ascii(s),
    ensures
        all_ascii(ascii_upper(s)),
        ascii_lower(ascii_upper(s)) == ascii_lower(s),
{
    assert(ascii_lower(ascii_upper(s)) =~= ascii_lower(s));
}

// ── Lists of texts ──────────────────────────────────────────────────────────

/// The texts of `list` in order, with `sep` between each two.
pub open spec fn joined(list: Seq<Seq<char>>, sep: Seq<char>) -> Seq<char>
    decreases list.len(),
{
    if list.len() == 0 {
        Seq::empty()
    } else if list.len() == 1 {
        list[0]
    } else {
        joined(list.drop_last(), sep) + sep + list.last()
    }
}

/// Joins the texts with the separator between them.
pub fn join(list: &[String], sep: &str) -> (r: String)
    ensures
        r@ == joined(list.deep_view(), sep@),
{
    let mut r: String = String::new();
    let mut i: usize = 0;
    assert(list.deep_view().take(0) =~= Seq::empty());
    while i < list.len()
        invariant
            i <= list@.len(),
            r@ == joined(list.deep_view().take(i as int), sep@),
        decreases list@.len() - i,
    {
        let ghost d = list.deep_view();
        assert(d.take(i + 1).drop_last() =~= d.take(i as int));
        if i > 0 {
            r.append(sep);
        }
        r.append(list[i].as_str());
        i += 1;
        assert(d.take(i as int).last() == list@[i - 1]@);
        assert(r@ =~= joined(d.take(i as int), sep@));
    }
    assert(list.deep_view().take(i as int) =~= list.deep_view());
    r
}

/// The concatenation of two texts.
pub fn appended(a: &str, b: &str) -> (r: String)
    ensures
        r@ == a@ + b@,
{
    let mut r: String = a.to_owned();
    r.append(b);
    r
}

// ── Laws ────────────────────────────────────────────────────────────────────

/// Among the ASCII characters space, tab, line feed, vertical tab, form feed
/// and carriage return are white space, and no other.
pub proof fn law_ascii_white_space(c: char)
    requires
        (c as u32) < 128,
    ensures
        white_space(c) <==> c == ' ' || c == '\t' || c == '\n' || c as u32 == 11 || c as u32 == 12
            || c == '\r',
{
}

/// Trimming takes all white space from both ends and nothing else: what stands
/// between white space comes out as it was.
pub proof fn law_trim_exact(front: Seq<char>, core: Seq<char>, back: Seq<char>)
    requires
        forall|i: int| 0 <= i < front.len() ==> white_space(#[trigger] front[i]),
        forall|i: int| 0 <= i < back.len() ==> white_space(#[trigger] back[i]),
        core.len() > 0 ==> !white_space(core.first()) && !white_space(core.last()),
    ensures
        trimmed(front + core + back) == core,
    decreases front.len() + back.len(),
{
    let s = front + core + back;
    if front.len() > 0 {
        assert(s.first() == front[0]);
        assert(s.drop_first() =~= front.drop_first() + core + back);
        law_trim_exact(front.drop_first(), core, back);
    } else if core.len() == 0 && back.len() > 0 {
        assert(s.first() == back[0]);
        assert(s.drop_first() =~= front + core + back.drop_first());
        law_trim_exact(front, core, back.drop_first());
    } else if core.len() > 0 {
        assert(s.first() == core.first());
        assert(trimmed_front(s) == s);
        lemma_trimmed_back_exact(core, back);
        assert(s =~= core + back);
    } else {
        assert(s =~= core);
    }
}

proof fn lemma_trimmed_back_exact(core: Seq<char>, back: Seq<char>)
    requires
        forall|i: int| 0 <= i < back.len() ==> white_space(#[trigger] back[i]),
        core.len() > 0 ==> !white_space(core.last()),
    ensures
        trimmed_back(core + back) == core,
    decreases back.len(),
{
    if back.len() > 0 {
        assert((core + back).last() == back[back.len() - 1]);
        assert((core + back).drop_last() =~= core + back.drop_last());
        lemma_trimmed_back_exact(core, back.drop_last());
    } else {
        assert(core + back =~= core);
    }
}

/// A text occurs in whatever holds it between two other texts.
pub proof fn law_part_occurs(front: Seq<char>, needle: Seq<char>, back: Seq<char>)
    ensures
        occurs_in(needle, front + needle + back),
{
    let hay = front + needle + back;
    let at = front.len() as int;
    assert(hay.subrange(at, at + needle.len()) =~= needle);
    assert(stands_at(hay, needle, at));
}

/// A text in which another occurs holds it between two others.
pub proof fn law_occurs_between(needle: Seq<char>, hay: Seq<char>)
    requires
        occurs_in(needle, hay),
    ensures
        exists|front: Seq<char>, back: Seq<char>| hay == #[trigger] (front + needle + back),
{
    let i = choose|i: int| stands_at(hay, needle, i);
    assert(hay =~= hay.take(i) + needle + hay.skip(i + needle.len()));
}

/// A text begins with another exactly where it is that one and a rest.
pub proof fn law_begins_with(s: Seq<char>, front: Seq<char>, back: Seq<char>)
    ensures
        stands_at(front + back, front, 0),
        stands_at(s, front, 0) ==> s == front + s.skip(front.len() as int),
{
    assert((front + back).subrange(0, front.len() as int) =~= front);
    if stands_at(s, front, 0) {
        assert(s =~= s.subrange(0, front.len() as int) + s.skip(front.len() as int));
    }
}

/// A text is split at the first separator: what stands on either side comes
/// out whole.
pub proof fn law_split(front: Seq<char>, c: char, back: Seq<char>)
    requires
        !front.contains(c),
    ensures
        before(front + seq![c] + back, c) == front,
        after(front + seq![c] + back, c) == Some(back),
        before(front, c) == front,
        after(front, c) is None,
{
    let s = front + seq![c] + back;
    let k = front.len() as int;
    assert forall|i: int| 0 <= i < k implies s[i] != c && front[i] != c by {
        assert(front.contains(front[i]));
    }
    assert(s[k] == c);
    lemma_position_is(s, c, k);
    lemma_position_is(front, c, k);
    assert(s.take(k) =~= front);
    assert(s.skip(k + 1) =~= back);
    assert(front.take(k) =~= front);
}

/// All of a character at the end of a text is stripped, and nothing else.
pub proof fn law_strip_back(s: Seq<char>, c: char)
    ensures
        s.len() > 0 && s.last() != c ==> stripped_back(s, c) == s,
        stripped_back(s.push(c), c) == stripped_back(s, c),
        stripped_back(Seq::empty(), c) == Seq::<char>::empty(),
{
    assert(s.push(c).drop_last() =~= s);
}

/// A text that is short enough is not cut. One that is cut keeps as much of its
/// beginning as leaves room for the ellipsis.
pub proof fn law_truncate(s: Seq<char>, max: nat)
    ensures
        s.len() <= max ==> truncated(s, max) == s,
        s.len() > max && max > 0 ==> {
            let r = truncated(s, max);
            &&& r.len() == max
            &&& r[max - 1] == '…'
            &&& forall|i: int| 0 <= i < max - 1 ==> #[trigger] r[i] == s[i]
        },
{
}

/// Lower-casing ASCII letters changes those from A to Z, each to the letter
/// from a to z at the same place in the alphabet, and nothing else.
pub proof fn law_ascii_lower(s: Seq<char>)
    ensures
        ascii_lower(s).len() == s.len(),
        forall|i: int|
            0 <= i < s.len() ==> if 65 <= s[i] as u32 <= 90 {
                (#[trigger] ascii_lower(s)[i]) as u32 - 97 == s[i] as u32 - 65
            } else {
                ascii_lower(s)[i] == s[i]
            },
{
}

/// The lower-case form of ASCII text is that text with its letters from A to Z
/// in lower case.
pub proof fn law_lower_form_of_ascii(s: Seq<char>)
    requires
        forall|i: int| 0 <= i < s.len() ==> (#[trigger] s[i] as u32) < 128,
    ensures
        lower_form(s) == ascii_lower(s),
{
}

/// Joined lists can be joined again: the separator stands between any two
/// parts of a list, and a list of one text is that text.
pub proof fn law_join(a: Seq<Seq<char>>, b: Seq<Seq<char>>, x: Seq<char>, sep: Seq<char>)
    requires
        a.len() > 0,
        b.len() > 0,
    ensures
        joined(a + b, sep) == joined(a, sep) + sep + joined(b, sep),
        joined(seq![x], sep) == x,
        joined(Seq::empty(), sep) == Seq::<char>::empty(),
    decreases b.len(),
{
    assert((a + b).drop_last() =~= a + b.drop_last());
    assert((a + b).last() == b.last());
    if b.len() == 1 {
        assert(a + b.drop_last() =~= a);
        assert(joined(b, sep) == b[0]);
        assert(joined(a + b, sep) =~= joined(a, sep) + sep + joined(b, sep));
    } else {
        law_join(a, b.drop_last(), x, sep);
        assert(joined(a + b, sep) =~= joined(a, sep) + sep + joined(b, sep));
    }
}

/// The white space characters of Unicode: tab to carriage return, space, next
/// line, no-break space, the Ogham space, the spaces from en quad to hair space,
/// the line and the paragraph separator, the two narrow ones and the
/// ideographic one.
pub proof fn law_white_space(n: u32)
    requires
        n <= 0x10ffff,
        !(0xd800 <= n <= 0xdfff),
    ensures
        white_space(n as char) <==> {
            ||| 9 <= n <= 13
            ||| n == 32 || n == 133 || n == 160 || n == 5760
            ||| 8192 <= n <= 8202
            ||| n == 8232 || n == 8233 || n == 8239 || n == 8287 || n == 12_288
        },
{
    vstd::utf8::char_u32_cast(n as char, n);
}

/// A text with a character beyond ASCII has the lower-case form that Unicode
/// gives it as a whole.
pub proof fn law_lower_form_beyond_ascii(s: Seq<char>, i: int)
    requires
        0 <= i < s.len(),
        s[i] as u32 >= 128,
    ensures
        lower_form(s) == lowercase_of(s),
{
}

} // verus!
