//! Fingerprints of byte strings and the order of texts that enter them.
use vstd::prelude::*;
use vstd::relations;
use vstd::seq_lib;
use vstd::utf8::encode_utf8;

verus! {

// ── SHA-256 ─────────────────────────────────────────────────────────────────

/// The SHA-256 digest of a byte string, as `sha2::Sha256` computes it.
pub uninterp spec fn sha256_of(data: Seq<u8>) -> Seq<u8>;

/// `<sha2::Sha256 as sha2::Digest>::digest`: the digest depends on the bytes
/// alone, and it is 32 bytes long.
#[verifier::external_body]
fn sha256(data: &[u8]) -> (r: Vec<u8>)
    ensures
        r@ == sha256_of(data@),
        r@.len() == 32,
{
    <sha2::Sha256 as sha2::Digest>::digest(data).to_vec()
}

// ── Hexadecimal ─────────────────────────────────────────────────────────────

/// The lower-case hexadecimal digit for `d`, where `0 <= d < 16`.
pub open spec fn hex_digit(d: int) -> char {
    if d < 10 {
        (0x30 + d) as char
    } else {
        (0x61 + d - 10) as char
    }
}

/// Two hexadecimal digits for each byte, the high one first.
pub open spec fn hex_text(bytes: Seq<u8>) -> Seq<char>
    decreases bytes.len(),
{
    if bytes.len() == 0 {
        Seq::empty()
    } else {
        hex_text(bytes.drop_last()).push(hex_digit(bytes.last() as int / 16)).push(
            hex_digit(bytes.last() as int % 16),
        )
    }
}

fn hex_char(d: u8) -> (c: char)
    requires
        d < 16,
    ensures
        c == hex_digit(d as int),
{
    if d < 10 {
        (0x30 + d) as char
    } else {
        (0x61 + (d - 10)) as char
    }
}

/// The bytes in lower-case hexadecimal.
pub fn hex_encode(bytes: &[u8]) -> (r: String)
    ensures
        r@ == hex_text(bytes@),
{
    let mut r: String = String::new();
    let mut i: usize = 0;
    while i < bytes.len()
        invariant
            i <= bytes@.len(),
            r@ == hex_text(bytes@.take(i as int)),
        decreases bytes@.len() - i,
    {
        assert(bytes@.take(i + 1).drop_last() =~= bytes@.take(i as int));
        r.push(hex_char(bytes[i] / 16));
        r.push(hex_char(bytes[i] % 16));
        i += 1;
    }
    assert(bytes@.take(i as int) =~= bytes@);
    r
}

/// Each byte takes two digits.
pub proof fn law_hex_len(bytes: Seq<u8>)
    ensures
        hex_text(bytes).len() == 2 * bytes.len(),
    decreases bytes.len(),
{
    if bytes.len() > 0 {
        law_hex_len(bytes.drop_last());
    }
}

/// Different bytes have different hexadecimal forms.
pub proof fn law_hex_injective(a: Seq<u8>, b: Seq<u8>)
    requires
        hex_text(a) == hex_text(b),
    ensures
        a == b,
    decreases a.len(),
{
    law_hex_len(a);
    law_hex_len(b);
    if a.len() > 0 {
        let x = hex_text(a);
        let y = hex_text(b);
        assert(x.drop_last().drop_last() =~= hex_text(a.drop_last()));
        assert(y.drop_last().drop_last() =~= hex_text(b.drop_last()));
        law_hex_injective(a.drop_last(), b.drop_last());
        assert(x[x.len() - 1] == hex_digit(a.last() as int % 16));
        assert(x[x.len() - 2] == hex_digit(a.last() as int / 16));
        assert(y[y.len() - 1] == hex_digit(b.last() as int % 16));
        assert(y[y.len() - 2] == hex_digit(b.last() as int / 16));
        assert(a.last() == b.last());
        assert(a =~= a.drop_last().push(a.last()));
        assert(b =~= b.drop_last().push(b.last()));
    } else {
        assert(a =~= b);
    }
}

/// The SHA-256 digest of the bytes, in lower-case hexadecimal.
pub fn sha256_hex(data: &[u8]) -> (r: String)
    ensures
        r@ == hex_text(sha256_of(data@)),
        r@.len() == 64,
{
    let d: Vec<u8> = sha256(data);
    proof {
        law_hex_len(d@);
    }
    hex_encode(d.as_slice())
}

// ── The order of texts ──────────────────────────────────────────────────────

/// Lexicographic order of byte strings.
pub open spec fn bytes_le(a: Seq<u8>, b: Seq<u8>) -> bool
    decreases a.len(),
{
    if a.len() == 0 {
        true
    } else if b.len() == 0 {
        false
    } else {
        a[0] < b[0] || (a[0] == b[0] && bytes_le(a.drop_first(), b.drop_first()))
    }
}

/// The order of texts: that of their UTF-8 bytes.
pub open spec fn text_le(a: Seq<char>, b: Seq<char>) -> bool {
    bytes_le(encode_utf8(a), encode_utf8(b))
}

/// The order of texts as a relation.
pub open spec fn text_order() -> spec_fn(Seq<char>, Seq<char>) -> bool {
    |a: Seq<char>, b: Seq<char>| text_le(a, b)
}

/// The texts of `list` in ascending order.
pub open spec fn in_order(list: Seq<Seq<char>>) -> Seq<Seq<char>> {
    list.sort_by(text_order())
}

proof fn lemma_bytes_le_total(a: Seq<u8>, b: Seq<u8>)
    ensures
        bytes_le(a, b) || bytes_le(b, a),
        bytes_le(a, b) && bytes_le(b, a) ==> a == b,
    decreases a.len(),
{
    if a.len() > 0 && b.len() > 0 {
        lemma_bytes_le_total(a.drop_first(), b.drop_first());
        if a[0] == b[0] && a.drop_first() == b.drop_first() {
            assert(a =~= seq![a[0]] + a.drop_first());
            assert(b =~= seq![b[0]] + b.drop_first());
        }
    } else if a.len() == 0 && b.len() == 0 {
        assert(a =~= b);
    }
}

proof fn lemma_bytes_le_transitive(a: Seq<u8>, b: Seq<u8>, c: Seq<u8>)
    requires
        bytes_le(a, b),
        bytes_le(b, c),
    ensures
        bytes_le(a, c),
    decreases a.len(),
{
    if a.len() > 0 && b.len() > 0 && c.len() > 0 && a[0] == b[0] && b[0] == c[0] {
        lemma_bytes_le_transitive(a.drop_first(), b.drop_first(), c.drop_first());
    }
}

/// Texts are totally ordered.
pub proof fn law_text_order()
    ensures
        relations::total_ordering(text_order()),
{
    let le = text_order();
    assert forall|x: Seq<char>| #[trigger] le(x, x) by {
        lemma_bytes_le_total(encode_utf8(x), encode_utf8(x));
    }
    assert forall|x: Seq<char>, y: Seq<char>| #[trigger] le(x, y) && #[trigger] le(y, x) implies x
        == y by {
        lemma_bytes_le_total(encode_utf8(x), encode_utf8(y));
        vstd::utf8::encode_utf8_decode_utf8(x);
        vstd::utf8::encode_utf8_decode_utf8(y);
    }
    assert forall|x: Seq<char>, y: Seq<char>| #[trigger] le(x, y) || #[trigger] le(y, x) by {
        lemma_bytes_le_total(encode_utf8(x), encode_utf8(y));
    }
    assert forall|x: Seq<char>, y: Seq<char>, z: Seq<char>| #[trigger]
        le(x, y) && #[trigger] le(y, z) implies le(x, z) by {
        lemma_bytes_le_transitive(encode_utf8(x), encode_utf8(y), encode_utf8(z));
    }
}

/// The ordered list depends on which texts are in it, not on where they stood.
pub proof fn law_in_order_of_permutation(a: Seq<Seq<char>>, b: Seq<Seq<char>>)
    requires
        a.to_multiset() == b.to_multiset(),
    ensures
        in_order(a) == in_order(b),
{
    law_text_order();
    a.lemma_sort_by_ensures(text_order());
    b.lemma_sort_by_ensures(text_order());
    seq_lib::lemma_sorted_unique(in_order(a), in_order(b), text_order());
}

/// Whether `a` stands at or before `b` in the order of texts.
pub fn text_at_most(a: &str, b: &str) -> (r: bool)
    ensures
        r == text_le(a@, b@),
{
    let x: &[u8] = a.as_bytes();
    let y: &[u8] = b.as_bytes();
    let mut i: usize = 0;
    assert(x@.skip(0) =~= x@);
    assert(y@.skip(0) =~= y@);
    while i < x.len()
        invariant
            i <= x@.len(),
            i <= y@.len(),
            x@ == encode_utf8(a@),
            y@ == encode_utf8(b@),
            bytes_le(x@, y@) == bytes_le(x@.skip(i as int), y@.skip(i as int)),
        ensures
            i == x@.len(),
        decreases x@.len() - i,
    {
        if i == y.len() || x[i] > y[i] {
            return false;
        }
        if x[i] < y[i] {
            return true;
        }
        assert(x@.skip(i as int).drop_first() =~= x@.skip(i + 1));
        assert(y@.skip(i as int).drop_first() =~= y@.skip(i + 1));
        i += 1;
    }
    true
}

/// Inserting behind all that is smaller and before all that is greater keeps
/// the order.
proof fn lemma_insert_sorted(s: Seq<Seq<char>>, k: int, x: Seq<char>)
    requires
        relations::sorted_by(s, text_order()),
        0 <= k <= s.len(),
        forall|j: int| 0 <= j < k ==> text_le(#[trigger] s[j], x),
        k < s.len() ==> !text_le(s[k], x),
    ensures
        relations::sorted_by(s.insert(k, x), text_order()),
{
    law_text_order();
    let le = text_order();
    let t = s.insert(k, x);
    assert forall|i: int, j: int| 0 <= i < j < t.len() implies #[trigger] le(t[i], t[j]) by {
        if i < k && j < k {
            assert(le(s[i], s[j]));
        } else if i < k && j == k {
            assert(text_le(s[i], x));
        } else if i < k {
            assert(le(s[i], s[j - 1]));
        } else if i == k {
            assert(le(s[k], x) || le(x, s[k]));
            if j - 1 > k {
                assert(le(s[k], s[j - 1]));
            }
        } else {
            assert(le(s[i - 1], s[j - 1]));
        }
    }
}

/// The texts in ascending order.
pub fn sort_texts(list: &[String]) -> (r: Vec<String>)
    ensures
        r.deep_view() == in_order(list.deep_view()),
{
    broadcast use vstd::seq_lib::group_to_multiset_ensures;
    broadcast use vstd::multiset::group_multiset_axioms;

    let mut r: Vec<String> = Vec::new();
    let mut i: usize = 0;
    let ghost all = list.deep_view();
    assert(all.take(0) =~= Seq::empty());
    assert(r.deep_view() =~= Seq::empty());
    while i < list.len()
        invariant
            i <= list@.len(),
            all == list.deep_view(),
            relations::sorted_by(r.deep_view(), text_order()),
            r.deep_view().to_multiset() == all.take(i as int).to_multiset(),
        decreases list@.len() - i,
    {
        let ghost before = r.deep_view();
        let mut k: usize = 0;
        while k < r.len() && text_at_most(r[k].as_str(), list[i].as_str())
            invariant
                i < list@.len(),
                k <= r@.len(),
                before == r.deep_view(),
                forall|j: int| 0 <= j < k ==> text_le(#[trigger] before[j], list@[i as int]@),
            ensures
                k < r@.len() ==> !text_le(before[k as int], list@[i as int]@),
            decreases r@.len() - k,
        {
            assert(before[k as int] == r@[k as int]@);
            k += 1;
        }
        let ghost x = list@[i as int]@;
        proof {
            lemma_insert_sorted(before, k as int, x);
        }
        r.insert(k, list[i].clone());
        assert(r.deep_view() =~= before.insert(k as int, x));
        assert(all.take(i + 1) =~= all.take(i as int).push(x));
        proof {
            seq_lib::to_multiset_insert(before, k as int, x);
            seq_lib::to_multiset_build(all.take(i as int), x);
        }
        i += 1;
    }
    proof {
        assert(all.take(i as int) =~= all);
        law_text_order();
        all.lemma_sort_by_ensures(text_order());
        seq_lib::lemma_sorted_unique(r.deep_view(), in_order(all), text_order());
    }
    r
}

/// An ordered list holds the same texts as the list, each as often, and of two
/// neighbours the first stands at or before the second.
pub proof fn law_in_order(list: Seq<Seq<char>>)
    ensures
        in_order(list).to_multiset() == list.to_multiset(),
        forall|i: int, j: int|
            0 <= i < j < in_order(list).len() ==> text_le(
                #[trigger] in_order(list)[i],
                #[trigger] in_order(list)[j],
            ),
{
    law_text_order();
    list.lemma_sort_by_ensures(text_order());
    let r = in_order(list);
    assert forall|i: int, j: int| 0 <= i < j < r.len() implies text_le(
        #[trigger] r[i],
        #[trigger] r[j],
    ) by {
        assert(text_order()(r[i], r[j]));
    }
}

/// Bytes are ordered by the first place at which they differ, and the
/// beginning of a byte string stands before it.
pub proof fn law_byte_order(front: Seq<u8>, a: u8, b: u8, x: Seq<u8>, y: Seq<u8>)
    ensures
        a < b ==> bytes_le(front + seq![a] + x, front + seq![b] + y) && !bytes_le(
            front + seq![b] + y,
            front + seq![a] + x,
        ),
        bytes_le(front, front + x),
    decreases front.len(),
{
    let p = front + seq![a] + x;
    let q = front + seq![b] + y;
    if front.len() > 0 {
        law_byte_order(front.drop_first(), a, b, x, y);
        assert(p.drop_first() =~= front.drop_first() + seq![a] + x);
        assert(q.drop_first() =~= front.drop_first() + seq![b] + y);
        assert((front + x).drop_first() =~= front.drop_first() + x);
    } else {
        assert(p[0] == a && q[0] == b);
    }
}

/// The number that a lower-case hexadecimal digit stands for.
pub open spec fn hex_value(c: char) -> int {
    if '0' <= c <= '9' {
        c as int - 48
    } else {
        c as int - 87
    }
}

/// Every byte reads back from its two digits, which are among 0 to 9 and a
/// to f.
pub proof fn law_hex_reads_back(bytes: Seq<u8>, i: int)
    requires
        0 <= i < bytes.len(),
    ensures
        hex_text(bytes).len() == 2 * bytes.len(),
        ({
            let high = hex_text(bytes)[2 * i];
            let low = hex_text(bytes)[2 * i + 1];
            &&& '0' <= high <= '9' || 'a' <= high <= 'f'
            &&& '0' <= low <= '9' || 'a' <= low <= 'f'
            &&& bytes[i] == 16 * hex_value(high) + hex_value(low)
        }),
    decreases bytes.len(),
{
    law_hex_len(bytes);
    law_hex_len(bytes.drop_last());
    if i < bytes.len() - 1 {
        law_hex_reads_back(bytes.drop_last(), i);
    }
}

/// Texts that stand in order already stay as they are.
pub proof fn lemma_in_order_already(list: Seq<Seq<char>>)
    requires
        forall|i: int, j: int|
            0 <= i < j < list.len() ==> text_le(#[trigger] list[i], #[trigger] list[j]),
    ensures
        in_order(list) == list,
{
    law_text_order();
    list.lemma_sort_by_ensures(text_order());
    let le = text_order();
    assert forall|i: int, j: int| 0 <= i < j < list.len() implies #[trigger] le(
        list[i],
        list[j],
    ) by {
        assert(text_le(list[i], list[j]));
    }
    seq_lib::lemma_sorted_unique(in_order(list), list, text_order());
}

} // verus!
