//! Decimal numbers as text.
use vstd::prelude::*;

use crate::text::chars_of;

verus! {

/// The decimal digit for `d`, where `0 <= d < 10`.
pub open spec fn digit_char(d: int) -> char {
    (0x30 + d) as char
}

/// The value of a decimal digit.
pub open spec fn digit_value(c: char) -> int {
    c as int - 0x30
}

/// Whether `c` is an ASCII decimal digit.
pub open spec fn is_digit(c: char) -> bool {
    '0' <= c <= '9'
}

/// Whether every character of `s` is an ASCII decimal digit.
pub open spec fn all_digits(s: Seq<char>) -> bool {
    forall|i: int| 0 <= i < s.len() ==> is_digit(#[trigger] s[i])
}

/// `n` in decimal, without leading zeros.
pub open spec fn decimal(n: nat) -> Seq<char>
    decreases n,
{
    if n < 10 {
        seq![digit_char(n as int)]
    } else {
        decimal(n / 10).push(digit_char((n % 10) as int))
    }
}

/// `n` in decimal, with a minus sign where it is negative.
pub open spec fn decimal_int(n: int) -> Seq<char> {
    if n < 0 {
        seq!['-'] + decimal((-n) as nat)
    } else {
        decimal(n as nat)
    }
}

/// `k` times the digit zero.
pub open spec fn zeros(k: int) -> Seq<char> {
    Seq::new(
        if k > 0 {
            k as nat
        } else {
            0
        },
        |i: int| '0',
    )
}

/// `n` in decimal, filled up with leading zeros to at least `width` digits.
pub open spec fn zero_padded(n: nat, width: nat) -> Seq<char> {
    zeros(width - decimal(n).len()) + decimal(n)
}

/// The number that a sequence of digits denotes.
pub open spec fn value(s: Seq<char>) -> int
    decreases s.len(),
{
    if s.len() == 0 {
        0
    } else {
        value(s.drop_last()) * 10 + digit_value(s.last())
    }
}

/// The number in `0..=max` that `s` denotes: decimal digits, at least one,
/// after an optional plus sign.
pub open spec fn parsed_unsigned(s: Seq<char>, max: int) -> Option<int> {
    let body = if s.len() > 0 && s[0] == '+' {
        s.skip(1)
    } else {
        s
    };
    if body.len() > 0 && all_digits(body) && value(body) <= max {
        Some(value(body))
    } else {
        None
    }
}

/// The number in `min..=max` that `s` denotes: decimal digits, at least one,
/// after an optional plus or minus sign.
pub open spec fn parsed_signed(s: Seq<char>, min: int, max: int) -> Option<int> {
    if s.len() > 0 && s[0] == '-' {
        let body = s.skip(1);
        if body.len() > 0 && all_digits(body) && -value(body) >= min {
            Some(-value(body))
        } else {
            None
        }
    } else {
        parsed_unsigned(s, max)
    }
}

// ── Laws ────────────────────────────────────────────────────────────────────

/// The decimal form of a number consists of digits, has at least one, and
/// denotes that number.
pub proof fn lemma_decimal(n: nat)
    ensures
        decimal(n).len() > 0,
        all_digits(decimal(n)),
        value(decimal(n)) == n,
    decreases n,
{
    if n < 10 {
        assert(decimal(n).drop_last() =~= Seq::empty());
        assert(value(Seq::<char>::empty()) == 0);
    } else {
        lemma_decimal(n / 10);
        assert(decimal(n).drop_last() =~= decimal(n / 10));
    }
}

/// Leading zeros do not change what digits denote.
proof fn lemma_value_zeros(k: int, s: Seq<char>)
    requires
        all_digits(s),
    ensures
        all_digits(zeros(k) + s),
        value(zeros(k) + s) == value(s),
    decreases s.len(), k,
{
    let t = zeros(k) + s;
    if s.len() > 0 {
        assert(t.drop_last() =~= zeros(k) + s.drop_last());
        lemma_value_zeros(k, s.drop_last());
    } else if k > 0 {
        assert(t.drop_last() =~= zeros(k - 1) + s);
        lemma_value_zeros(k - 1, s);
        assert(digit_value('0') == 0);
    } else {
        assert(t =~= s);
    }
}

/// The zero-padded form of a number denotes that number.
pub proof fn lemma_zero_padded(n: nat, width: nat)
    ensures
        zero_padded(n, width).len() > 0,
        zero_padded(n, width).len() >= width,
        all_digits(zero_padded(n, width)),
        value(zero_padded(n, width)) == n,
{
    lemma_decimal(n);
    lemma_value_zeros(width - decimal(n).len(), decimal(n));
}

/// What digits denote is never negative and does not shrink as digits follow.
proof fn lemma_value_grows(s: Seq<char>, i: int)
    requires
        all_digits(s),
        0 <= i <= s.len(),
    ensures
        0 <= value(s.take(i)) <= value(s),
    decreases s.len(),
{
    if i == s.len() {
        assert(s.take(i) =~= s);
        if s.len() > 0 {
            lemma_value_grows(s.drop_last(), s.len() - 1);
            assert(s.drop_last().take(s.len() - 1) =~= s.drop_last());
        }
    } else {
        lemma_value_grows(s.drop_last(), i);
        assert(s.drop_last().take(i) =~= s.take(i));
        assert(is_digit(s[s.len() - 1]));
    }
}

/// A number in range reads back from its decimal form.
pub proof fn lemma_unsigned_round_trip(n: nat, max: int)
    requires
        n <= max,
    ensures
        parsed_unsigned(decimal(n), max) == Some(n as int),
{
    lemma_decimal(n);
    assert(is_digit(decimal(n)[0]));
}

/// A number in range reads back from its decimal form, sign included.
pub proof fn lemma_signed_round_trip(n: int, min: int, max: int)
    requires
        min <= n <= max,
    ensures
        parsed_signed(decimal_int(n), min, max) == Some(n),
{
    if n < 0 {
        lemma_decimal((-n) as nat);
        assert(decimal_int(n).skip(1) =~= decimal((-n) as nat));
    } else {
        lemma_decimal(n as nat);
        assert(is_digit(decimal(n as nat)[0]));
        lemma_unsigned_round_trip(n as nat, max);
    }
}

/// A zero-padded number in range reads back.
pub proof fn lemma_padded_round_trip(n: nat, width: nat, max: int)
    requires
        n <= max,
    ensures
        parsed_unsigned(zero_padded(n, width), max) == Some(n as int),
{
    lemma_zero_padded(n, width);
    assert(is_digit(zero_padded(n, width)[0]));
}

/// What is read as a number is within the bounds.
pub proof fn lemma_parsed_in_range(s: Seq<char>, min: int, max: int)
    requires
        min <= 0 <= max,
    ensures
        parsed_signed(s, min, max) matches Some(n) ==> min <= n <= max,
        parsed_unsigned(s, max) matches Some(n) ==> 0 <= n <= max,
{
    if s.len() > 0 && all_digits(s.skip(1)) {
        lemma_value_grows(s.skip(1), 0);
    }
    if all_digits(s) {
        lemma_value_grows(s, 0);
    }
}

/// The decimal form of a number has no zero in front, and one digit more only
/// where the number reaches the next power of ten.
pub proof fn law_decimal(n: nat, d: nat)
    requires
        d < 10,
    ensures
        n > 0 ==> decimal(n)[0] != '0',
        n > 0 ==> decimal(n * 10 + d) == decimal(n).push((48 + d) as char),
        decimal(d) == seq![(48 + d) as char],
    decreases n,
{
    if n >= 10 {
        law_decimal(n / 10, n % 10);
        lemma_decimal(n / 10);
        assert(decimal(n)[0] == decimal(n / 10)[0]);
    }
    assert((n * 10 + d) / 10 == n && (n * 10 + d) % 10 == d);
}

/// A padded number has at least the width, and no more digits than it needs
/// beyond that.
pub proof fn law_zero_padded(n: nat, width: nat)
    ensures
        all_digits(zero_padded(n, width)),
        value(zero_padded(n, width)) == n,
        decimal(n).len() <= width ==> zero_padded(n, width).len() == width,
        decimal(n).len() >= width ==> zero_padded(n, width) == decimal(n),
{
    lemma_zero_padded(n, width);
    if decimal(n).len() >= width {
        assert(zero_padded(n, width) =~= decimal(n));
    }
}

/// Digits denote the number that has them as its decimal form, with or without
/// zeros in front, and one digit more multiplies by ten and adds the digit.
pub proof fn law_value(s: Seq<char>, d: nat)
    requires
        d < 10,
    ensures
        value(s.push((48 + d) as char)) == value(s) * 10 + d,
        value(Seq::empty()) == 0,
{
    assert(s.push((48 + d) as char).drop_last() =~= s);
}

/// An unsigned number is read from digits, with or without a plus sign before
/// them, up to the greatest allowed. A text with anything else in it is none.
pub proof fn law_unsigned_read(s: Seq<char>, max: int, i: int)
    ensures
        s.len() > 0 && all_digits(s) && value(s) <= max ==> parsed_unsigned(s, max) == Some(
            value(s),
        ) && parsed_unsigned(seq!['+'] + s, max) == Some(value(s)),
        s.len() > 0 && all_digits(s) && value(s) > max ==> parsed_unsigned(s, max) is None,
        0 <= i < s.len() && !('0' <= s[i] <= '9') && !(i == 0 && s[0] == '+')
            ==> parsed_unsigned(s, max) is None,
        s.len() == 0 ==> parsed_unsigned(s, max) is None,
{
    if s.len() > 0 && all_digits(s) {
        assert(is_digit(s[0]));
        assert((seq!['+'] + s).skip(1) =~= s);
    }
    if 0 <= i < s.len() && !('0' <= s[i] <= '9') && !(i == 0 && s[0] == '+') {
        if s[0] == '+' {
            assert(s.skip(1)[i - 1] == s[i]);
            assert(!is_digit(s.skip(1)[i - 1]));
        } else {
            assert(!is_digit(s[i]));
        }
    }
}

/// A signed number is read as an unsigned one, or from digits behind a minus
/// sign as the negative.
pub proof fn law_signed_read(s: Seq<char>, min: int, max: int)
    requires
        s.len() > 0,
        all_digits(s),
    ensures
        value(s) <= max ==> parsed_signed(s, min, max) == Some(value(s)),
        value(s) > max ==> parsed_signed(s, min, max) is None,
        -value(s) >= min ==> parsed_signed(seq!['-'] + s, min, max) == Some(-value(s)),
        -value(s) < min ==> parsed_signed(seq!['-'] + s, min, max) is None,
{
    assert(is_digit(s[0]));
    assert((seq!['-'] + s).skip(1) =~= s);
}

/// Digits denote no negative number.
pub proof fn lemma_digits_value(s: Seq<char>)
    requires
        all_digits(s),
    ensures
        value(s) >= 0,
    decreases s.len(),
{
    if s.len() > 0 {
        lemma_digits_value(s.drop_last());
        assert(is_digit(s[s.len() - 1]));
    }
}

/// A text with anything but digits in it, apart from a sign at its front, is
/// no signed number.
pub proof fn law_unreadable_signed(s: Seq<char>, min: int, max: int, i: int)
    requires
        0 <= i < s.len(),
        !('0' <= s[i] <= '9'),
        !(i == 0 && (s[0] == '+' || s[0] == '-')),
    ensures
        parsed_signed(s, min, max) is None,
{
    law_unsigned_read(s, max, i);
    if s[0] == '-' {
        assert(s.skip(1)[i - 1] == s[i]);
        assert(!is_digit(s.skip(1)[i - 1]));
    }
}

/// A number of no more than four digits, padded to no fewer than it has, has
/// the width and ends in its last digit.
pub proof fn lemma_short(n: nat, width: nat)
    requires
        1 <= width <= 4,
        n < 10_000,
        width <= 3 ==> n < 1000,
        width <= 2 ==> n < 100,
        width == 1 ==> n < 10,
    ensures
        zero_padded(n, width).len() == width,
        zero_padded(n, width).last() == (48 + n % 10) as char,
{
    reveal_with_fuel(decimal, 5);
}

/// A signed number is written as its digits, behind a minus sign where it is
/// negative.
pub proof fn law_decimal_int(n: nat)
    ensures
        decimal_int(n as int) == decimal(n),
        n > 0 ==> decimal_int(-n) == seq!['-'] + decimal(n),
{
}

/// A sign alone is no number, and a plus sign changes nothing.
pub proof fn law_signs(s: Seq<char>, min: int, max: int)
    ensures
        parsed_unsigned(seq!['+'], max) is None,
        parsed_signed(seq!['+'], min, max) is None,
        parsed_signed(seq!['-'], min, max) is None,
        parsed_signed(Seq::empty(), min, max) is None,
        parsed_unsigned(seq!['-'] + s, max) is None,
        s.len() > 0 && all_digits(s) ==> parsed_signed(seq!['+'] + s, min, max) == parsed_signed(
            s,
            min,
            max,
        ),
{
    assert(seq!['+'].skip(1) =~= Seq::<char>::empty());
    assert(seq!['-'].skip(1) =~= Seq::<char>::empty());
    assert(!is_digit((seq!['-'] + s)[0]));
    if s.len() > 0 && all_digits(s) {
        assert(is_digit(s[0]));
        assert((seq!['+'] + s).skip(1) =~= s);
    }
}

// ── Writing ─────────────────────────────────────────────────────────────────

/// Appends `n` in decimal.
pub fn push_decimal(out: &mut String, n: u64)
    ensures
        final(out)@ == old(out)@ + decimal(n as nat),
    decreases n,
{
    if n >= 10 {
        push_decimal(out, n / 10);
    }
    let d: u8 = (n % 10) as u8;
    out.push((0x30 + d) as char);
    assert(out@ =~= old(out)@ + decimal(n as nat));
}

/// `n` in decimal.
pub fn decimal_string(n: u64) -> (r: String)
    ensures
        r@ == decimal(n as nat),
{
    let mut r: String = String::new();
    push_decimal(&mut r, n);
    assert(r@ =~= decimal(n as nat));
    r
}

/// `n` in decimal, with its sign where it is negative.
pub fn decimal_string_signed(n: i64) -> (r: String)
    ensures
        r@ == decimal_int(n as int),
{
    let mut r: String = String::new();
    if n < 0 {
        r.push('-');
        let m: u64 = (-(n as i128)) as u64;
        push_decimal(&mut r, m);
    } else {
        push_decimal(&mut r, n as u64);
    }
    assert(r@ =~= decimal_int(n as int));
    r
}

/// Appends `n` in decimal with at least `width` digits.
pub fn push_padded(out: &mut String, n: u64, width: usize)
    ensures
        final(out)@ == old(out)@ + zero_padded(n as nat, width as nat),
{
    let digits: String = decimal_string(n);
    let len: usize = chars_of(digits.as_str()).len();
    let mut k: usize = len;
    let ghost start = out@;
    assert(start + zeros(k - len) =~= start);
    while k < width
        invariant
            len <= k,
            k == len || k <= width,
            out@ == start + zeros(k - len),
        decreases width - k,
    {
        out.push('0');
        k += 1;
        assert(out@ =~= start + zeros(k - len));
    }
    out.append(digits.as_str());
    assert(zeros(k - len) =~= zeros(width - len));
    assert(out@ =~= start + zero_padded(n as nat, width as nat));
}

// ── Reading ─────────────────────────────────────────────────────────────────

/// Reads the digits of `v` from position `from` on as a number up to `max`.
fn parse_digits(v: &Vec<char>, from: usize, max: u64) -> (r: Option<u64>)
    requires
        from <= v@.len(),
    ensures
        ({
            let body = v@.skip(from as int);
            match r {
                Some(n) => body.len() > 0 && all_digits(body) && n == value(body) && n <= max,
                None => !(body.len() > 0 && all_digits(body) && value(body) <= max),
            }
        }),
{
    let ghost body = v@.skip(from as int);
    if from == v.len() {
        return None;
    }
    let mut acc: u64 = 0;
    let mut i: usize = from;
    assert(body.take(0) =~= Seq::empty());
    while i < v.len()
        invariant
            from <= i <= v@.len(),
            body == v@.skip(from as int),
            all_digits(body.take(i - from)),
            acc == value(body.take(i - from)),
            acc <= max,
        decreases v@.len() - i,
    {
        let c: char = v[i];
        assert(c == body[i - from]);
        if c < '0' || c > '9' {
            assert(!is_digit(body[i - from]));
            return None;
        }
        let next: u128 = acc as u128 * 10 + (c as u32 - 0x30) as u128;
        assert(body.take(i + 1 - from).drop_last() =~= body.take(i - from));
        assert(next == value(body.take(i + 1 - from)));
        if next > max as u128 {
            proof {
                if all_digits(body) {
                    lemma_value_grows(body, i + 1 - from);
                }
            }
            return None;
        }
        acc = next as u64;
        i += 1;
    }
    assert(body.take(i - from) =~= body);
    Some(acc)
}

/// Reads an unsigned number up to `max`.
pub fn parse_unsigned(s: &str, max: u64) -> (r: Option<u64>)
    ensures
        r is Some == parsed_unsigned(s@, max as int) is Some,
        r matches Some(n) ==> parsed_unsigned(s@, max as int) == Some(n as int),
{
    let v: Vec<char> = chars_of(s);
    let from: usize = if v.len() > 0 && v[0] == '+' { 1 } else { 0 };
    assert(v@.skip(0) =~= v@);
    parse_digits(&v, from, max)
}

/// Reads a signed number in `min..=max`.
pub fn parse_signed(s: &str, min: i64, max: i64) -> (r: Option<i64>)
    requires
        min <= 0 <= max,
    ensures
        r is Some == parsed_signed(s@, min as int, max as int) is Some,
        r matches Some(n) ==> parsed_signed(s@, min as int, max as int) == Some(n as int),
{
    let v: Vec<char> = chars_of(s);
    if v.len() > 0 && v[0] == '-' {
        let limit: u64 = (-(min as i128)) as u64;
        match parse_digits(&v, 1, limit) {
            Some(m) => Some((-(m as i128)) as i64),
            None => None,
        }
    } else {
        match parse_unsigned(s, max as u64) {
            Some(m) => Some(m as i64),
            None => None,
        }
    }
}

} // verus!
