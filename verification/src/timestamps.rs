//! Timestamps of history items: `YYYY-MM-DDTHH:MM:SS.mmmZ`, always in UTC.
use vstd::arithmetic::div_mod;
use vstd::prelude::*;

use crate::calendar;
use crate::numbers;
use crate::text;

verus! {

/// A moment in calendar terms, as its text gives it: the parts are numbers
/// and need not name a day that there is.
#[derive(Debug, Clone, Copy, PartialEq, Eq, Structural)]
pub struct CivilTime {
    pub year: i32,
    pub month: u32,
    pub day: u32,
    pub hour: u32,
    pub minute: u32,
    pub second: u32,
}

impl CivilTime {
    /// Whether the day count of this moment stays within 32-bit numbers.
    pub open spec fn fits(self) -> bool {
        calendar::civil_fits(self.year as int, self.month as int, self.day as int)
    }

    /// The Unix time of this moment.
    pub open spec fn unix_secs(self) -> int {
        calendar::civil_secs(
            self.year as int,
            self.month as int,
            self.day as int,
            self.hour as int,
            self.minute as int,
            self.second as int,
        )
    }
}

// ── Writing ─────────────────────────────────────────────────────────────────

/// Year, month and day as `YYYY-MM-DD`.
pub open spec fn date_text(y: nat, mo: nat, d: nat) -> Seq<char> {
    numbers::zero_padded(y, 4) + seq!['-'] + (numbers::zero_padded(mo, 2) + seq!['-']
        + numbers::zero_padded(d, 2))
}

/// Hour, minute and second as `HH:MM:SS`.
pub open spec fn clock_text(h: nat, mi: nat, s: nat) -> Seq<char> {
    numbers::zero_padded(h, 2) + seq![':'] + (numbers::zero_padded(mi, 2) + seq![':']
        + numbers::zero_padded(s, 2))
}

/// The timestamp of a moment given in calendar terms and milliseconds.
pub open spec fn stamp_text(y: nat, mo: nat, d: nat, h: nat, mi: nat, s: nat, ms: nat) -> Seq<
    char,
> {
    date_text(y, mo, d) + seq!['T'] + (clock_text(h, mi, s) + seq!['.'] + numbers::zero_padded(
        ms,
        3,
    )) + seq!['Z']
}

/// Whether `t` is the timestamp of the moment `ms` milliseconds after the
/// start of 1970, written for the day `y`-`mo`-`d`.
pub open spec fn stamp_on_day(t: Seq<char>, ms: nat, y: nat, mo: nat, d: nat) -> bool {
    let secs = ms / 1000;
    &&& calendar::valid_date(y as int, mo as int, d as int)
    &&& calendar::epoch_days(y as int, mo as int, d as int) == secs / 86_400
    &&& t == stamp_text(
        y,
        mo,
        d,
        secs % 86_400 / 3600,
        secs % 3600 / 60,
        secs % 60,
        ms % 1000,
    )
}

/// Whether `t` is the timestamp of the moment `ms` milliseconds after the
/// start of 1970.
pub open spec fn is_stamp_of(t: Seq<char>, ms: nat) -> bool {
    exists|y: nat, mo: nat, d: nat| stamp_on_day(t, ms, y, mo, d)
}

/// Appends a date.
fn push_date(out: &mut String, y: u64, mo: u64, d: u64)
    ensures
        final(out)@ == old(out)@ + date_text(y as nat, mo as nat, d as nat),
{
    numbers::push_padded(out, y, 4);
    out.push('-');
    numbers::push_padded(out, mo, 2);
    out.push('-');
    numbers::push_padded(out, d, 2);
}

/// Appends a time of day.
fn push_clock(out: &mut String, h: u64, mi: u64, s: u64)
    ensures
        final(out)@ == old(out)@ + clock_text(h as nat, mi as nat, s as nat),
{
    numbers::push_padded(out, h, 2);
    out.push(':');
    numbers::push_padded(out, mi, 2);
    out.push(':');
    numbers::push_padded(out, s, 2);
}

/// The text of a moment given in calendar terms.
fn format_stamp(y: u64, mo: u64, d: u64, h: u64, mi: u64, s: u64, ms: u64) -> (r: String)
    ensures
        r@ == stamp_text(
            y as nat,
            mo as nat,
            d as nat,
            h as nat,
            mi as nat,
            s as nat,
            ms as nat,
        ),
{
    let mut r: String = String::new();
    push_date(&mut r, y, mo, d);
    r.push('T');
    push_clock(&mut r, h, mi, s);
    r.push('.');
    numbers::push_padded(&mut r, ms, 3);
    r.push('Z');
    r
}

/// The timestamp of the moment `ms` milliseconds after the start of 1970.
pub fn format_unix_ms_iso8601(ms: u64) -> (r: String)
    ensures
        is_stamp_of(r@, ms as nat),
{
    let secs: i64 = (ms / 1000) as i64;
    let (y, mo, d, h, mi, s) = calendar::unix_secs_to_utc_parts(secs);
    proof {
        let year = choose|year: i64|
            y == #[trigger] (year as i32) && calendar::valid_date(year as int, mo as int, d as int)
                && calendar::epoch_days(year as int, mo as int, d as int) == secs as int / 86_400;
        lemma_year_bound(year as int, mo as int, d as int);
    }
    let r: String = format_stamp(
        y as u64,
        mo as u64,
        d as u64,
        h as u64,
        mi as u64,
        s as u64,
        ms % 1000,
    );
    assert(stamp_on_day(r@, ms as nat, y as nat, mo as nat, d as nat));
    r
}

/// The day count grows with the year by at least 365 days.
proof fn lemma_year_bound(y: int, mo: int, d: int)
    requires
        calendar::valid_date(y, mo, d),
        0 <= calendar::epoch_days(y, mo, d) <= 300_000_000_000,
    ensures
        1970 <= y <= i32::MAX,
{
    if y < 1970 {
        calendar::law_epoch();
        assert(calendar::valid_date(1970, 1, 1));
        calendar::law_days_grow(y, mo, d, 1970, 1, 1);
    }
    if y > 850_000_000 {
        let early = 850_000_000int;
        assert(calendar::valid_date(early, 1, 1));
        calendar::law_days_grow(early, 1, 1, y, mo, d);
        assert(calendar::days_before_month(early, 1) == 0);
    }
}

// ── Reading ─────────────────────────────────────────────────────────────────

/// The first three fields of `s`, which `sep` separates, where it has three.
pub open spec fn three_fields(s: Seq<char>, sep: char) -> Option<(Seq<char>, Seq<char>, Seq<char>)> {
    match text::after(s, sep) {
        Some(rest) => match text::after(rest, sep) {
            Some(last) => Some(
                (text::before(s, sep), text::before(rest, sep), text::before(last, sep)),
            ),
            None => None,
        },
        None => None,
    }
}

/// The moment that a date and a time of day denote.
pub open spec fn parsed_parts(date: Seq<char>, time: Seq<char>) -> Option<CivilTime> {
    match (three_fields(date, '-'), three_fields(text::before(time, '.'), ':')) {
        (Some((y, mo, d)), Some((h, mi, s))) => match (
            numbers::parsed_signed(y, i32::MIN as int, i32::MAX as int),
            numbers::parsed_unsigned(mo, u32::MAX as int),
            numbers::parsed_unsigned(d, u32::MAX as int),
            numbers::parsed_unsigned(h, u32::MAX as int),
            numbers::parsed_unsigned(mi, u32::MAX as int),
            numbers::parsed_unsigned(s, u32::MAX as int),
        ) {
            (Some(y), Some(mo), Some(d), Some(h), Some(mi), Some(s)) => Some(
                CivilTime {
                    year: y as i32,
                    month: mo as u32,
                    day: d as u32,
                    hour: h as u32,
                    minute: mi as u32,
                    second: s as u32,
                },
            ),
            _ => None,
        },
        _ => None,
    }
}

/// The moment that a timestamp denotes: a date, a `T`, and a time of day of
/// which only what stands before a dot counts. White space around it and any
/// `Z` at its end are left aside.
pub open spec fn parsed_stamp(s: Seq<char>) -> Option<CivilTime> {
    let body = text::stripped_back(text::trimmed(s), 'Z');
    match text::after(body, 'T') {
        Some(time) => parsed_parts(text::before(body, 'T'), time),
        None => None,
    }
}

/// The first three fields of the text, where it has three.
fn split_three(s: &str, sep: char) -> (r: Option<(String, String, String)>)
    ensures
        match r {
            Some((a, b, c)) => three_fields(s@, sep) == Some((a@, b@, c@)),
            None => three_fields(s@, sep) is None,
        },
{
    let (a, rest) = text::split_once(s, sep);
    match rest {
        Some(rest) => {
            let (b, last) = text::split_once(rest.as_str(), sep);
            match last {
                Some(last) => {
                    let (c, _) = text::split_once(last.as_str(), sep);
                    Some((a, b, c))
                },
                None => None,
            }
        },
        None => None,
    }
}

/// Reads an unsigned 32-bit number.
fn parse_u32(s: &str) -> (r: Option<u32>)
    ensures
        r is Some == numbers::parsed_unsigned(s@, u32::MAX as int) is Some,
        r matches Some(n) ==> numbers::parsed_unsigned(s@, u32::MAX as int) == Some(n as int),
{
    match numbers::parse_unsigned(s, u32::MAX as u64) {
        Some(n) => Some(n as u32),
        None => None,
    }
}

/// Reads the parts of a timestamp.
pub fn parse_stamp(s: &str) -> (r: Option<CivilTime>)
    ensures
        r == parsed_stamp(s@),
{
    let body: String = text::strip_back(text::trim(s).as_str(), 'Z');
    let (date, time) = text::split_once(body.as_str(), 'T');
    let time: String = match time {
        Some(t) => t,
        None => return None,
    };
    let (clock, _) = text::split_once(time.as_str(), '.');
    let (y, mo, d) = match split_three(date.as_str(), '-') {
        Some(f) => f,
        None => return None,
    };
    let (h, mi, sec) = match split_three(clock.as_str(), ':') {
        Some(f) => f,
        None => return None,
    };
    let year: i32 = match numbers::parse_signed(y.as_str(), i32::MIN as i64, i32::MAX as i64) {
        Some(n) => n as i32,
        None => return None,
    };
    let month: u32 = match parse_u32(mo.as_str()) {
        Some(n) => n,
        None => return None,
    };
    let day: u32 = match parse_u32(d.as_str()) {
        Some(n) => n,
        None => return None,
    };
    let hour: u32 = match parse_u32(h.as_str()) {
        Some(n) => n,
        None => return None,
    };
    let minute: u32 = match parse_u32(mi.as_str()) {
        Some(n) => n,
        None => return None,
    };
    let second: u32 = match parse_u32(sec.as_str()) {
        Some(n) => n,
        None => return None,
    };
    Some(CivilTime { year, month, day, hour, minute, second })
}

/// The Unix time of a timestamp.
pub fn parse_iso8601_to_unix_secs(s: &str) -> (r: Option<i64>)
    requires
        parsed_stamp(s@) matches Some(c) ==> c.fits(),
    ensures
        match parsed_stamp(s@) {
            Some(c) => r matches Some(n) && n == c.unix_secs(),
            None => r is None,
        },
{
    match parse_stamp(s) {
        Some(c) => Some(
            calendar::civil_to_unix_secs(c.year, c.month, c.day, c.hour, c.minute, c.second),
        ),
        None => None,
    }
}

// ── What is read back of what was written ───────────────────────────────────

/// A text cut at its first `c`.
proof fn lemma_cut(a: Seq<char>, c: char, b: Seq<char>)
    requires
        !a.contains(c),
    ensures
        text::before(a + seq![c] + b, c) == a,
        text::after(a + seq![c] + b, c) == Some(b),
{
    let s = a + seq![c] + b;
    assert forall|i: int| 0 <= i < a.len() implies s[i] != c by {
        assert(s[i] == a[i]);
        assert(a.contains(a[i]));
    }
    assert(s[a.len() as int] == c);
    text::lemma_position_is(s, c, a.len() as int);
    assert(s.take(a.len() as int) =~= a);
    assert(s.skip(a.len() as int + 1) =~= b);
}

/// A text without `c` is all that stands before it.
proof fn lemma_uncut(a: Seq<char>, c: char)
    requires
        !a.contains(c),
    ensures
        text::before(a, c) == a,
{
    assert forall|i: int| 0 <= i < a.len() implies a[i] != c by {
        assert(a.contains(a[i]));
    }
    text::lemma_position_is(a, c, a.len() as int);
    assert(a.take(a.len() as int) =~= a);
}

/// Digits hold no separator.
proof fn lemma_digits_hold(s: Seq<char>, c: char)
    requires
        numbers::all_digits(s),
        !numbers::is_digit(c),
    ensures
        !s.contains(c),
{
    if s.contains(c) {
        let i = choose|i: int| 0 <= i < s.len() && s[i] == c;
        assert(numbers::is_digit(s[i]));
    }
}

/// A concatenation holds only what its parts hold.
proof fn lemma_holds_not(a: Seq<char>, b: Seq<char>, c: char)
    requires
        !a.contains(c),
        !b.contains(c),
    ensures
        !(a + b).contains(c),
{
    let s = a + b;
    if s.contains(c) {
        let i = choose|i: int| 0 <= i < s.len() && s[i] == c;
        if i < a.len() {
            assert(a[i] == c);
        } else {
            assert(b[i - a.len()] == c);
        }
    }
}

/// Three runs of digits with separators between them come apart again.
proof fn lemma_three(a: Seq<char>, b: Seq<char>, c: Seq<char>, sep: char, other: char)
    requires
        numbers::all_digits(a),
        numbers::all_digits(b),
        numbers::all_digits(c),
        !numbers::is_digit(sep),
        !numbers::is_digit(other),
        sep != other,
    ensures
        three_fields(a + seq![sep] + (b + seq![sep] + c), sep) == Some((a, b, c)),
        !(a + seq![sep] + (b + seq![sep] + c)).contains(other),
{
    lemma_digits_hold(a, sep);
    lemma_digits_hold(b, sep);
    lemma_digits_hold(c, sep);
    lemma_cut(a, sep, b + seq![sep] + c);
    lemma_cut(b, sep, c);
    lemma_uncut(c, sep);
    lemma_digits_hold(a, other);
    lemma_digits_hold(b, other);
    lemma_digits_hold(c, other);
    assert(!seq![sep].contains(other));
    lemma_holds_not(b, seq![sep], other);
    lemma_holds_not(b + seq![sep], c, other);
    lemma_holds_not(a, seq![sep], other);
    lemma_holds_not(a + seq![sep], b + seq![sep] + c, other);
}

/// A timestamp as it is written reads back with all its parts.
pub proof fn law_stamp_reads_back(y: nat, mo: nat, d: nat, h: nat, mi: nat, s: nat, ms: nat)
    requires
        y <= i32::MAX,
        mo <= u32::MAX,
        d <= u32::MAX,
        h <= u32::MAX,
        mi <= u32::MAX,
        s <= u32::MAX,
    ensures
        parsed_stamp(stamp_text(y, mo, d, h, mi, s, ms)) == Some(
            (CivilTime {
                year: y as i32,
                month: mo as u32,
                day: d as u32,
                hour: h as u32,
                minute: mi as u32,
                second: s as u32,
            }),
        ),
{
    numbers::lemma_zero_padded(y, 4);
    numbers::lemma_zero_padded(mo, 2);
    numbers::lemma_zero_padded(d, 2);
    numbers::lemma_zero_padded(h, 2);
    numbers::lemma_zero_padded(mi, 2);
    numbers::lemma_zero_padded(s, 2);
    numbers::lemma_zero_padded(ms, 3);
    let date = date_text(y, mo, d);
    let clock = clock_text(h, mi, s);
    let frac = numbers::zero_padded(ms, 3);
    let body = date + seq!['T'] + (clock + seq!['.'] + frac);
    let t = stamp_text(y, mo, d, h, mi, s, ms);
    assert(t == body + seq!['Z']);
    lemma_three(
        numbers::zero_padded(y, 4),
        numbers::zero_padded(mo, 2),
        numbers::zero_padded(d, 2),
        '-',
        'T',
    );
    lemma_three(
        numbers::zero_padded(h, 2),
        numbers::zero_padded(mi, 2),
        numbers::zero_padded(s, 2),
        ':',
        '.',
    );
    lemma_cut(date, 'T', clock + seq!['.'] + frac);
    lemma_cut(clock, '.', frac);
    // The stamp begins with a digit and ends with a `Z` behind a digit.
    assert(t.first() == numbers::zero_padded(y, 4)[0]);
    assert(numbers::is_digit(t.first()));
    assert(text::trimmed_front(t) == t);
    assert(t.last() == 'Z');
    assert(text::trimmed_back(t) == t);
    assert(t.drop_last() =~= body);
    assert(body.last() == frac.last());
    assert(numbers::is_digit(frac[frac.len() - 1]));
    assert(text::stripped_back(body, 'Z') == body);
    assert(text::stripped_back(t, 'Z') == body);
    lemma_read_numbers(y, mo, d, h, mi, s);
}

/// The numbers of a timestamp read back from their padded forms.
proof fn lemma_read_numbers(y: nat, mo: nat, d: nat, h: nat, mi: nat, s: nat)
    requires
        y <= i32::MAX,
        mo <= u32::MAX,
        d <= u32::MAX,
        h <= u32::MAX,
        mi <= u32::MAX,
        s <= u32::MAX,
    ensures
        numbers::parsed_signed(numbers::zero_padded(y, 4), i32::MIN as int, i32::MAX as int)
            == Some(y as int),
        numbers::parsed_unsigned(numbers::zero_padded(mo, 2), u32::MAX as int) == Some(mo as int),
        numbers::parsed_unsigned(numbers::zero_padded(d, 2), u32::MAX as int) == Some(d as int),
        numbers::parsed_unsigned(numbers::zero_padded(h, 2), u32::MAX as int) == Some(h as int),
        numbers::parsed_unsigned(numbers::zero_padded(mi, 2), u32::MAX as int) == Some(mi as int),
        numbers::parsed_unsigned(numbers::zero_padded(s, 2), u32::MAX as int) == Some(s as int),
{
    numbers::lemma_zero_padded(y, 4);
    assert(numbers::is_digit(numbers::zero_padded(y, 4)[0]));
    numbers::lemma_padded_round_trip(y, 4, i32::MAX as int);
    numbers::lemma_padded_round_trip(mo, 2, u32::MAX as int);
    numbers::lemma_padded_round_trip(d, 2, u32::MAX as int);
    numbers::lemma_padded_round_trip(h, 2, u32::MAX as int);
    numbers::lemma_padded_round_trip(mi, 2, u32::MAX as int);
    numbers::lemma_padded_round_trip(s, 2, u32::MAX as int);
}

/// Days, hours, minutes and seconds add up.
proof fn lemma_clock_adds(secs: nat)
    ensures
        secs / 86_400 * 86_400 + secs % 86_400 / 3600 * 3600 + secs % 3600 / 60 * 60 + secs % 60
            == secs,
{
    let day = secs % 86_400;
    assert(day % 3600 == secs % 3600) by {
        div_mod::lemma_mod_mod(secs as int, 3600, 24);
    }
    let hour = secs % 3600;
    assert(hour % 60 == secs % 60) by {
        div_mod::lemma_mod_mod(secs as int, 60, 60);
    }
}

/// A day of a year that fits has a day count that fits.
proof fn lemma_date_fits(y: int, mo: int, d: int)
    requires
        calendar::valid_date(y, mo, d),
        0 <= y <= i32::MAX,
    ensures
        calendar::civil_fits(y, mo, d),
{
    let yoe = calendar::march_year(y, mo) % 400;
    assert(0 <= yoe < 400);
    assert(0 <= calendar::march_month(mo) <= 11);
}

/// The timestamp of a moment reads back as that moment, to the second.
pub proof fn law_stamp_round_trip(t: Seq<char>, ms: nat)
    requires
        is_stamp_of(t, ms),
        ms <= u64::MAX,
    ensures
        parsed_stamp(t) matches Some(c) && c.fits() && c.unix_secs() == ms / 1000,
{
    let (y, mo, d) = choose|y: nat, mo: nat, d: nat| stamp_on_day(t, ms, y, mo, d);
    let secs = ms / 1000;
    lemma_year_bound(y as int, mo as int, d as int);
    law_stamp_reads_back(
        y,
        mo,
        d,
        secs % 86_400 / 3600,
        secs % 3600 / 60,
        secs % 60,
        ms % 1000,
    );
    calendar::law_civil_days(y as int, mo as int, d as int);
    lemma_date_fits(y as int, mo as int, d as int);
    lemma_clock_adds(secs);
    let c = parsed_stamp(t)->Some_0;
    assert(c.unix_secs() == secs);
}

/// A moment has one timestamp.
pub proof fn law_stamp_unique(t1: Seq<char>, t2: Seq<char>, ms: nat)
    requires
        is_stamp_of(t1, ms),
        is_stamp_of(t2, ms),
    ensures
        t1 == t2,
{
    let (y1, mo1, d1) = choose|y: nat, mo: nat, d: nat| stamp_on_day(t1, ms, y, mo, d);
    let (y2, mo2, d2) = choose|y: nat, mo: nat, d: nat| stamp_on_day(t2, ms, y, mo, d);
    calendar::law_date_unique(
        y1 as int,
        mo1 as int,
        d1 as int,
        y2 as int,
        mo2 as int,
        d2 as int,
    );
}

// ── Age ─────────────────────────────────────────────────────────────────────

/// A count and the unit it counts.
pub open spec fn count_of(n: int, unit: Seq<char>) -> Seq<char> {
    numbers::decimal(n as nat) + unit
}

/// The compact label for something `delta` seconds old.
pub open spec fn age_label(delta: int) -> Seq<char> {
    if delta < 45 {
        "now"@
    } else if delta < 90 {
        "1m"@
    } else if delta < 3600 {
        count_of(delta / 60, "m"@)
    } else if delta < 129_600 {
        count_of(delta / 3600, "h"@)
    } else if delta < 1_209_600 {
        count_of(delta / 86_400, "d"@)
    } else if delta / 604_800 < 9 {
        count_of(delta / 604_800, "w"@)
    } else if delta / 2_592_000 < 18 {
        count_of(delta / 2_592_000, "mo"@)
    } else {
        count_of(delta / 31_536_000, "y"@)
    }
}

/// The label for a timestamp, seen at `now`: how long ago it was, or nothing
/// where it cannot be read. A moment to come, or an unknown `now`, counts as
/// just passed.
pub open spec fn relative_label(s: Seq<char>, now: Option<int>) -> Seq<char> {
    match parsed_stamp(s) {
        Some(c) => age_label(
            match now {
                Some(n) => n - c.unix_secs(),
                None => 0,
            },
        ),
        None => Seq::empty(),
    }
}

/// Whether the age of the timestamp at `now` can be computed in 64 bits.
pub open spec fn age_fits(s: Seq<char>, now: Option<int>) -> bool {
    match parsed_stamp(s) {
        Some(c) => c.fits() && (now matches Some(n) ==> i64::MIN <= n - c.unix_secs() <= i64::MAX),
        None => true,
    }
}

fn push_count(n: i64, unit: &str) -> (r: String)
    requires
        n >= 0,
    ensures
        r@ == count_of(n as int, unit@),
{
    let mut r: String = numbers::decimal_string(n as u64);
    r.append(unit);
    r
}

/// The compact label for an age in seconds.
pub fn format_age(delta: i64) -> (r: String)
    ensures
        r@ == age_label(delta as int),
{
    if delta < 45 {
        return "now".to_owned();
    }
    if delta < 90 {
        return "1m".to_owned();
    }
    if delta < 3600 {
        return push_count(delta / 60, "m");
    }
    if delta < 129_600 {
        return push_count(delta / 3600, "h");
    }
    if delta < 1_209_600 {
        return push_count(delta / 86_400, "d");
    }
    let weeks: i64 = delta / 604_800;
    if weeks < 9 {
        return push_count(weeks, "w");
    }
    let months: i64 = delta / 2_592_000;
    if months < 18 {
        return push_count(months, "mo");
    }
    push_count(delta / 31_536_000, "y")
}

/// Tells whether the age of the timestamp at `now` can be computed.
pub fn age_in_range(created_at: &str, now: Option<i64>) -> (r: bool)
    ensures
        r == age_fits(
            created_at@,
            match now {
                Some(n) => Some(n as int),
                None => None,
            },
        ),
{
    match parse_stamp(created_at) {
        Some(c) => {
            if !calendar::civil_in_range(c.year, c.month, c.day) {
                return false;
            }
            let secs: i64 = calendar::civil_to_unix_secs(
                c.year,
                c.month,
                c.day,
                c.hour,
                c.minute,
                c.second,
            );
            match now {
                Some(n) => n.checked_sub(secs).is_some(),
                None => true,
            }
        },
        None => true,
    }
}

/// The compact age of a timestamp at `now`, in Unix seconds: "now", "1m",
/// "2h", "3d".
pub fn format_relative_time(created_at: &str, now: Option<i64>) -> (r: String)
    requires
        age_fits(
            created_at@,
            match now {
                Some(n) => Some(n as int),
                None => None,
            },
        ),
    ensures
        r@ == relative_label(
            created_at@,
            match now {
                Some(n) => Some(n as int),
                None => None,
            },
        ),
{
    match parse_iso8601_to_unix_secs(created_at) {
        Some(secs) => {
            let delta: i64 = match now {
                Some(n) => n - secs,
                None => 0,
            };
            format_age(delta)
        },
        None => String::new(),
    }
}

// ── What a label and a timestamp say ────────────────────────────────────────

/// An age is given in whole units that have passed: the count is the greatest
/// that the age holds. Up to 45 seconds it is no age yet, and from there to one
/// and a half minutes it is a minute; then come minutes to one hour, hours to
/// one and a half days, days to two weeks, weeks to nine, months of 30 days to
/// eighteen, and years of 365 days.
pub proof fn law_age(delta: int, n: nat)
    ensures
        delta < 45 ==> age_label(delta) == "now"@,
        45 <= delta < 90 ==> age_label(delta) == "1m"@,
        90 <= delta < 60 * 60 && n * 60 <= delta < (n + 1) * 60 ==> age_label(delta)
            == numbers::decimal(n) + "m"@,
        60 * 60 <= delta < 36 * 3600 && n * 3600 <= delta < (n + 1) * 3600 ==> age_label(delta)
            == numbers::decimal(n) + "h"@,
        36 * 3600 <= delta < 14 * 86_400 && n * 86_400 <= delta < (n + 1) * 86_400 ==> age_label(
            delta,
        ) == numbers::decimal(n) + "d"@,
        14 * 86_400 <= delta < 9 * 604_800 && n * 604_800 <= delta < (n + 1) * 604_800
            ==> age_label(delta) == numbers::decimal(n) + "w"@,
        9 * 604_800 <= delta < 18 * 2_592_000 && n * 2_592_000 <= delta < (n + 1) * 2_592_000
            ==> age_label(delta) == numbers::decimal(n) + "mo"@,
        delta >= 18 * 2_592_000 && n * 31_536_000 <= delta < (n + 1) * 31_536_000 ==> age_label(
            delta,
        ) == numbers::decimal(n) + "y"@,
{
}

/// The label of a timestamp is the age of its moment at `now`, and that of a
/// moment to come, or seen at no known time, is "now".
pub proof fn law_label_of_stamp(t: Seq<char>, ms: nat, now: int)
    requires
        is_stamp_of(t, ms),
        ms <= u64::MAX,
    ensures
        relative_label(t, Some(now)) == age_label(now - ms / 1000),
        now <= ms / 1000 ==> relative_label(t, Some(now)) == "now"@,
        relative_label(t, None) == "now"@,
{
    law_stamp_round_trip(t, ms);
}

/// A text that is no timestamp has an empty label: one without a `T`, for
/// instance.
pub proof fn law_label_of_other_text(t: Seq<char>, now: Option<int>)
    requires
        !t.contains('T'),
    ensures
        parsed_stamp(t) is None,
        relative_label(t, now) == Seq::<char>::empty(),
{
    let body = text::stripped_back(text::trimmed(t), 'Z');
    lemma_stripped_holds(text::trimmed(t), 'Z', 'T');
    text::law_trim(t);
    assert forall|i: int| 0 <= i < body.len() implies body[i] != 'T' by {
        assert(body.contains(body[i]));
    }
    text::lemma_position_is(body, 'T', body.len() as int);
}

/// What is stripped at the back holds nothing new.
proof fn lemma_stripped_holds(s: Seq<char>, c: char, other: char)
    ensures
        text::stripped_back(s, c).contains(other) ==> s.contains(other),
    decreases s.len(),
{
    if s.len() > 0 && s.last() == c {
        lemma_stripped_holds(s.drop_last(), c, other);
        if s.drop_last().contains(other) {
            let i = choose|i: int| 0 <= i < s.drop_last().len() && s.drop_last()[i] == other;
            assert(s[i] == other);
        }
    }
}

/// A timestamp of the years to 9999 has 24 characters, and its fields stand at
/// their places: the year, the month, the day, the hour, the minute, the second
/// and the milliseconds.
pub proof fn law_stamp_layout(t: Seq<char>, ms: nat)
    requires
        is_stamp_of(t, ms),
        ms < 253_402_300_800_000,
    ensures
        t.len() == 24,
        t[4] == '-' && t[7] == '-' && t[10] == 'T',
        t[13] == ':' && t[16] == ':' && t[19] == '.' && t[23] == 'Z',
        numbers::value(t.subrange(11, 13)) == ms / 3_600_000 % 24,
        numbers::value(t.subrange(14, 16)) == ms / 60_000 % 60,
        numbers::value(t.subrange(17, 19)) == ms / 1000 % 60,
        numbers::value(t.subrange(20, 23)) == ms % 1000,
        calendar::valid_date(
            numbers::value(t.subrange(0, 4)),
            numbers::value(t.subrange(5, 7)),
            numbers::value(t.subrange(8, 10)),
        ),
        calendar::epoch_days(
            numbers::value(t.subrange(0, 4)),
            numbers::value(t.subrange(5, 7)),
            numbers::value(t.subrange(8, 10)),
        ) == ms / 86_400_000,
{
    let (y, mo, d) = choose|y: nat, mo: nat, d: nat| stamp_on_day(t, ms, y, mo, d);
    let secs = ms / 1000;
    if y > 9999 {
        assert(calendar::valid_date(9999, 12, 31));
        calendar::law_days_grow(9999, 12, 31, y as int, mo as int, d as int);
        calendar::law_month_lengths(9999, 12, 31);
        assert(calendar::days_before_month(10_000, 1) == 0);
        assert(calendar::epoch_days(9999, 12, 31) == 2_932_896);
    }
    let (h, mi, s) = (secs % 86_400 / 3600, secs % 3600 / 60, secs % 60);
    assert(h < 24 && mi < 60 && s < 60);
    numbers::lemma_short(y, 4);
    numbers::lemma_short(mo, 2);
    numbers::lemma_short(d, 2);
    numbers::lemma_short(h, 2);
    numbers::lemma_short(mi, 2);
    numbers::lemma_short(s, 2);
    numbers::lemma_short(ms % 1000, 3);
    numbers::lemma_zero_padded(y, 4);
    numbers::lemma_zero_padded(mo, 2);
    numbers::lemma_zero_padded(d, 2);
    numbers::lemma_zero_padded(h, 2);
    numbers::lemma_zero_padded(mi, 2);
    numbers::lemma_zero_padded(s, 2);
    numbers::lemma_zero_padded(ms % 1000, 3);
    assert(t.subrange(0, 4) =~= numbers::zero_padded(y, 4));
    assert(t.subrange(5, 7) =~= numbers::zero_padded(mo, 2));
    assert(t.subrange(8, 10) =~= numbers::zero_padded(d, 2));
    assert(t.subrange(11, 13) =~= numbers::zero_padded(h, 2));
    assert(t.subrange(14, 16) =~= numbers::zero_padded(mi, 2));
    assert(t.subrange(17, 19) =~= numbers::zero_padded(s, 2));
    assert(t.subrange(20, 23) =~= numbers::zero_padded(ms % 1000, 3));
    lemma_clock_of(ms);
}

/// Hours, minutes and seconds of the day, counted from milliseconds.
proof fn lemma_clock_of(ms: nat)
    ensures
        ms / 1000 % 86_400 / 3600 == ms / 3_600_000 % 24,
        ms / 1000 % 3600 / 60 == ms / 60_000 % 60,
        ms / 1000 / 86_400 == ms / 86_400_000,
{
    let secs = (ms / 1000) as int;
    div_mod::lemma_div_denominator(ms as int, 1000, 3600);
    div_mod::lemma_div_denominator(ms as int, 1000, 60);
    div_mod::lemma_div_denominator(ms as int, 1000, 86_400);
    assert(secs % 86_400 / 3600 == secs / 3600 % 24);
    assert(secs % 3600 / 60 == secs / 60 % 60);
}

/// A moment is read from digits: a year, a month and a day with hyphens
/// between them, a `T`, and hours, minutes and seconds with colons between
/// them, with or without a fraction and a `Z`.
pub proof fn law_stamp_read(
    y: Seq<char>,
    mo: Seq<char>,
    d: Seq<char>,
    h: Seq<char>,
    mi: Seq<char>,
    s: Seq<char>,
    frac: Seq<char>,
)
    requires
        y.len() > 0 && numbers::all_digits(y) && numbers::value(y) <= i32::MAX,
        mo.len() > 0 && numbers::all_digits(mo) && numbers::value(mo) <= u32::MAX,
        d.len() > 0 && numbers::all_digits(d) && numbers::value(d) <= u32::MAX,
        h.len() > 0 && numbers::all_digits(h) && numbers::value(h) <= u32::MAX,
        mi.len() > 0 && numbers::all_digits(mi) && numbers::value(mi) <= u32::MAX,
        s.len() > 0 && numbers::all_digits(s) && numbers::value(s) <= u32::MAX,
        frac.len() > 0 && numbers::all_digits(frac),
    ensures
        ({
            let moment = CivilTime {
                year: numbers::value(y) as i32,
                month: numbers::value(mo) as u32,
                day: numbers::value(d) as u32,
                hour: numbers::value(h) as u32,
                minute: numbers::value(mi) as u32,
                second: numbers::value(s) as u32,
            };
            let date = y + seq!['-'] + (mo + seq!['-'] + d);
            let clock = h + seq![':'] + (mi + seq![':'] + s);
            &&& parsed_stamp(date + seq!['T'] + clock) == Some(moment)
            &&& parsed_stamp(date + seq!['T'] + clock + seq!['Z']) == Some(moment)
            &&& parsed_stamp(date + seq!['T'] + (clock + seq!['.'] + frac)) == Some(moment)
            &&& parsed_stamp(date + seq!['T'] + (clock + seq!['.'] + frac) + seq!['Z']) == Some(
                moment,
            )
        }),
{
    let date = y + seq!['-'] + (mo + seq!['-'] + d);
    let clock = h + seq![':'] + (mi + seq![':'] + s);
    lemma_three(y, mo, d, '-', 'T');
    lemma_three(h, mi, s, ':', '.');
    lemma_cut(date, 'T', clock);
    lemma_cut(date, 'T', clock + seq!['.'] + frac);
    lemma_cut(clock, '.', frac);
    lemma_uncut(clock, '.');
    numbers::law_signed_read(y, i32::MIN as int, i32::MAX as int);
    numbers::law_unsigned_read(mo, u32::MAX as int, 0);
    numbers::law_unsigned_read(d, u32::MAX as int, 0);
    numbers::law_unsigned_read(h, u32::MAX as int, 0);
    numbers::law_unsigned_read(mi, u32::MAX as int, 0);
    numbers::law_unsigned_read(s, u32::MAX as int, 0);
    assert(numbers::is_digit(s[s.len() - 1]) && numbers::is_digit(y[0]));
    assert(numbers::is_digit(frac[frac.len() - 1]));
    lemma_body_of(date + seq!['T'] + clock);
    lemma_body_of(date + seq!['T'] + (clock + seq!['.'] + frac));
}

/// A text that begins and ends with a digit is its own body, with or without a
/// `Z` behind it.
proof fn lemma_body_of(s: Seq<char>)
    requires
        s.len() > 0,
        numbers::is_digit(s.first()),
        numbers::is_digit(s.last()),
    ensures
        text::stripped_back(text::trimmed(s), 'Z') == s,
        text::stripped_back(text::trimmed(s + seq!['Z']), 'Z') == s,
{
    let t = s + seq!['Z'];
    assert(text::trimmed(s) == s);
    assert(t.first() == s.first() && t.last() == 'Z');
    assert(text::trimmed_front(t) == t);
    assert(text::trimmed(t) == t);
    assert(t.drop_last() =~= s);
    assert(text::stripped_back(s, 'Z') == s);
}

/// The age of a timestamp can be told: every day that there is, in years that
/// are numbers of 32 bits, has a day count that fits, and so has every
/// timestamp that was written.
pub proof fn law_age_can_be_told(t: Seq<char>, ms: nat, now: int, y: int, mo: int, d: int)
    ensures
        calendar::valid_date(y, mo, d) && 0 <= y <= i32::MAX ==> calendar::civil_fits(y, mo, d),
        is_stamp_of(t, ms) && ms <= u64::MAX && 0 <= now <= i64::MAX ==> age_fits(t, Some(now))
            && age_fits(t, None),
{
    if calendar::valid_date(y, mo, d) && 0 <= y <= i32::MAX {
        lemma_date_fits(y, mo, d);
    }
    if is_stamp_of(t, ms) && ms <= u64::MAX {
        law_stamp_round_trip(t, ms);
    }
}

/// A text with a field too few, or with an empty one, is no timestamp.
pub proof fn law_stamp_incomplete(
    y: Seq<char>,
    mo: Seq<char>,
    d: Seq<char>,
    h: Seq<char>,
    mi: Seq<char>,
    s: Seq<char>,
)
    requires
        numbers::all_digits(y) && numbers::all_digits(mo) && numbers::all_digits(d),
        numbers::all_digits(h) && numbers::all_digits(mi) && numbers::all_digits(s),
        y.len() > 0 && mi.len() > 0 && s.len() > 0,
    ensures
        ({
            let date = y + seq!['-'] + (mo + seq!['-'] + d);
            let clock = h + seq![':'] + (mi + seq![':'] + s);
            &&& mo.len() == 0 || d.len() == 0 || h.len() == 0 ==> parsed_stamp(
                date + seq!['T'] + clock,
            ) is None
            &&& parsed_stamp(date + seq!['T'] + (h + seq![':'] + mi)) is None
            &&& parsed_stamp((y + seq!['-'] + mo) + seq!['T'] + clock) is None
        }),
{
    let date = y + seq!['-'] + (mo + seq!['-'] + d);
    let clock = h + seq![':'] + (mi + seq![':'] + s);
    let short_clock = h + seq![':'] + mi;
    let short_date = y + seq!['-'] + mo;
    lemma_three(y, mo, d, '-', 'T');
    lemma_three(h, mi, s, ':', '.');
    lemma_cut(date, 'T', clock);
    lemma_cut(date, 'T', short_clock);
    lemma_uncut(clock, '.');
    lemma_two(h, mi, ':', '.');
    lemma_two(y, mo, '-', 'T');
    lemma_uncut(short_clock, '.');
    lemma_cut(short_date, 'T', clock);
    assert(numbers::is_digit(s[s.len() - 1]) && numbers::is_digit(y[0]));
    assert(numbers::is_digit(mi[mi.len() - 1]));
    lemma_body_of(date + seq!['T'] + clock);
    lemma_body_of(date + seq!['T'] + short_clock);
    lemma_body_of(short_date + seq!['T'] + clock);
    numbers::law_unsigned_read(mo, u32::MAX as int, 0);
    numbers::law_unsigned_read(d, u32::MAX as int, 0);
    numbers::law_unsigned_read(h, u32::MAX as int, 0);
}

/// Two runs of digits are no three fields.
proof fn lemma_two(a: Seq<char>, b: Seq<char>, sep: char, other: char)
    requires
        numbers::all_digits(a),
        numbers::all_digits(b),
        !numbers::is_digit(sep),
        !numbers::is_digit(other),
        sep != other,
    ensures
        three_fields(a + seq![sep] + b, sep) is None,
        !(a + seq![sep] + b).contains(other),
{
    lemma_digits_hold(a, sep);
    lemma_digits_hold(b, sep);
    lemma_cut(a, sep, b);
    text::law_split(b, sep, Seq::empty());
    lemma_digits_hold(a, other);
    lemma_digits_hold(b, other);
    assert(!seq![sep].contains(other));
    lemma_holds_not(a, seq![sep], other);
    lemma_holds_not(a + seq![sep], b, other);
}

} // verus!
