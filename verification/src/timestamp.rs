//! The time of a build as text: UTC, in the fixed form
//! `YYYY-MM-DDThh:mm:ssZ`.
//!
//! The date is that of the Gregorian calendar. Up to the year 9999 the text
//! has twenty characters and later times sort after earlier ones.

use crate::calendar::{
    civil_time, civil_time_of, end_of_four_digit_years, lemma_civil_time_exists,
    lemma_civil_time_grows, lemma_four_digit_year, not_later, CivilTime,
};
use crate::text::push_char;
use std::time::{Duration, SystemTime, SystemTimeError, UNIX_EPOCH};
use vstd::prelude::*;

verus! {

/// The decimal digit of a value below ten.
pub open spec fn decimal_digit(d: int) -> char {
    (0x30 + d) as char
}

/// A number in decimal, without leading zeros.
pub open spec fn decimal_digits(n: int) -> Seq<char>
    decreases n,
{
    if n < 10 {
        seq![decimal_digit(n)]
    } else {
        decimal_digits(n / 10).push(decimal_digit(n % 10))
    }
}

/// A number below one hundred in two digits.
pub open spec fn two_digits(n: int) -> Seq<char> {
    seq![decimal_digit(n / 10), decimal_digit(n % 10)]
}

/// A year in four digits, or in as many as it has where it has more.
pub open spec fn year_digits(year: int) -> Seq<char> {
    if year < 10000 {
        seq![
            decimal_digit(year / 1000),
            decimal_digit(year / 100 % 10),
            decimal_digit(year / 10 % 10),
            decimal_digit(year % 10),
        ]
    } else {
        decimal_digits(year)
    }
}

/// A date and time of day as text.
#[verifier::opaque]
pub open spec fn civil_text(t: CivilTime) -> Seq<char> {
    year_digits(t.year as int) + seq!['-'] + two_digits(t.month as int) + seq!['-'] + two_digits(
        t.day as int,
    ) + seq!['T'] + two_digits(t.hour as int) + seq![':'] + two_digits(t.minute as int) + seq![':']
        + two_digits(t.second as int) + seq!['Z']
}

/// The timestamp of the time that lies the given number of seconds after
/// the start of 1970.
pub open spec fn timestamp_text(seconds: int) -> Seq<char> {
    civil_text(civil_time_of(seconds))
}

/// A year has at least four digits.
proof fn lemma_year_digits_length(year: int)
    requires
        year >= 0,
    ensures
        year_digits(year).len() >= 4,
{
    if year >= 10000 {
        reveal_with_fuel(decimal_digits, 5);
    }
}

/// A timestamp has at least twenty characters.
pub proof fn lemma_timestamp_length(seconds: int)
    ensures
        timestamp_text(seconds).len() >= 20,
{
    reveal(civil_text);
    lemma_year_digits_length(civil_time_of(seconds).year as int);
}

/// The character of a decimal digit.
fn digit(d: u64) -> (c: char)
    requires
        d < 10,
    ensures
        c == decimal_digit(d as int),
{
    (0x30 + d as u8) as char
}

/// Appends a number in decimal.
fn push_decimal(text: &mut String, n: u64)
    ensures
        final(text)@ == old(text)@ + decimal_digits(n as int),
    decreases n,
{
    if n >= 10 {
        push_decimal(text, n / 10);
    }
    push_char(text, digit(n % 10));
    assert(final(text)@ =~= old(text)@ + decimal_digits(n as int));
}

/// Appends a number below one hundred in two digits.
fn push_two_digits(text: &mut String, n: u8)
    requires
        n < 100,
    ensures
        final(text)@ == old(text)@ + two_digits(n as int),
{
    push_char(text, digit((n / 10) as u64));
    push_char(text, digit((n % 10) as u64));
    assert(final(text)@ =~= old(text)@ + two_digits(n as int));
}

/// Appends a year in at least four digits.
fn push_year(text: &mut String, year: u64)
    ensures
        final(text)@ == old(text)@ + year_digits(year as int),
{
    if year < 10000 {
        push_char(text, digit(year / 1000));
        push_char(text, digit(year / 100 % 10));
        push_char(text, digit(year / 10 % 10));
        push_char(text, digit(year % 10));
        assert(final(text)@ =~= old(text)@ + year_digits(year as int));
    } else {
        push_decimal(text, year);
    }
}

/// The timestamp of a Unix time: its UTC date and time of day as
/// `YYYY-MM-DDThh:mm:ssZ`.
pub fn format_timestamp(seconds: u64) -> (text: String)
    ensures
        text@ == timestamp_text(seconds as int),
        text@.len() >= 20,
{
    proof {
        lemma_timestamp_length(seconds as int);
    }
    let t = civil_time(seconds);
    let mut text = String::new();
    push_year(&mut text, t.year);
    push_char(&mut text, '-');
    push_two_digits(&mut text, t.month);
    push_char(&mut text, '-');
    push_two_digits(&mut text, t.day);
    push_char(&mut text, 'T');
    push_two_digits(&mut text, t.hour);
    push_char(&mut text, ':');
    push_two_digits(&mut text, t.minute);
    push_char(&mut text, ':');
    push_two_digits(&mut text, t.second);
    push_char(&mut text, 'Z');
    assert(text@ =~= civil_text(t)) by {
        reveal(civil_text);
    }
    text
}

/// std's `SystemTime`: a reading of the system clock. Nothing is read from
/// it here.
#[verifier::external_type_specification]
#[verifier::external_body]
pub struct ExSystemTime(SystemTime);

/// std's `SystemTimeError`: what `duration_since` gives for a reading that
/// lies before the moment it is compared with. Nothing is read from it.
#[verifier::external_type_specification]
#[verifier::external_body]
pub struct ExSystemTimeError(SystemTimeError);

/// `SystemTime::now`: what the system clock says. Nothing is promised of
/// it, and two calls may give any two readings.
#[verifier::external_body]
fn clock_reading() -> (reading: SystemTime) {
    SystemTime::now()
}

/// `SystemTime::duration_since`, counted from the start of 1970: how long
/// after it a reading lies, or the error for a reading before it. Nothing is
/// promised of the result.
#[verifier::external_body]
fn since_epoch(reading: &SystemTime) -> (elapsed: Result<Duration, SystemTimeError>) {
    reading.duration_since(UNIX_EPOCH)
}

/// `Duration::as_secs`: the whole seconds of a duration. Nothing is promised
/// of the number.
#[verifier::external_body]
fn whole_seconds(elapsed: &Duration) -> (seconds: u64) {
    elapsed.as_secs()
}

/// The timestamp of the present moment by the system clock. A clock that
/// stands before 1970 is read as the start of 1970.
pub fn get_timestamp() -> (text: String)
    ensures
        exists|seconds: u64| text@ == #[trigger] timestamp_text(seconds as int),
        text@.len() >= 20,
{
    let reading = clock_reading();
    let seconds = match since_epoch(&reading) {
        Ok(elapsed) => whole_seconds(&elapsed),
        Err(_) => 0,
    };
    format_timestamp(seconds)
}

/// Whether a text stands before another, or is the same, where texts are
/// sorted by the first character in which they differ.
pub open spec fn sorts_before_or_equal(a: Seq<char>, b: Seq<char>) -> bool
    decreases a.len(),
{
    if a.len() == 0 {
        true
    } else if b.len() == 0 {
        false
    } else if a[0] != b[0] {
        a[0] < b[0]
    } else {
        sorts_before_or_equal(a.drop_first(), b.drop_first())
    }
}

proof fn lemma_sorted_by_first_difference(a: Seq<char>, b: Seq<char>, k: int)
    requires
        a.len() == b.len(),
        0 <= k <= a.len(),
        forall|i: int| 0 <= i < k ==> a[i] == b[i],
        k == a.len() || a[k] < b[k],
    ensures
        sorts_before_or_equal(a, b),
    decreases a.len(),
{
    if a.len() > 0 && k > 0 {
        let x = a.drop_first();
        let y = b.drop_first();
        assert forall|i: int| 0 <= i < k - 1 implies x[i] == y[i] by {
            assert(x[i] == a[i + 1] && y[i] == b[i + 1]);
        }
        if k < a.len() {
            assert(x[k - 1] == a[k] && y[k - 1] == b[k]);
        }
        lemma_sorted_by_first_difference(x, y, k - 1);
    }
}

/// The character at each place of the text of a date and time of day in a
/// year of four digits.
#[verifier::opaque]
spec fn character_at(t: CivilTime, place: int) -> char {
    if place == 0 {
        decimal_digit(t.year as int / 1000)
    } else if place == 1 {
        decimal_digit(t.year as int / 100 % 10)
    } else if place == 2 {
        decimal_digit(t.year as int / 10 % 10)
    } else if place == 3 {
        decimal_digit(t.year as int % 10)
    } else if place == 5 {
        decimal_digit(t.month as int / 10)
    } else if place == 6 {
        decimal_digit(t.month as int % 10)
    } else if place == 8 {
        decimal_digit(t.day as int / 10)
    } else if place == 9 {
        decimal_digit(t.day as int % 10)
    } else if place == 11 {
        decimal_digit(t.hour as int / 10)
    } else if place == 12 {
        decimal_digit(t.hour as int % 10)
    } else if place == 14 {
        decimal_digit(t.minute as int / 10)
    } else if place == 15 {
        decimal_digit(t.minute as int % 10)
    } else if place == 17 {
        decimal_digit(t.second as int / 10)
    } else if place == 18 {
        decimal_digit(t.second as int % 10)
    } else if place == 4 || place == 7 {
        '-'
    } else if place == 10 {
        'T'
    } else if place == 13 || place == 16 {
        ':'
    } else {
        'Z'
    }
}

proof fn lemma_twenty_characters(t: CivilTime)
    requires
        t.year <= 9999,
    ensures
        civil_text(t).len() == 20,
        forall|place: int|
            0 <= place < 20 ==> #[trigger] civil_text(t)[place] == character_at(t, place),
{
    reveal(character_at);
    let date = year_digits(t.year as int) + seq!['-'] + two_digits(t.month as int) + seq!['-']
        + two_digits(t.day as int) + seq!['T'];
    let time = two_digits(t.hour as int) + seq![':'] + two_digits(t.minute as int) + seq![':']
        + two_digits(t.second as int) + seq!['Z'];
    reveal(civil_text);
    assert(date.len() == 11);
    assert(time.len() == 9);
    assert(civil_text(t) =~= date + time);
    assert forall|place: int| 0 <= place < 20 implies #[trigger] civil_text(t)[place]
        == character_at(t, place) by {
        if place < 11 {
            assert(civil_text(t)[place] == date[place]);
        } else {
            assert(civil_text(t)[place] == time[place - 11]);
        }
    }
}

/// The place at which two numbers of two digits first differ, counted from
/// the place of the first digit, and 2 where they do not differ.
spec fn two_digits_differ(x: int, y: int) -> int {
    if x / 10 != y / 10 {
        0
    } else if x % 10 != y % 10 {
        1
    } else {
        2
    }
}

/// The place at which two numbers of four digits first differ, counted from
/// the place of the first digit, and 4 where they do not differ.
spec fn four_digits_differ(x: int, y: int) -> int {
    if x / 1000 != y / 1000 {
        0
    } else if x / 100 % 10 != y / 100 % 10 {
        1
    } else if x / 10 % 10 != y / 10 % 10 {
        2
    } else if x % 10 != y % 10 {
        3
    } else {
        4
    }
}

/// Of two numbers of two digits the smaller has the smaller digit where
/// they first differ.
proof fn lemma_two_digits_order(x: int, y: int)
    requires
        0 <= x < y <= 99,
    ensures
        two_digits_differ(x, y) == 0 ==> decimal_digit(x / 10) < decimal_digit(y / 10),
        two_digits_differ(x, y) == 1 ==> decimal_digit(x % 10) < decimal_digit(y % 10),
        two_digits_differ(x, y) < 2,
{
    let a = x / 10;
    let b = x % 10;
    let c = y / 10;
    let d = y % 10;
    assert(x == 10 * a + b && 0 <= b <= 9 && 0 <= a <= 9);
    assert(y == 10 * c + d && 0 <= d <= 9 && 0 <= c <= 9);
}

/// A number of four digits is made of its digits.
proof fn lemma_four_digits(x: int)
    requires
        0 <= x <= 9999,
    ensures
        x == 1000 * (x / 1000) + 100 * (x / 100 % 10) + 10 * (x / 10 % 10) + x % 10,
        0 <= x / 1000 <= 9,
        0 <= x / 100 % 10 <= 9,
        0 <= x / 10 % 10 <= 9,
        0 <= x % 10 <= 9,
{
    let tens = x / 10;
    let hundreds = tens / 10;
    let thousands = hundreds / 10;
    assert(x == 10 * tens + x % 10);
    assert(tens == 10 * hundreds + tens % 10);
    assert(hundreds == 10 * thousands + hundreds % 10);
    assert(x / 100 == hundreds);
    assert(x / 1000 == thousands);
}

/// Of two numbers of four digits the smaller has the smaller digit where
/// they first differ.
proof fn lemma_four_digits_order(x: int, y: int)
    requires
        0 <= x < y <= 9999,
    ensures
        four_digits_differ(x, y) == 0 ==> decimal_digit(x / 1000) < decimal_digit(y / 1000),
        four_digits_differ(x, y) == 1 ==> decimal_digit(x / 100 % 10) < decimal_digit(
            y / 100 % 10,
        ),
        four_digits_differ(x, y) == 2 ==> decimal_digit(x / 10 % 10) < decimal_digit(y / 10 % 10),
        four_digits_differ(x, y) == 3 ==> decimal_digit(x % 10) < decimal_digit(y % 10),
        four_digits_differ(x, y) < 4,
{
    lemma_four_digits(x);
    lemma_four_digits(y);
    let a3 = x / 1000;
    let a2 = x / 100 % 10;
    let a1 = x / 10 % 10;
    let a0 = x % 10;
    let b3 = y / 1000;
    let b2 = y / 100 % 10;
    let b1 = y / 10 % 10;
    let b0 = y % 10;
    assert(1000 * a3 + 100 * a2 + 10 * a1 + a0 < 1000 * b3 + 100 * b2 + 10 * b1 + b0);
    if a3 != b3 {
        assert(a3 < b3);
    } else if a2 != b2 {
        assert(a2 < b2);
    } else if a1 != b1 {
        assert(a1 < b1);
    } else {
        assert(a0 < b0);
    }
}

/// Where the texts of two dates and times of day first differ, or 20 where
/// they do not.
spec fn first_difference(a: CivilTime, b: CivilTime) -> int {
    if a.year != b.year {
        four_digits_differ(a.year as int, b.year as int)
    } else if a.month != b.month {
        5 + two_digits_differ(a.month as int, b.month as int)
    } else if a.day != b.day {
        8 + two_digits_differ(a.day as int, b.day as int)
    } else if a.hour != b.hour {
        11 + two_digits_differ(a.hour as int, b.hour as int)
    } else if a.minute != b.minute {
        14 + two_digits_differ(a.minute as int, b.minute as int)
    } else if a.second != b.second {
        17 + two_digits_differ(a.second as int, b.second as int)
    } else {
        20
    }
}

/// Up to the first difference the characters of two texts are the same, and
/// there the earlier moment has the smaller one.
proof fn lemma_first_difference(a: CivilTime, b: CivilTime)
    requires
        a.is_valid(),
        b.is_valid(),
        a.year <= 9999,
        b.year <= 9999,
        not_later(a, b),
    ensures
        0 <= first_difference(a, b) <= 20,
        forall|place: int|
            0 <= place < first_difference(a, b) ==> #[trigger] character_at(a, place)
                == character_at(b, place),
        first_difference(a, b) < 20 ==> character_at(a, first_difference(a, b)) < character_at(
            b,
            first_difference(a, b),
        ),
{
    reveal(character_at);
    if a.year != b.year {
        lemma_four_digits_order(a.year as int, b.year as int);
    } else if a.month != b.month {
        lemma_two_digits_order(a.month as int, b.month as int);
    } else if a.day != b.day {
        lemma_two_digits_order(a.day as int, b.day as int);
    } else if a.hour != b.hour {
        lemma_two_digits_order(a.hour as int, b.hour as int);
    } else if a.minute != b.minute {
        lemma_two_digits_order(a.minute as int, b.minute as int);
    } else if a.second != b.second {
        lemma_two_digits_order(a.second as int, b.second as int);
    }
}

/// In years of four digits the texts of dates and times of day sort as the
/// moments do.
proof fn lemma_text_sorts_as_time(a: CivilTime, b: CivilTime)
    requires
        a.is_valid(),
        b.is_valid(),
        a.year <= 9999,
        b.year <= 9999,
        not_later(a, b),
    ensures
        sorts_before_or_equal(civil_text(a), civil_text(b)),
{
    let x = civil_text(a);
    let y = civil_text(b);
    let k = first_difference(a, b);
    lemma_twenty_characters(a);
    lemma_twenty_characters(b);
    lemma_first_difference(a, b);
    assert forall|place: int| 0 <= place < k implies x[place] == y[place] by {
        assert(x[place] == character_at(a, place));
        assert(y[place] == character_at(b, place));
    }
    if k < 20 {
        assert(x[k] == character_at(a, k));
        assert(y[k] == character_at(b, k));
    }
    lemma_sorted_by_first_difference(x, y, k);
}

/// Up to the year 9999 a timestamp has twenty characters, and timestamps
/// sort as the moments they stand for: the timestamp of a later moment does
/// not sort before that of an earlier one.
pub proof fn lemma_timestamps_sort_by_time(earlier: int, later: int)
    requires
        0 <= earlier <= later < end_of_four_digit_years(),
    ensures
        timestamp_text(earlier).len() == 20,
        timestamp_text(later).len() == 20,
        sorts_before_or_equal(timestamp_text(earlier), timestamp_text(later)),
{
    lemma_civil_time_exists(earlier);
    lemma_civil_time_exists(later);
    let a = civil_time_of(earlier);
    let b = civil_time_of(later);
    lemma_four_digit_year(a, earlier);
    lemma_four_digit_year(b, later);
    lemma_civil_time_grows(a, earlier, b, later);
    lemma_twenty_characters(a);
    lemma_twenty_characters(b);
    lemma_text_sorts_as_time(a, b);
}

} // verus!
