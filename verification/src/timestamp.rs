//! The coarse calendar stamp at the head of each line of the diagnostic log.
//!
//! The stamp is cut from the seconds since the Unix epoch with a year of 365
//! days and a month of 30 days, each field from what the field before it
//! left over. It has the shape of an ISO date and time, but it is no calendar
//! date: the month field reaches 13 in the last five days of such a year.
//! What it keeps is the order of time: as long as the year has four digits, a
//! later second never gets a stamp that sorts before that of an earlier one.

use std::time::{Duration, SystemTime, SystemTimeError, UNIX_EPOCH};
use vstd::prelude::*;
use vstd::string::*;

verus! {

/// Seconds in the stamp's year of 365 days.
pub const SECONDS_PER_YEAR: u64 = 31_536_000;

/// Seconds in the stamp's month of 30 days.
pub const SECONDS_PER_MONTH: u64 = 2_592_000;

/// Seconds in a day.
pub const SECONDS_PER_DAY: u64 = 86_400;

/// Seconds in an hour.
pub const SECONDS_PER_HOUR: u64 = 3_600;

/// Seconds in a minute.
pub const SECONDS_PER_MINUTE: u64 = 60;

/// The year of the epoch.
pub const EPOCH_YEAR: u64 = 1970;

/// The decimal digit for `d`, where `d` is below ten.
pub open spec fn digit_char(d: nat) -> char {
    if d == 0 {
        '0'
    } else if d == 1 {
        '1'
    } else if d == 2 {
        '2'
    } else if d == 3 {
        '3'
    } else if d == 4 {
        '4'
    } else if d == 5 {
        '5'
    } else if d == 6 {
        '6'
    } else if d == 7 {
        '7'
    } else if d == 8 {
        '8'
    } else {
        '9'
    }
}

/// `n` in decimal, without leading zeros (`0` is one digit).
pub open spec fn decimal(n: nat) -> Seq<char>
    decreases n,
{
    if n < 10 {
        seq![digit_char(n)]
    } else {
        decimal(n / 10).push(digit_char(n % 10))
    }
}

/// `count` zeros.
pub open spec fn zeros(count: nat) -> Seq<char> {
    Seq::new(count, |i: int| '0')
}

/// `n` in decimal, filled with zeros on the left up to `width` characters. A
/// number with more digits than `width` keeps them all.
pub open spec fn zero_padded(n: nat, width: nat) -> Seq<char> {
    if decimal(n).len() >= width {
        decimal(n)
    } else {
        zeros((width - decimal(n).len()) as nat) + decimal(n)
    }
}

/// The stamp for `secs` seconds since the epoch: `YYYY-MM-DDTHH:MM:SS`. The
/// year counts whole years of 365 days, the month whole months of 30 days
/// within the year, the day whole days within the month; both start at one.
pub open spec fn timestamp_text(secs: nat) -> Seq<char> {
    zero_padded(secs / (SECONDS_PER_YEAR as nat) + EPOCH_YEAR as nat, 4)
        + seq!['-']
        + zero_padded(secs % (SECONDS_PER_YEAR as nat) / (SECONDS_PER_MONTH as nat) + 1, 2)
        + seq!['-']
        + zero_padded(
        secs % (SECONDS_PER_YEAR as nat) % (SECONDS_PER_MONTH as nat) / (SECONDS_PER_DAY as nat)
            + 1,
        2,
    )
        + seq!['T']
        + zero_padded(secs % (SECONDS_PER_DAY as nat) / (SECONDS_PER_HOUR as nat), 2)
        + seq![':']
        + zero_padded(secs % (SECONDS_PER_HOUR as nat) / (SECONDS_PER_MINUTE as nat), 2)
        + seq![':']
        + zero_padded(secs % (SECONDS_PER_MINUTE as nat), 2)
}

/// What stands in the stamp's place when the clock reads a time before the
/// epoch.
pub open spec fn unknown_text() -> Seq<char> {
    seq!['U', 'n', 'k', 'n', 'o', 'w', 'n']
}

/// The first second whose year field has five digits.
pub const FIVE_DIGIT_YEAR: u64 = 253_234_080_000;

/// How many digits a number below ten thousand has.
pub proof fn lemma_decimal_len(n: nat)
    ensures
        n < 10 ==> decimal(n).len() == 1,
        10 <= n < 100 ==> decimal(n).len() == 2,
        100 <= n < 1000 ==> decimal(n).len() == 3,
        1000 <= n < 10000 ==> decimal(n).len() == 4,
{
    reveal_with_fuel(decimal, 4);
}

/// As long as the year field has four digits, the stamp has 19 characters,
/// with its separators at fixed places.
pub proof fn lemma_timestamp_shape(secs: nat)
    requires
        secs < FIVE_DIGIT_YEAR,
    ensures
        timestamp_text(secs).len() == 19,
        timestamp_text(secs)[4] == '-',
        timestamp_text(secs)[7] == '-',
        timestamp_text(secs)[10] == 'T',
        timestamp_text(secs)[13] == ':',
        timestamp_text(secs)[16] == ':',
{
    let year = secs / (SECONDS_PER_YEAR as nat) + EPOCH_YEAR as nat;
    let month = secs % (SECONDS_PER_YEAR as nat) / (SECONDS_PER_MONTH as nat) + 1;
    let day = secs % (SECONDS_PER_YEAR as nat) % (SECONDS_PER_MONTH as nat) / (
    SECONDS_PER_DAY as nat) + 1;
    let hour = secs % (SECONDS_PER_DAY as nat) / (SECONDS_PER_HOUR as nat);
    let minute = secs % (SECONDS_PER_HOUR as nat) / (SECONDS_PER_MINUTE as nat);
    let second = secs % (SECONDS_PER_MINUTE as nat);
    lemma_decimal_len(year);
    lemma_decimal_len(month);
    lemma_decimal_len(day);
    lemma_decimal_len(hour);
    lemma_decimal_len(minute);
    lemma_decimal_len(second);
    assert(zero_padded(year, 4).len() == 4);
    assert(zero_padded(month, 2).len() == 2);
    assert(zero_padded(day, 2).len() == 2);
    assert(zero_padded(hour, 2).len() == 2);
    assert(zero_padded(minute, 2).len() == 2);
    assert(zero_padded(second, 2).len() == 2);
}

/// Whether `a` sorts at or before `b` when the two are compared character by
/// character, as text is sorted: the first place where they differ decides,
/// and a text sorts before each of its extensions.
pub open spec fn sorts_at_or_before(a: Seq<char>, b: Seq<char>) -> bool
    decreases a.len(),
{
    if a.len() == 0 {
        true
    } else if b.len() == 0 {
        false
    } else if a[0] == b[0] {
        sorts_at_or_before(a.drop_first(), b.drop_first())
    } else {
        (a[0] as u32) < (b[0] as u32)
    }
}

/// Every text sorts at or before itself.
pub proof fn lemma_sorts_reflexive(a: Seq<char>)
    ensures
        sorts_at_or_before(a, a),
    decreases a.len(),
{
    if a.len() > 0 {
        lemma_sorts_reflexive(a.drop_first());
    }
}

/// Two texts that start with blocks of one length are ordered by those
/// blocks where the blocks differ, and by what follows them where they are
/// equal.
pub proof fn lemma_sorts_by_blocks(p: Seq<char>, q: Seq<char>, x: Seq<char>, y: Seq<char>)
    requires
        p.len() == q.len(),
    ensures
        sorts_at_or_before(p + x, q + y) == if p == q {
            sorts_at_or_before(x, y)
        } else {
            sorts_at_or_before(p, q)
        },
    decreases p.len(),
{
    if p.len() == 0 {
        assert(p + x =~= x);
        assert(q + y =~= y);
        assert(p =~= q);
    } else {
        assert((p + x)[0] == p[0]);
        assert((q + y)[0] == q[0]);
        assert((p + x).drop_first() =~= p.drop_first() + x);
        assert((q + y).drop_first() =~= q.drop_first() + y);
        lemma_sorts_by_blocks(p.drop_first(), q.drop_first(), x, y);
        if p[0] == q[0] && p.drop_first() == q.drop_first() {
            assert forall|i: int| 0 <= i < p.len() implies p[i] == q[i] by {
                if i > 0 {
                    assert(p[i] == p.drop_first()[i - 1]);
                    assert(q[i] == q.drop_first()[i - 1]);
                }
            }
            assert(p =~= q);
        }
    }
}

/// The two characters of a field of width two.
pub proof fn lemma_two_digits(n: nat)
    requires
        n < 100,
    ensures
        zero_padded(n, 2) == seq![digit_char(n / 10), digit_char(n % 10)],
{
    lemma_decimal_len(n);
    reveal_with_fuel(decimal, 2);
    assert(zero_padded(n, 2) =~= seq![digit_char(n / 10), digit_char(n % 10)]);
}

/// A field of width four is the field of its hundreds followed by the field
/// of what is left.
pub proof fn lemma_four_digits(n: nat)
    requires
        n < 10000,
    ensures
        zero_padded(n, 4) == zero_padded(n / 100, 2) + zero_padded(n % 100, 2),
{
    let high = n / 100;
    let low = n % 100;
    assert(n / 10 / 10 == high);
    assert(n / 10 % 10 == low / 10);
    assert(n % 10 == low % 10);
    lemma_two_digits(high);
    lemma_two_digits(low);
    lemma_decimal_len(n);
    lemma_decimal_len(n / 10);
    lemma_decimal_len(high);
    let tail = seq![digit_char(low / 10), digit_char(low % 10)];
    if n < 100 {
        assert(decimal(high) =~= seq!['0']);
        assert(zero_padded(n, 4) =~= seq!['0', '0'] + zero_padded(low, 2));
    } else {
        assert(decimal(n) == decimal(n / 10).push(digit_char(n % 10)));
        assert(decimal(n / 10) == decimal(high).push(digit_char(n / 10 % 10)));
        assert(decimal(n) =~= decimal(high) + tail);
        assert(zero_padded(n, 4) =~= zero_padded(high, 2) + tail);
    }
}

/// Of two numbers that fit a field of width two, the smaller has the field
/// that sorts first, and the two fields differ.
pub proof fn lemma_two_digits_order(x: nat, y: nat)
    requires
        x < y < 100,
    ensures
        sorts_at_or_before(zero_padded(x, 2), zero_padded(y, 2)),
        zero_padded(x, 2) != zero_padded(y, 2),
{
    lemma_two_digits(x);
    lemma_two_digits(y);
    let p = zero_padded(x, 2);
    let q = zero_padded(y, 2);
    reveal_with_fuel(sorts_at_or_before, 3);
    assert(p[0] == digit_char(x / 10) && p[1] == digit_char(x % 10));
    assert(q[0] == digit_char(y / 10) && q[1] == digit_char(y % 10));
    assert(p.drop_first()[0] == p[1]);
    assert(q.drop_first()[0] == q[1]);
}

/// Of two numbers that fit a field of width four, the smaller has the field
/// that sorts first, and the two fields differ.
pub proof fn lemma_four_digits_order(x: nat, y: nat)
    requires
        x < y < 10000,
    ensures
        sorts_at_or_before(zero_padded(x, 4), zero_padded(y, 4)),
        zero_padded(x, 4) != zero_padded(y, 4),
{
    let x_high = zero_padded(x / 100, 2);
    let y_high = zero_padded(y / 100, 2);
    let x_low = zero_padded(x % 100, 2);
    let y_low = zero_padded(y % 100, 2);
    lemma_four_digits(x);
    lemma_four_digits(y);
    lemma_two_digits(x / 100);
    lemma_two_digits(y / 100);
    lemma_two_digits(x % 100);
    lemma_two_digits(y % 100);
    lemma_sorts_by_blocks(x_high, y_high, x_low, y_low);
    if x / 100 < y / 100 {
        lemma_two_digits_order(x / 100, y / 100);
        if x_high + x_low == y_high + y_low {
            assert(x_high =~= (x_high + x_low).subrange(0, 2));
            assert(y_high =~= (y_high + y_low).subrange(0, 2));
        }
    } else {
        lemma_two_digits_order(x % 100, y % 100);
        if x_high + x_low == y_high + y_low {
            assert(x_low =~= (x_high + x_low).subrange(2, 4));
            assert(y_low =~= (y_high + y_low).subrange(2, 4));
        }
    }
}

/// A separator and a field of width two, each followed by its rest, are
/// ordered by the field, and by the rest where the fields are equal.
pub proof fn lemma_sorts_by_field(
    separator: Seq<char>,
    x: nat,
    y: nat,
    x_rest: Seq<char>,
    y_rest: Seq<char>,
)
    requires
        x <= y < 100,
        x == y ==> sorts_at_or_before(x_rest, y_rest),
    ensures
        sorts_at_or_before(
            separator + (zero_padded(x, 2) + x_rest),
            separator + (zero_padded(y, 2) + y_rest),
        ),
{
    lemma_two_digits(x);
    lemma_two_digits(y);
    lemma_sorts_by_blocks(
        separator,
        separator,
        zero_padded(x, 2) + x_rest,
        zero_padded(y, 2) + y_rest,
    );
    lemma_sorts_by_blocks(zero_padded(x, 2), zero_padded(y, 2), x_rest, y_rest);
    if x < y {
        lemma_two_digits_order(x, y);
    }
}

/// What follows the minute field in the stamp of `secs`.
pub open spec fn stamp_from_second(secs: nat) -> Seq<char> {
    seq![':'] + zero_padded(secs % (SECONDS_PER_MINUTE as nat), 2)
}

/// What follows the hour field in the stamp of `secs`.
pub open spec fn stamp_from_minute(secs: nat) -> Seq<char> {
    seq![':'] + (zero_padded(secs % (SECONDS_PER_HOUR as nat) / (SECONDS_PER_MINUTE as nat), 2)
        + stamp_from_second(secs))
}

/// What follows the day field in the stamp of `secs`.
pub open spec fn stamp_from_hour(secs: nat) -> Seq<char> {
    seq!['T'] + (zero_padded(secs % (SECONDS_PER_DAY as nat) / (SECONDS_PER_HOUR as nat), 2)
        + stamp_from_minute(secs))
}

/// What follows the month field in the stamp of `secs`.
pub open spec fn stamp_from_day(secs: nat) -> Seq<char> {
    seq!['-'] + (zero_padded(
        secs % (SECONDS_PER_YEAR as nat) % (SECONDS_PER_MONTH as nat) / (SECONDS_PER_DAY as nat)
            + 1,
        2,
    ) + stamp_from_hour(secs))
}

/// What follows the year field in the stamp of `secs`.
pub open spec fn stamp_from_month(secs: nat) -> Seq<char> {
    seq!['-'] + (zero_padded(
        secs % (SECONDS_PER_YEAR as nat) / (SECONDS_PER_MONTH as nat) + 1,
        2,
    ) + stamp_from_day(secs))
}

/// Eleven pieces strung together from the left are the same text as the
/// first piece followed by the rest, strung together from the right.
proof fn lemma_regroup(
    p0: Seq<char>,
    p1: Seq<char>,
    p2: Seq<char>,
    p3: Seq<char>,
    p4: Seq<char>,
    p5: Seq<char>,
    p6: Seq<char>,
    p7: Seq<char>,
    p8: Seq<char>,
    p9: Seq<char>,
    p10: Seq<char>,
)
    ensures
        p0 + p1 + p2 + p3 + p4 + p5 + p6 + p7 + p8 + p9 + p10 == p0 + (p1 + (p2 + (p3 + (p4 + (p5
            + (p6 + (p7 + (p8 + (p9 + p10))))))))),
{
    let tail9 = p9 + p10;
    let tail8 = p8 + tail9;
    let tail7 = p7 + tail8;
    let tail6 = p6 + tail7;
    let tail5 = p5 + tail6;
    let tail4 = p4 + tail5;
    let tail3 = p3 + tail4;
    let tail2 = p2 + tail3;
    let tail1 = p1 + tail2;
    let head1 = p0 + p1;
    let head2 = head1 + p2;
    let head3 = head2 + p3;
    let head4 = head3 + p4;
    let head5 = head4 + p5;
    let head6 = head5 + p6;
    let head7 = head6 + p7;
    let head8 = head7 + p8;
    assert(head8 + p9 + p10 =~= head8 + tail9);
    assert(head8 + tail9 =~= head7 + tail8);
    assert(head7 + tail8 =~= head6 + tail7);
    assert(head6 + tail7 =~= head5 + tail6);
    assert(head5 + tail6 =~= head4 + tail5);
    assert(head4 + tail5 =~= head3 + tail4);
    assert(head3 + tail4 =~= head2 + tail3);
    assert(head2 + tail3 =~= head1 + tail2);
    assert(head1 + tail2 =~= p0 + tail1);
}

/// The stamp is its year field followed by the rest, field by field.
pub proof fn lemma_stamp_by_fields(secs: nat)
    ensures
        timestamp_text(secs) == zero_padded(
            secs / (SECONDS_PER_YEAR as nat) + EPOCH_YEAR as nat,
            4,
        ) + stamp_from_month(secs),
{
    lemma_regroup(
        zero_padded(secs / (SECONDS_PER_YEAR as nat) + EPOCH_YEAR as nat, 4),
        seq!['-'],
        zero_padded(secs % (SECONDS_PER_YEAR as nat) / (SECONDS_PER_MONTH as nat) + 1, 2),
        seq!['-'],
        zero_padded(
            secs % (SECONDS_PER_YEAR as nat) % (SECONDS_PER_MONTH as nat) / (
            SECONDS_PER_DAY as nat) + 1,
            2,
        ),
        seq!['T'],
        zero_padded(secs % (SECONDS_PER_DAY as nat) / (SECONDS_PER_HOUR as nat), 2),
        seq![':'],
        zero_padded(secs % (SECONDS_PER_HOUR as nat) / (SECONDS_PER_MINUTE as nat), 2),
        seq![':'],
        zero_padded(secs % (SECONDS_PER_MINUTE as nat), 2),
    );
}

/// From the hour on, stamps keep the order of the seconds of the day.
proof fn lemma_order_from_hour(a: nat, b: nat)
    requires
        a % (SECONDS_PER_DAY as nat) <= b % (SECONDS_PER_DAY as nat),
    ensures
        sorts_at_or_before(stamp_from_hour(a), stamp_from_hour(b)),
{
    let hour_a = a % (SECONDS_PER_DAY as nat) / (SECONDS_PER_HOUR as nat);
    let hour_b = b % (SECONDS_PER_DAY as nat) / (SECONDS_PER_HOUR as nat);
    let minute_a = a % (SECONDS_PER_HOUR as nat) / (SECONDS_PER_MINUTE as nat);
    let minute_b = b % (SECONDS_PER_HOUR as nat) / (SECONDS_PER_MINUTE as nat);
    let second_a = a % (SECONDS_PER_MINUTE as nat);
    let second_b = b % (SECONDS_PER_MINUTE as nat);
    let day = SECONDS_PER_DAY as nat;
    let hour = SECONDS_PER_HOUR as nat;
    let minute = SECONDS_PER_MINUTE as nat;
    assert(a % day % hour == a % hour && b % day % hour == b % hour);
    assert(a % hour % minute == a % minute && b % hour % minute == b % minute);
    if hour_a == hour_b {
        assert(a % hour <= b % hour);
        if minute_a == minute_b {
            assert(second_a <= second_b);
            lemma_sorts_by_field(
                seq![':'],
                second_a,
                second_b,
                Seq::<char>::empty(),
                Seq::<char>::empty(),
            );
            assert(zero_padded(second_a, 2) + Seq::<char>::empty() =~= zero_padded(second_a, 2));
            assert(zero_padded(second_b, 2) + Seq::<char>::empty() =~= zero_padded(second_b, 2));
        }
        lemma_sorts_by_field(
            seq![':'],
            minute_a,
            minute_b,
            stamp_from_second(a),
            stamp_from_second(b),
        );
    }
    lemma_sorts_by_field(seq!['T'], hour_a, hour_b, stamp_from_minute(a), stamp_from_minute(b));
}

/// From the month on, stamps keep the order of the seconds of the year.
proof fn lemma_order_from_month(a: nat, b: nat)
    requires
        a % (SECONDS_PER_YEAR as nat) <= b % (SECONDS_PER_YEAR as nat),
    ensures
        sorts_at_or_before(stamp_from_month(a), stamp_from_month(b)),
{
    let in_year_a = a % (SECONDS_PER_YEAR as nat);
    let in_year_b = b % (SECONDS_PER_YEAR as nat);
    let month_a = in_year_a / (SECONDS_PER_MONTH as nat) + 1;
    let month_b = in_year_b / (SECONDS_PER_MONTH as nat) + 1;
    let day_a = in_year_a % (SECONDS_PER_MONTH as nat) / (SECONDS_PER_DAY as nat) + 1;
    let day_b = in_year_b % (SECONDS_PER_MONTH as nat) / (SECONDS_PER_DAY as nat) + 1;
    let month = SECONDS_PER_MONTH as nat;
    let day = SECONDS_PER_DAY as nat;
    assert(in_year_a % month % day == a % day);
    assert(in_year_b % month % day == b % day);
    if month_a == month_b {
        assert(in_year_a % month <= in_year_b % month);
        if day_a == day_b {
            assert(a % day <= b % day);
            lemma_order_from_hour(a, b);
        }
        lemma_sorts_by_field(seq!['-'], day_a, day_b, stamp_from_hour(a), stamp_from_hour(b));
    }
    lemma_sorts_by_field(seq!['-'], month_a, month_b, stamp_from_day(a), stamp_from_day(b));
}

/// Two seconds in time order have their years in that order, and within one
/// year their seconds of the year.
proof fn lemma_year_order(a: nat, b: nat)
    requires
        a <= b < FIVE_DIGIT_YEAR,
    ensures
        a / (SECONDS_PER_YEAR as nat) <= b / (SECONDS_PER_YEAR as nat),
        b / (SECONDS_PER_YEAR as nat) + (EPOCH_YEAR as nat) < 10000,
        a / (SECONDS_PER_YEAR as nat) == b / (SECONDS_PER_YEAR as nat) ==> a % (
        SECONDS_PER_YEAR as nat) <= b % (SECONDS_PER_YEAR as nat),
{
}

/// A number that fits a field of width four fills it.
proof fn lemma_four_digits_len(n: nat)
    requires
        n < 10000,
    ensures
        zero_padded(n, 4).len() == 4,
{
    lemma_decimal_len(n);
}

/// Stamps keep the order of time: as long as the year field has four digits,
/// the stamp of an earlier second sorts at or before the stamp of a later
/// one, so log lines sorted as text are sorted by time.
pub proof fn lemma_stamps_keep_order(a: nat, b: nat)
    requires
        a <= b < FIVE_DIGIT_YEAR,
    ensures
        sorts_at_or_before(timestamp_text(a), timestamp_text(b)),
{
    let year_a = a / (SECONDS_PER_YEAR as nat) + EPOCH_YEAR as nat;
    let year_b = b / (SECONDS_PER_YEAR as nat) + EPOCH_YEAR as nat;
    lemma_year_order(a, b);
    lemma_stamp_by_fields(a);
    lemma_stamp_by_fields(b);
    lemma_four_digits_len(year_a);
    lemma_four_digits_len(year_b);
    lemma_sorts_by_blocks(
        zero_padded(year_a, 4),
        zero_padded(year_b, 4),
        stamp_from_month(a),
        stamp_from_month(b),
    );
    if year_a < year_b {
        lemma_four_digits_order(year_a, year_b);
    } else {
        lemma_order_from_month(a, b);
    }
}

/// The one-character text of the digit `d`.
fn digit_text(d: u64) -> (text: &'static str)
    requires
        d < 10,
    ensures
        text@ == seq![digit_char(d as nat)],
{
    proof {
        reveal_strlit("0");
        reveal_strlit("1");
        reveal_strlit("2");
        reveal_strlit("3");
        reveal_strlit("4");
        reveal_strlit("5");
        reveal_strlit("6");
        reveal_strlit("7");
        reveal_strlit("8");
        reveal_strlit("9");
    }
    match d {
        0 => "0",
        1 => "1",
        2 => "2",
        3 => "3",
        4 => "4",
        5 => "5",
        6 => "6",
        7 => "7",
        8 => "8",
        _ => "9",
    }
}

/// Appends the decimal digits of `n` to `out`.
fn push_decimal(out: &mut String, n: u64)
    ensures
        final(out)@ == old(out)@ + decimal(n as nat),
    decreases n,
{
    if n >= 10 {
        push_decimal(out, n / 10);
    }
    out.append(digit_text(n % 10));
}

/// How many decimal digits `n` has.
fn decimal_width(n: u64) -> (width: u64)
    ensures
        width == decimal(n as nat).len(),
        1 <= width <= n / 10 + 1,
    decreases n,
{
    if n < 10 {
        1
    } else {
        1 + decimal_width(n / 10)
    }
}

/// `n` in decimal, filled with zeros on the left up to `width` characters.
pub fn zero_padded_text(n: u64, width: u64) -> (text: String)
    ensures
        text@ == zero_padded(n as nat, width as nat),
{
    let digits = decimal_width(n);
    let mut text = String::new();
    let mut filled: u64 = digits;
    while filled < width
        invariant
            digits <= filled,
            digits < width ==> filled <= width,
            digits >= width ==> filled == digits,
            text@ == zeros((filled - digits) as nat),
        decreases width - filled,
    {
        proof {
            reveal_strlit("0");
        }
        text.append("0");
        filled = filled + 1;
    }
    push_decimal(&mut text, n);
    proof {
        if digits >= width {
            assert(zeros(0) + decimal(n as nat) == decimal(n as nat));
        }
    }
    text
}

/// The stamp for `secs` seconds since the epoch.
pub fn format_timestamp(secs: u64) -> (text: String)
    ensures
        text@ == timestamp_text(secs as nat),
{
    proof {
        reveal_strlit("-");
        reveal_strlit("T");
        reveal_strlit(":");
    }
    let mut text = zero_padded_text(secs / SECONDS_PER_YEAR + EPOCH_YEAR, 4);
    text.append("-");
    let month = zero_padded_text(secs % SECONDS_PER_YEAR / SECONDS_PER_MONTH + 1, 2);
    text.append(month.as_str());
    text.append("-");
    let day = zero_padded_text(
        secs % SECONDS_PER_YEAR % SECONDS_PER_MONTH / SECONDS_PER_DAY + 1,
        2,
    );
    text.append(day.as_str());
    text.append("T");
    let hour = zero_padded_text(secs % SECONDS_PER_DAY / SECONDS_PER_HOUR, 2);
    text.append(hour.as_str());
    text.append(":");
    let minute = zero_padded_text(secs % SECONDS_PER_HOUR / SECONDS_PER_MINUTE, 2);
    text.append(minute.as_str());
    text.append(":");
    let second = zero_padded_text(secs % SECONDS_PER_MINUTE, 2);
    text.append(second.as_str());
    text
}

#[verifier::external_type_specification]
#[verifier::external_body]
pub struct ExSystemTime(SystemTime);

#[verifier::external_type_specification]
#[verifier::external_body]
pub struct ExSystemTimeError(SystemTimeError);

/// `SystemTime::now`: the reading of the wall clock. Nothing is claimed of
/// it: two readings may differ in either direction.
#[verifier::external_body]
fn clock_now() -> SystemTime {
    SystemTime::now()
}

/// `SystemTime::duration_since` with `UNIX_EPOCH` as the earlier time: the time
/// from the epoch to `reading`, or an error where `reading` lies before the
/// epoch. Nothing is claimed of which of the two comes back.
#[verifier::external_body]
fn since_unix_epoch(reading: &SystemTime) -> Result<Duration, SystemTimeError> {
    reading.duration_since(UNIX_EPOCH)
}

/// `Duration::as_secs`: the whole seconds of `elapsed`. Nothing is claimed of
/// the number.
#[verifier::external_body]
fn whole_seconds(elapsed: &Duration) -> u64 {
    elapsed.as_secs()
}

/// The text that opens a log line: the stamp of `seconds` since the epoch, or
/// the text `Unknown` where the clock gave no such number.
pub fn stamp_text(seconds: Option<u64>) -> (text: String)
    ensures
        text@ == match seconds {
            Some(secs) => timestamp_text(secs as nat),
            None => unknown_text(),
        },
{
    match seconds {
        Some(secs) => format_timestamp(secs),
        None => {
            proof {
                reveal_strlit("Unknown");
            }
            String::from_str("Unknown")
        },
    }
}

/// The stamp of the present moment, or the text `Unknown` where the clock
/// reads a time before the epoch.
///
/// The clock decides which second is stamped; [`stamp_text`] says what is
/// returned for each reading.
pub fn chrono_timestamp() -> (text: String)
    ensures
        text@ == unknown_text() || exists|secs: u64| text@ == timestamp_text(secs as nat),
{
    let reading = clock_now();
    match since_unix_epoch(&reading) {
        Ok(elapsed) => stamp_text(Some(whole_seconds(&elapsed))),
        Err(_) => stamp_text(None),
    }
}

} // verus!
