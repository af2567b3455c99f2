//! The civil calendar, for names and stamps that people read.
//!
//! The conversion itself is made by the `time` crate. What it means is stated here: a civil
//! time is the one whose distance from the Unix epoch, counted out in days of the Gregorian
//! calendar, is the given number of seconds.

use vstd::prelude::*;

use crate::clock::Timestamp;

verus! {

/// A second of the Gregorian calendar, in UTC.
#[derive(Debug, Clone, Copy, PartialEq, Eq, Structural)]
pub struct Civil {
    pub year: i32,
    pub month: u8,
    pub day: u8,
    pub hour: u8,
    pub minute: u8,
    pub second: u8,
}

/// Whether a year of the Gregorian calendar has 366 days.
pub open spec fn is_leap(year: int) -> bool {
    year % 4 == 0 && (year % 100 != 0 || year % 400 == 0)
}

/// Days from the start of the year 0 to the start of `year`.
pub open spec fn days_before_year(year: int) -> int {
    365 * year + (year + 3) / 4 - (year + 99) / 100 + (year + 399) / 400
}

/// Days from the start of `year` to the start of its month `month`.
pub open spec fn days_before_month(year: int, month: int) -> int {
    let feb = if is_leap(year) { 29int } else { 28 };
    if month <= 1 { 0 }
    else if month == 2 { 31 }
    else if month == 3 { 31 + feb }
    else if month == 4 { 62 + feb }
    else if month == 5 { 92 + feb }
    else if month == 6 { 123 + feb }
    else if month == 7 { 153 + feb }
    else if month == 8 { 184 + feb }
    else if month == 9 { 215 + feb }
    else if month == 10 { 245 + feb }
    else if month == 11 { 276 + feb }
    else if month == 12 { 306 + feb }
    else { 337 + feb }
}

/// How many days the month `month` of `year` has.
pub open spec fn days_in_month(year: int, month: int) -> int {
    days_before_month(year, month + 1) - days_before_month(year, month)
}

impl Civil {
    /// Whether there is such a second.
    pub open spec fn valid(self) -> bool {
        &&& 1 <= self.month <= 12
        &&& 1 <= self.day <= days_in_month(self.year as int, self.month as int)
        &&& self.hour < 24
        &&& self.minute < 60
        &&& self.second < 60
    }

    /// Days from the Unix epoch to this day.
    pub open spec fn days(self) -> int {
        days_before_year(self.year as int) + days_before_month(self.year as int, self.month as int)
            + self.day - 1 - days_before_year(1970)
    }

    /// Seconds from the Unix epoch to this second.
    pub open spec fn seconds(self) -> int {
        self.days() * 86400 + self.hour * 3600 + self.minute * 60 + self.second
    }

    /// Whether this is earlier than `other`, field by field.
    pub open spec fn earlier(self, other: Civil) -> bool {
        ||| self.year < other.year
        ||| self.year == other.year && self.month < other.month
        ||| self.year == other.year && self.month == other.month && self.day < other.day
        ||| self.year == other.year && self.month == other.month && self.day == other.day && (
        self.hour < other.hour || self.hour == other.hour && (self.minute < other.minute
            || self.minute == other.minute && self.second < other.second))
    }
}

/// The civil time `seconds` after the Unix epoch.
pub open spec fn civil_of(seconds: int) -> Civil {
    choose|c: Civil| c.valid() && c.seconds() == seconds
}

/// The civil time `seconds` after the Unix epoch.
///
/// Trusted: `time::OffsetDateTime::from_unix_timestamp` succeeds on every second of the years
/// -9999 to 9999, and its `year`, `month`, `day`, `hour`, `minute` and `second` are those of
/// the proleptic Gregorian calendar in UTC.
#[verifier::external_body]
fn split_seconds(seconds: i64) -> (result: Civil)
    requires
        crate::clock::FIRST_SECOND <= seconds <= crate::clock::LAST_SECOND,
    ensures
        result.valid(),
        result.seconds() == seconds,
        -9999 <= result.year <= 9999,
{
    let at = time::OffsetDateTime::from_unix_timestamp(seconds).unwrap();
    Civil {
        year: at.year(),
        month: u8::from(at.month()),
        day: at.day(),
        hour: at.hour(),
        minute: at.minute(),
        second: at.second(),
    }
}

/// The civil time of an instant, with the part of a second left out.
pub fn civil(at: Timestamp) -> (result: Civil)
    requires
        at.valid(),
    ensures
        result == civil_of(at.seconds as int),
        result.valid(),
        result.seconds() == at.seconds,
        -9999 <= result.year <= 9999,
{
    let result = split_seconds(at.seconds);
    proof {
        let chosen = civil_of(at.seconds as int);
        law_seconds_determine_the_civil_time(result, chosen);
    }
    result
}

proof fn lemma_year_length(year: int)
    ensures
        days_before_year(year + 1) == days_before_year(year) + (if is_leap(year) {
            366int
        } else {
            365
        }),
        days_before_month(year, 13) == (if is_leap(year) { 366int } else { 365 }),
{
    lemma_multiples(year, 4);
    lemma_multiples(year, 100);
    lemma_multiples(year, 400);
    assert(year % 400 == 0 ==> year % 100 == 0) by {
        assert(year == 400 * (year / 400) + year % 400);
    }
    assert(year % 100 == 0 ==> year % 4 == 0) by {
        assert(year == 100 * (year / 100) + year % 100);
    }
}

/// Counting the multiples of `n` below a number goes up by one just after each of them.
proof fn lemma_multiples(year: int, n: int)
    requires
        n > 1,
    ensures
        (year + n) / n - (year + n - 1) / n == (if year % n == 0 { 1int } else { 0 }),
{
    let q = year / n;
    let r = year % n;
    vstd::arithmetic::div_mod::lemma_fundamental_div_mod(year, n);
    assert((year + n) / n == q + 1) by {
        assert(year + n == n * (q + 1) + r) by (nonlinear_arith)
            requires
                year == n * q + r,
        ;
        vstd::arithmetic::div_mod::lemma_fundamental_div_mod_converse(year + n, n, q + 1, r);
    }
    if r == 0 {
        assert(year + n - 1 == n * q + (n - 1));
        vstd::arithmetic::div_mod::lemma_fundamental_div_mod_converse(year + n - 1, n, q, n - 1);
    } else {
        assert(year + n - 1 == n * (q + 1) + (r - 1)) by (nonlinear_arith)
            requires
                year == n * q + r,
        ;
        vstd::arithmetic::div_mod::lemma_fundamental_div_mod_converse(
            year + n - 1,
            n,
            q + 1,
            r - 1,
        );
    }
}

proof fn lemma_years_ascend(earlier: int, later: int)
    requires
        earlier < later,
    ensures
        days_before_year(earlier + 1) <= days_before_year(later),
    decreases later - earlier,
{
    if earlier + 1 < later {
        lemma_years_ascend(earlier, later - 1);
        lemma_year_length(later - 1);
    }
}

proof fn lemma_months_ascend(year: int, earlier: int, later: int)
    requires
        1 <= earlier < later <= 13,
    ensures
        days_before_month(year, earlier + 1) <= days_before_month(year, later),
{
}

/// Of two civil times, the one that reads earlier is the earlier.
pub proof fn law_civil_order_is_time_order(a: Civil, b: Civil)
    requires
        a.valid(),
        b.valid(),
        a.earlier(b),
    ensures
        a.seconds() < b.seconds(),
{
    if a.year < b.year {
        lemma_year_length(a.year as int);
        lemma_years_ascend(a.year as int, b.year as int);
        if a.month < 12 {
            lemma_months_ascend(a.year as int, a.month as int, 13);
        }
        assert(a.days() < b.days());
    } else if a.month < b.month {
        lemma_months_ascend(a.year as int, a.month as int, b.month as int);
        assert(a.days() < b.days());
    }
}

/// No two civil times name the same second.
pub proof fn law_seconds_determine_the_civil_time(a: Civil, b: Civil)
    requires
        a.valid(),
        b.valid(),
        a.seconds() == b.seconds(),
    ensures
        a == b,
{
    if a != b {
        if a.earlier(b) {
            law_civil_order_is_time_order(a, b);
        } else {
            assert(b.earlier(a));
            law_civil_order_is_time_order(b, a);
        }
    }
}

/// The year that day `day` of the count from the year 0 falls in, searched upwards from `from`.
proof fn lemma_year_of(day: int, from: int) -> (year: int)
    requires
        days_before_year(from) <= day,
    ensures
        from <= year,
        days_before_year(year) <= day < days_before_year(year + 1),
    decreases day - days_before_year(from),
{
    lemma_year_length(from);
    if day < days_before_year(from + 1) {
        from
    } else {
        lemma_year_of(day, from + 1)
    }
}

/// The month that day `day` of `year` falls in.
proof fn lemma_month_of(year: int, day: int) -> (month: int)
    requires
        0 <= day < days_before_month(year, 13),
    ensures
        1 <= month <= 12,
        days_before_month(year, month) <= day < days_before_month(year, month + 1),
{
    if day < days_before_month(year, 2) {
        1
    } else if day < days_before_month(year, 3) {
        2
    } else if day < days_before_month(year, 4) {
        3
    } else if day < days_before_month(year, 5) {
        4
    } else if day < days_before_month(year, 6) {
        5
    } else if day < days_before_month(year, 7) {
        6
    } else if day < days_before_month(year, 8) {
        7
    } else if day < days_before_month(year, 9) {
        8
    } else if day < days_before_month(year, 10) {
        9
    } else if day < days_before_month(year, 11) {
        10
    } else if day < days_before_month(year, 12) {
        11
    } else {
        12
    }
}

/// The second at which the year 0 begins.
pub const YEAR_ZERO: i64 = -62_167_219_200;

/// Every instant a timestamp can name has a civil time.
#[verifier::spinoff_prover]
#[verifier::rlimit(50)]
pub proof fn law_every_instant_has_a_civil_time(at: Timestamp)
    requires
        at.valid(),
    ensures
        civil_of(at.seconds as int).valid(),
        civil_of(at.seconds as int).seconds() == at.seconds,
        -9999 <= civil_of(at.seconds as int).year <= 9999,
        at.seconds >= YEAR_ZERO ==> civil_of(at.seconds as int).year >= 0,
{
    let day = at.seconds as int / 86400;
    let second = at.seconds as int % 86400;
    let count = day + days_before_year(1970);
    let year = lemma_year_of(count, -9999);
    lemma_year_length(year);
    if year > 9999 {
        if year > 10000 {
            lemma_years_ascend(9999, year);
        }
        assert(days_before_year(10000) <= count);
    }
    if at.seconds >= YEAR_ZERO && year < 0 {
        lemma_years_ascend(year, 0);
    }
    let month = lemma_month_of(year, count - days_before_year(year));
    let witness = Civil {
        year: year as i32,
        month: month as u8,
        day: (count - days_before_year(year) - days_before_month(year, month) + 1) as u8,
        hour: (second / 3600) as u8,
        minute: (second % 3600 / 60) as u8,
        second: (second % 60) as u8,
    };
    assert(days_in_month(year, month) <= 31);
    assert(second / 3600 < 24 && second % 3600 / 60 < 60 && second % 60 < 60);
    assert(second == second / 3600 * 3600 + second % 3600 / 60 * 60 + second % 60);
    assert(witness.valid());
    assert(witness.seconds() == at.seconds);
    law_seconds_determine_the_civil_time(witness, civil_of(at.seconds as int));
}

/// A year in at least four places, with a sign when it is negative.
pub open spec fn year_text(year: int) -> Seq<char> {
    if year >= 0 {
        crate::text::padded(year as nat, 4)
    } else {
        "-"@ + crate::text::padded((-year) as nat, 3)
    }
}

/// A number in at least two places.
pub open spec fn two(n: u8) -> Seq<char> {
    crate::text::padded(n as nat, 2)
}

/// A year in at least four places, with a sign when it is negative.
pub(crate) fn format_year(year: i32) -> (result: String)
    requires
        -9999 <= year <= 9999,
    ensures
        result@ == year_text(year as int),
{
    if year >= 0 {
        crate::text::padded_text(year as u64, 4)
    } else {
        let positive: i32 = 0i32 - year;
        crate::text::concat("-", crate::text::padded_text(positive as u64, 3).as_str())
    }
}

/// A number in at least two places.
pub(crate) fn format_two(n: u8) -> (result: String)
    ensures
        result@ == two(n),
{
    crate::text::padded_text(n as u64, 2)
}

/// The calendar date, as `2026-09-11`.
pub open spec fn date_text(c: Civil) -> Seq<char> {
    year_text(c.year as int) + "-"@ + two(c.month) + "-"@ + two(c.day)
}

/// The calendar date, as `2026-09-11`.
pub fn format_date(c: Civil) -> (result: String)
    requires
        -9999 <= c.year <= 9999,
    ensures
        result@ == date_text(c),
{
    let mut out = format_year(c.year);
    out.append("-");
    out.append(format_two(c.month).as_str());
    out.append("-");
    out.append(format_two(c.day).as_str());
    out
}

/// Digits without the zeros at their end.
pub open spec fn without_trailing_zeros(digits: Seq<char>) -> Seq<char>
    decreases digits.len(),
{
    if digits.len() > 0 && digits.last() == '0' {
        without_trailing_zeros(digits.drop_last())
    } else {
        digits
    }
}

/// The part of a second after the decimal point, with the point, or nothing for a whole second.
pub open spec fn fraction_text(nanos: u32) -> Seq<char> {
    if nanos == 0 {
        Seq::empty()
    } else {
        "."@ + without_trailing_zeros(crate::text::padded(nanos as nat, 9))
    }
}

/// An instant as RFC 3339 writes it, in UTC. The format reaches from the year 0 to 9999.
pub open spec fn rfc3339_text(at: Timestamp) -> Option<Seq<char>> {
    let c = civil_of(at.seconds as int);
    if c.year < 0 {
        None
    } else {
        Some(
            date_text(c) + "T"@ + two(c.hour) + ":"@ + two(c.minute) + ":"@ + two(c.second)
                + fraction_text(at.nanos) + "Z"@,
        )
    }
}

/// An instant as RFC 3339 writes it, in UTC.
///
/// Trusted: `time::OffsetDateTime::format` with the well-known description `Rfc3339` writes
/// date and time with their fields padded to full width, the nanoseconds without trailing
/// zeros when there are any, and `Z` for UTC; it fails on years outside 0 to 9999.
#[verifier::external_body]
pub(crate) fn format_rfc3339(at: Timestamp) -> (result: Option<String>)
    requires
        at.valid(),
    ensures
        match result {
            Some(text) => rfc3339_text(at) == Some(text@),
            None => rfc3339_text(at) is None,
        },
{
    let second = time::OffsetDateTime::from_unix_timestamp(at.seconds).unwrap();
    let moment = second.replace_nanosecond(at.nanos).unwrap();
    moment.format(&time::format_description::well_known::Rfc3339).ok()
}

// ── digits in order ─────────────────────────────────────────────────────────

/// Texts that agree in front compare as what follows.
pub proof fn lemma_before_after_prefix(p: Seq<char>, x: Seq<char>, y: Seq<char>)
    ensures
        crate::text::before(p + x, p + y) == crate::text::before(x, y),
    decreases p.len(),
{
    if p.len() == 0 {
        assert(p + x =~= x);
        assert(p + y =~= y);
    } else {
        lemma_before_after_prefix(p.drop_first(), x, y);
        assert((p + x).drop_first() =~= p.drop_first() + x);
        assert((p + y).drop_first() =~= p.drop_first() + y);
    }
}

/// Texts of one length that differ compare the same whatever follows.
pub proof fn lemma_before_with_suffix(u: Seq<char>, v: Seq<char>, x: Seq<char>, y: Seq<char>)
    requires
        u.len() == v.len(),
        crate::text::before(u, v),
    ensures
        crate::text::before(u + x, v + y),
    decreases u.len(),
{
    if u.len() > 0 && u[0] == v[0] {
        lemma_before_with_suffix(u.drop_first(), v.drop_first(), x, y);
        assert((u + x).drop_first() =~= u.drop_first() + x);
        assert((v + y).drop_first() =~= v.drop_first() + y);
    }
}

/// A number below a hundred takes two digits.
pub proof fn lemma_two_digits(n: nat)
    requires
        n < 100,
    ensures
        crate::text::padded(n, 2) == seq![
            crate::text::digit((n / 10) as int),
            crate::text::digit((n % 10) as int),
        ],
{
    reveal_with_fuel(crate::text::decimal, 3);
    let expected = seq![
        crate::text::digit((n / 10) as int),
        crate::text::digit((n % 10) as int),
    ];
    assert(crate::text::padded(n, 2) =~= expected);
}

/// A number below ten thousand takes four digits.
pub proof fn lemma_four_digits(n: nat)
    requires
        n < 10000,
    ensures
        crate::text::padded(n, 4) == crate::text::padded(n / 100, 2) + crate::text::padded(
            n % 100,
            2,
        ),
{
    reveal_with_fuel(crate::text::decimal, 5);
    lemma_two_digits(n / 100);
    lemma_two_digits(n % 100);
    let whole = crate::text::padded(n, 4);
    let parts = crate::text::padded(n / 100, 2) + crate::text::padded(n % 100, 2);
    assert(n / 10 / 10 == n / 100);
    assert(n / 10 / 10 / 10 == n / 1000);
    assert(whole.len() == 4);
    assert(whole =~= parts);
}

/// Two-digit numbers sort as they count.
pub proof fn lemma_two_digits_ascend(m: nat, n: nat)
    requires
        m < n < 100,
    ensures
        crate::text::before(crate::text::padded(m, 2), crate::text::padded(n, 2)),
        crate::text::padded(m, 2).len() == crate::text::padded(n, 2).len(),
{
    lemma_two_digits(m);
    lemma_two_digits(n);
    reveal_with_fuel(crate::text::before, 3);
    let a = crate::text::padded(m, 2);
    let b = crate::text::padded(n, 2);
    assert(a.drop_first()[0] == a[1]);
    assert(b.drop_first()[0] == b[1]);
}

/// Four-digit numbers sort as they count.
pub proof fn lemma_four_digits_ascend(m: nat, n: nat)
    requires
        m < n < 10000,
    ensures
        crate::text::before(crate::text::padded(m, 4), crate::text::padded(n, 4)),
        crate::text::padded(m, 4).len() == crate::text::padded(n, 4).len(),
{
    lemma_four_digits(m);
    lemma_four_digits(n);
    lemma_two_digits(m / 100);
    lemma_two_digits(n / 100);
    lemma_two_digits(m % 100);
    lemma_two_digits(n % 100);
    if m / 100 < n / 100 {
        lemma_two_digits_ascend(m / 100, n / 100);
        lemma_before_with_suffix(
            crate::text::padded(m / 100, 2),
            crate::text::padded(n / 100, 2),
            crate::text::padded(m % 100, 2),
            crate::text::padded(n % 100, 2),
        );
    } else {
        lemma_two_digits_ascend(m % 100, n % 100);
        lemma_before_after_prefix(
            crate::text::padded(m / 100, 2),
            crate::text::padded(m % 100, 2),
            crate::text::padded(n % 100, 2),
        );
    }
}

/// Every month has the days that the Gregorian calendar gives it, in every year.
pub proof fn law_a_month_has_its_days(year: int, month: int)
    requires
        1 <= month <= 12,
    ensures
        month == 1 || month == 3 || month == 5 || month == 7 || month == 8 || month == 10 || month
            == 12 ==> days_in_month(year, month) == 31,
        month == 4 || month == 6 || month == 9 || month == 11 ==> days_in_month(year, month) == 30,
        month == 2 && (year % 400 == 0 || (year % 4 == 0 && year % 100 != 0)) ==> days_in_month(
            year,
            month,
        ) == 29,
        month == 2 && !(year % 400 == 0 || (year % 4 == 0 && year % 100 != 0)) ==> days_in_month(
            year,
            month,
        ) == 28,
{
    assert(year % 400 == 0 ==> year % 4 == 0 && year % 100 == 0);
}

/// The days follow one another: the day after is the next of its month, the first of the next
/// month after the last of one, or the first of the next year, and lasts as long as any.
pub proof fn law_the_days_follow_one_another(today: Civil, tomorrow: Civil)
    requires
        today.valid(),
        tomorrow.valid(),
        tomorrow.hour == today.hour && tomorrow.minute == today.minute && tomorrow.second
            == today.second,
        ({
            ||| tomorrow.year == today.year && tomorrow.month == today.month && tomorrow.day
                == today.day + 1
            ||| tomorrow.year == today.year && tomorrow.month == today.month + 1 && tomorrow.day
                == 1 && today.day == days_in_month(today.year as int, today.month as int)
            ||| tomorrow.year == today.year + 1 && tomorrow.month == 1 && tomorrow.day == 1
                && today.month == 12 && today.day == 31
        }),
    ensures
        tomorrow.seconds() == today.seconds() + 24 * 60 * 60,
{
    lemma_year_length(today.year as int);
}

/// Seconds count from the start of 1970, and within a day by hours of 3600 and minutes of 60.
pub proof fn law_seconds_count_from_1970(at: Civil, midnight: Civil)
    requires
        midnight.year == at.year && midnight.month == at.month && midnight.day == at.day,
        midnight.hour == 0 && midnight.minute == 0 && midnight.second == 0,
    ensures
        at.seconds() == midnight.seconds() + at.hour * 3600 + at.minute * 60 + at.second,
        at.year == 1970 && at.month == 1 && at.day == 1 ==> midnight.seconds() == 0,
{
}

/// A fraction of a second is its nine digits without the zeros at their end, and no fraction
/// at all is left out.
pub proof fn law_a_fraction_drops_only_its_last_zeros(nanos: u32)
    ensures
        nanos == 0 ==> fraction_text(nanos).len() == 0,
        nanos > 0 ==> {
            let digits = crate::text::padded(nanos as nat, 9);
            let kept = without_trailing_zeros(digits);
            &&& fraction_text(nanos) == "."@ + kept
            &&& kept.is_prefix_of(digits)
            &&& forall|i: int| kept.len() <= i < digits.len() ==> #[trigger] digits[i] == '0'
            &&& kept.len() > 0 ==> kept.last() != '0'
        },
{
    lemma_without_trailing_zeros(crate::text::padded(nanos as nat, 9));
}

proof fn lemma_without_trailing_zeros(digits: Seq<char>)
    ensures
        ({
            let kept = without_trailing_zeros(digits);
            &&& kept.is_prefix_of(digits)
            &&& forall|i: int| kept.len() <= i < digits.len() ==> #[trigger] digits[i] == '0'
            &&& kept.len() > 0 ==> kept.last() != '0'
        }),
    decreases digits.len(),
{
    if digits.len() > 0 && digits.last() == '0' {
        let rest = digits.drop_last();
        lemma_without_trailing_zeros(rest);
        let kept = without_trailing_zeros(rest);
        assert forall|i: int| kept.len() <= i < digits.len() implies #[trigger] digits[i]
            == '0' by {
            if i < rest.len() {
                assert(rest[i] == digits[i]);
            }
        }
        assert(kept =~= digits.take(kept.len() as int)) by {
            assert(kept =~= rest.take(kept.len() as int));
        }
    } else {
        assert(digits =~= digits.take(digits.len() as int));
    }
}

pub(crate) proof fn lemma_field_widths(c: Civil)
    requires
        c.valid(),
        0 <= c.year <= 9999,
    ensures
        year_text(c.year as int).len() == 4,
        two(c.month).len() == 2,
        two(c.day).len() == 2,
        two(c.hour).len() == 2,
        two(c.minute).len() == 2,
        two(c.second).len() == 2,
        crate::text::number_in(year_text(c.year as int)) == c.year,
        crate::text::number_in(two(c.month)) == c.month,
        crate::text::number_in(two(c.day)) == c.day,
        crate::text::number_in(two(c.hour)) == c.hour,
        crate::text::number_in(two(c.minute)) == c.minute,
        crate::text::number_in(two(c.second)) == c.second,
{
    reveal_with_fuel(crate::text::decimal, 5);
    law_a_month_has_its_days(c.year as int, c.month as int);
    crate::text::law_padding_keeps_the_number(c.year as nat, 4);
    crate::text::law_padding_keeps_the_number(c.month as nat, 2);
    crate::text::law_padding_keeps_the_number(c.day as nat, 2);
    crate::text::law_padding_keeps_the_number(c.hour as nat, 2);
    crate::text::law_padding_keeps_the_number(c.minute as nat, 2);
    crate::text::law_padding_keeps_the_number(c.second as nat, 2);
}

/// A date reads back: four digits of the year, two of the month and two of the day, with a
/// dash between them.
pub proof fn law_a_date_reads_back(c: Civil)
    requires
        c.valid(),
        0 <= c.year <= 9999,
    ensures
        ({
            let text = date_text(c);
            &&& text.len() == 10
            &&& crate::text::number_in(text.subrange(0, 4)) == c.year
            &&& text[4] == '-'
            &&& crate::text::number_in(text.subrange(5, 7)) == c.month
            &&& text[7] == '-'
            &&& crate::text::number_in(text.subrange(8, 10)) == c.day
        }),
{
    lemma_field_widths(c);
    reveal_strlit("-");
    let text = date_text(c);
    assert(text.subrange(0, 4) =~= year_text(c.year as int));
    assert(text.subrange(5, 7) =~= two(c.month));
    assert(text.subrange(8, 10) =~= two(c.day));
}

/// An instant reads back: its date, a `T`, two digits each of hour, minute and second with a
/// colon between them, the fraction if there is one, and a `Z`.
pub proof fn law_an_instant_reads_back(at: Timestamp)
    requires
        at.valid(),
        YEAR_ZERO <= at.seconds,
    ensures
        ({
            let c = civil_of(at.seconds as int);
            let text = rfc3339_text(at)->0;
            let n = text.len() as int;
            &&& rfc3339_text(at) is Some
            &&& n == 20 + fraction_text(at.nanos).len()
            &&& text.subrange(0, 10) == date_text(c)
            &&& text[10] == 'T'
            &&& crate::text::number_in(text.subrange(11, 13)) == c.hour
            &&& text[13] == ':'
            &&& crate::text::number_in(text.subrange(14, 16)) == c.minute
            &&& text[16] == ':'
            &&& crate::text::number_in(text.subrange(17, 19)) == c.second
            &&& text.subrange(19, n - 1) == fraction_text(at.nanos)
            &&& text[n - 1] == 'Z'
        }),
{
    law_every_instant_has_a_civil_time(at);
    let c = civil_of(at.seconds as int);
    lemma_field_widths(c);
    law_a_date_reads_back(c);
    reveal_strlit("T");
    reveal_strlit(":");
    reveal_strlit("Z");
    let text = rfc3339_text(at)->0;
    let n = text.len() as int;
    assert(text.subrange(0, 10) =~= date_text(c));
    assert(text.subrange(11, 13) =~= two(c.hour));
    assert(text.subrange(14, 16) =~= two(c.minute));
    assert(text.subrange(17, 19) =~= two(c.second));
    assert(text.subrange(19, n - 1) =~= fraction_text(at.nanos));
}

} // verus!
