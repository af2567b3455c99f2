//! Session identity.

use vstd::prelude::*;

use crate::calendar::{civil, format_two, format_year, Civil};
use crate::clock::Timestamp;
use crate::text::{chars_of, concat, push_char};

verus! {

/// A session's identifier, which is also the name of its directory on disk.
///
/// The format, `20260911T144812Z-dictate-3f9a2b`, is sortable by time, says which profile
/// produced it without opening anything, and carries enough entropy that two recordings
/// started in the same second cannot collide. That matters more than it sounds: the cooldown
/// window means a user can genuinely start two sessions inside one second.
#[derive(Debug, PartialEq, Eq, PartialOrd, Ord, Hash)]
pub struct SessionId(String);

/// The stamp an id begins with, as `20260911T144812Z`.
pub open spec fn stamp_text(c: Civil) -> Seq<char> {
    crate::calendar::year_text(c.year as int) + (crate::calendar::two(c.month) + (
    crate::calendar::two(c.day) + ("T"@ + (crate::calendar::two(c.hour) + (crate::calendar::two(
        c.minute,
    ) + (crate::calendar::two(c.second) + "Z"@))))))
}

/// Whether a character is an ASCII letter or digit.
pub open spec fn is_plain(c: char) -> bool {
    ||| '0' <= c <= '9'
    ||| 'a' <= c <= 'z'
    ||| 'A' <= c <= 'Z'
}

/// A profile name with everything but ASCII letters and digits replaced.
pub open spec fn cleaned(profile: Seq<char>) -> Seq<char> {
    profile.map_values(|c: char| if is_plain(c) { c } else { '_' })
}

/// A profile name reduced to something safe in a path and unambiguous in an id.
pub open spec fn sanitized(profile: Seq<char>) -> Seq<char> {
    if profile.len() == 0 {
        "profile"@
    } else {
        cleaned(profile)
    }
}

/// The digit `d` in base 36.
pub open spec fn digit36(d: int) -> char {
    if d < 10 {
        (48 + d) as char
    } else {
        (87 + d) as char
    }
}

/// A number in base 36.
pub open spec fn base36_text(n: nat) -> Seq<char>
    decreases n,
{
    if n < 36 {
        seq![digit36(n as int)]
    } else {
        base36_text(n / 36).push(digit36((n % 36) as int))
    }
}

/// The id of a session that began at `started_at`.
pub open spec fn id_text(started_at: Timestamp, profile: Seq<char>, nonce: u32) -> Seq<char> {
    stamp_text(crate::calendar::civil_of(started_at.seconds as int)) + ("-"@ + sanitized(profile)
        + "-"@ + base36_text(nonce as nat))
}

impl View for SessionId {
    type V = Seq<char>;

    closed spec fn view(&self) -> Seq<char> {
        self.0@
    }
}

impl Clone for SessionId {
    fn clone(&self) -> (result: Self)
        ensures
            result == *self,
    {
        SessionId(self.0.clone())
    }
}

impl SessionId {
    /// Build an id from the moment the session began and the profile that started it.
    ///
    /// `nonce` distinguishes sessions that share a second.
    pub fn new(started_at: Timestamp, profile: &str, nonce: u32) -> (result: Self)
        requires
            started_at.valid(),
        ensures
            result@ == id_text(started_at, profile@, nonce),
    {
        let c = civil(started_at);
        let mut out = format_stamp(c);
        let mut rest = "-".to_owned();
        rest.append(sanitize(profile).as_str());
        rest.append("-");
        rest.append(base36(nonce).as_str());
        out.append(rest.as_str());
        SessionId(out)
    }

    /// Reconstruct an id from an existing directory name.
    pub fn from_raw(raw: String) -> (result: Self)
        ensures
            result@ == raw@,
    {
        SessionId(raw)
    }

    pub fn as_str(&self) -> (result: &str)
        ensures
            result@ == self@,
    {
        self.0.as_str()
    }
}

fn format_stamp(c: Civil) -> (result: String)
    requires
        -9999 <= c.year <= 9999,
    ensures
        result@ == stamp_text(c),
{
    let second = concat(format_two(c.second).as_str(), "Z");
    let minute = concat(format_two(c.minute).as_str(), second.as_str());
    let hour = concat(format_two(c.hour).as_str(), minute.as_str());
    let time = concat("T", hour.as_str());
    let day = concat(format_two(c.day).as_str(), time.as_str());
    let month = concat(format_two(c.month).as_str(), day.as_str());
    concat(format_year(c.year).as_str(), month.as_str())
}

/// Whether a character is an ASCII letter or digit.
fn plain(c: char) -> (result: bool)
    ensures
        result == is_plain(c),
{
    ('0' <= c && c <= '9') || ('a' <= c && c <= 'z') || ('A' <= c && c <= 'Z')
}

/// Reduce a profile name to something safe in a path and unambiguous in an id.
///
/// Profile names come from a configuration file, so they can contain anything. A name with a
/// `/` in it must not be able to write a session outside the recordings directory.
fn sanitize(profile: &str) -> (result: String)
    ensures
        result@ == sanitized(profile@),
{
    let chars = chars_of(profile);
    if chars.len() == 0 {
        return "profile".to_owned();
    }
    let mut out = String::new();
    let mut i: usize = 0;
    while i < chars.len()
        invariant
            i <= chars.len(),
            chars@ == profile@,
            out@ == cleaned(profile@).take(i as int),
        decreases chars.len() - i,
    {
        if plain(chars[i]) {
            push_char(&mut out, chars[i]);
        } else {
            push_char(&mut out, '_');
        }
        assert(out@ =~= cleaned(profile@).take(i + 1));
        i += 1;
    }
    assert(cleaned(profile@).take(i as int) =~= cleaned(profile@));
    out
}

/// A number in base 36.
pub fn base36(value: u32) -> (result: String)
    ensures
        result@ == base36_text(value as nat),
    decreases value,
{
    let d: u32 = value % 36;
    let c: char = if d < 10 {
        (48u8 + d as u8) as char
    } else {
        (87u8 + d as u8) as char
    };
    if value < 36 {
        let mut out = String::new();
        push_char(&mut out, c);
        assert(out@ =~= base36_text(value as nat));
        out
    } else {
        let mut out = base36(value / 36);
        push_char(&mut out, c);
        out
    }
}

// ── what an id promises ─────────────────────────────────────────────────────

/// Ids are sortable by time: of two sessions of the years 0 to 9999, the one that began in
/// an earlier second sorts first, whatever profiles and nonces they have.
pub proof fn law_ids_sort_by_time(
    earlier: Timestamp,
    later: Timestamp,
    first_profile: Seq<char>,
    second_profile: Seq<char>,
    first_nonce: u32,
    second_nonce: u32,
)
    requires
        earlier.valid(),
        later.valid(),
        crate::calendar::YEAR_ZERO <= earlier.seconds < later.seconds,
    ensures
        crate::text::before(
            id_text(earlier, first_profile, first_nonce),
            id_text(later, second_profile, second_nonce),
        ),
{
    crate::calendar::law_every_instant_has_a_civil_time(earlier);
    crate::calendar::law_every_instant_has_a_civil_time(later);
    let a = crate::calendar::civil_of(earlier.seconds as int);
    let b = crate::calendar::civil_of(later.seconds as int);
    if !a.earlier(b) {
        if a != b {
            crate::calendar::law_civil_order_is_time_order(b, a);
        }
    }
    lemma_stamps_ascend(a, b);
    crate::calendar::lemma_before_with_suffix(
        stamp_text(a),
        stamp_text(b),
        "-"@ + sanitized(first_profile) + "-"@ + base36_text(first_nonce as nat),
        "-"@ + sanitized(second_profile) + "-"@ + base36_text(second_nonce as nat),
    );
}

/// Field `m` comes before field `n` of the same width, or they are equal and what follows
/// decides.
proof fn lemma_field(m: u8, n: u8, x: Seq<char>, y: Seq<char>)
    requires
        m < 100,
        n < 100,
        m < n || m == n && crate::text::before(x, y),
    ensures
        crate::text::before(crate::calendar::two(m) + x, crate::calendar::two(n) + y),
{
    if m < n {
        crate::calendar::lemma_two_digits_ascend(m as nat, n as nat);
        crate::calendar::lemma_before_with_suffix(
            crate::calendar::two(m),
            crate::calendar::two(n),
            x,
            y,
        );
    } else {
        crate::calendar::lemma_before_after_prefix(crate::calendar::two(m), x, y);
    }
}

proof fn lemma_stamps_ascend(a: Civil, b: Civil)
    requires
        a.valid(),
        b.valid(),
        0 <= a.year <= 9999,
        0 <= b.year <= 9999,
        a.earlier(b),
    ensures
        crate::text::before(stamp_text(a), stamp_text(b)),
        stamp_text(a).len() == stamp_text(b).len(),
{
    lemma_stamp_length(a);
    lemma_stamp_length(b);
    let s6a = crate::calendar::two(a.second) + "Z"@;
    let s6b = crate::calendar::two(b.second) + "Z"@;
    let s5a = crate::calendar::two(a.minute) + s6a;
    let s5b = crate::calendar::two(b.minute) + s6b;
    let s4a = crate::calendar::two(a.hour) + s5a;
    let s4b = crate::calendar::two(b.hour) + s5b;
    let s3a = "T"@ + s4a;
    let s3b = "T"@ + s4b;
    let s2a = crate::calendar::two(a.day) + s3a;
    let s2b = crate::calendar::two(b.day) + s3b;
    let s1a = crate::calendar::two(a.month) + s2a;
    let s1b = crate::calendar::two(b.month) + s2b;
    let same_year = a.year == b.year;
    let same_month = same_year && a.month == b.month;
    let same_day = same_month && a.day == b.day;
    let same_hour = same_day && a.hour == b.hour;
    let same_minute = same_hour && a.minute == b.minute;
    if same_minute {
        lemma_field(a.second, b.second, "Z"@, "Z"@);
    }
    if same_hour {
        lemma_field(a.minute, b.minute, s6a, s6b);
    }
    if same_day {
        lemma_field(a.hour, b.hour, s5a, s5b);
        crate::calendar::lemma_before_after_prefix("T"@, s4a, s4b);
    }
    if same_month {
        lemma_field(a.day, b.day, s3a, s3b);
    }
    if same_year {
        lemma_field(a.month, b.month, s2a, s2b);
        crate::calendar::lemma_before_after_prefix(
            crate::calendar::year_text(a.year as int),
            s1a,
            s1b,
        );
    } else {
        crate::calendar::lemma_four_digits_ascend(a.year as nat, b.year as nat);
        crate::calendar::lemma_before_with_suffix(
            crate::calendar::year_text(a.year as int),
            crate::calendar::year_text(b.year as int),
            s1a,
            s1b,
        );
    }
}

proof fn lemma_stamp_length(c: Civil)
    requires
        c.valid(),
        0 <= c.year <= 9999,
    ensures
        stamp_text(c).len() == 14 + "T"@.len() + "Z"@.len(),
{
    crate::calendar::lemma_four_digits(c.year as nat);
    crate::calendar::lemma_two_digits((c.year as nat) / 100);
    crate::calendar::lemma_two_digits((c.year as nat) % 100);
    crate::calendar::lemma_two_digits(c.month as nat);
    crate::calendar::lemma_two_digits(c.day as nat);
    crate::calendar::lemma_two_digits(c.hour as nat);
    crate::calendar::lemma_two_digits(c.minute as nat);
    crate::calendar::lemma_two_digits(c.second as nat);
}

/// The value of a digit in base 36.
pub open spec fn value36(c: char) -> Option<nat> {
    if '0' <= c <= '9' {
        Some((c as int - 48) as nat)
    } else if 'a' <= c <= 'z' {
        Some((c as int - 87) as nat)
    } else {
        None
    }
}

/// The number that digits in base 36 stand for, if that is what they are.
pub open spec fn number36(text: Seq<char>) -> Option<nat>
    decreases text.len(),
{
    if text.len() == 0 {
        None
    } else if text.len() == 1 {
        value36(text[0])
    } else {
        match (number36(text.drop_last()), value36(text.last())) {
            (Some(n), Some(d)) => Some((n * 36 + d) as nat),
            _ => None,
        }
    }
}

/// Reading a number in base 36 back gives the number. Its digits are `0` to `9` and `a` to `z`,
/// and the first of them is `0` for nought alone.
pub proof fn law_base36_reads_back(n: nat)
    ensures
        number36(base36_text(n)) == Some(n),
        base36_text(n).len() >= 1,
        forall|i: int|
            0 <= i < base36_text(n).len() ==> value36(#[trigger] base36_text(n)[i]) is Some,
        base36_text(n)[0] == '0' <==> n == 0,
        base36_text(0) == seq!['0'],
    decreases n,
{
    let last = (n % 36) as int;
    assert(digit36(last) as int == if last < 10 { 48 + last } else { 87 + last });
    assert(digit36(0) == '0');
    if n >= 36 {
        law_base36_reads_back(n / 36);
        let front = base36_text(n / 36);
        assert(base36_text(n) == front.push(digit36(last)));
        assert(base36_text(n).drop_last() =~= front);
        assert forall|i: int| 0 <= i < base36_text(n).len() implies value36(
            #[trigger] base36_text(n)[i],
        ) is Some by {
            if i < front.len() {
                assert(base36_text(n)[i] == front[i]);
            }
        }
        assert(base36_text(n)[0] == front[0]);
    } else {
        assert(base36_text(n) == seq![digit36(n as int)]);
    }
}

/// Different numbers are different in base 36.
pub proof fn law_base36_is_injective(m: nat, n: nat)
    requires
        base36_text(m) == base36_text(n),
    ensures
        m == n,
{
    law_base36_reads_back(m);
    law_base36_reads_back(n);
}

/// Sessions whose nonces differ do not collide, even when the same profile starts them in the
/// same second: an id ends in its nonce, and the nonce can be told from what precedes it.
pub proof fn law_nonces_keep_ids_apart(
    first_at: Timestamp,
    first_profile: Seq<char>,
    m: u32,
    second_at: Timestamp,
    second_profile: Seq<char>,
    n: u32,
)
    requires
        m != n,
    ensures
        id_text(first_at, first_profile, m) != id_text(second_at, second_profile, n),
{
    let first = id_text(first_at, first_profile, m);
    let second = id_text(second_at, second_profile, n);
    if first == second {
        let a = base36_text(m as nat);
        let b = base36_text(n as nat);
        lemma_id_ends_in_its_nonce(first_at, first_profile, m);
        lemma_id_ends_in_its_nonce(second_at, second_profile, n);
        let (i, j) = (first.len() - a.len() - 1, second.len() - b.len() - 1);
        if i > j {
            assert(b[i - j - 1] == '-');
        } else if i < j {
            assert(a[j - i - 1] == '-');
        } else {
            assert(a =~= b);
            law_base36_is_injective(m as nat, n as nat);
        }
    }
}

/// An id ends in a dash and its nonce, which holds no dash.
proof fn lemma_id_ends_in_its_nonce(at: Timestamp, profile: Seq<char>, nonce: u32)
    ensures
        ({
            let id = id_text(at, profile, nonce);
            let digits = base36_text(nonce as nat);
            let dash = id.len() - digits.len() - 1;
            &&& dash >= 0
            &&& id[dash] == '-'
            &&& id.skip(dash + 1) == digits
            &&& forall|k: int| 0 <= k < digits.len() ==> digits[k] != '-'
        }),
{
    reveal_strlit("-");
    lemma_base36_holds_no_dash(nonce as nat);
    let digits = base36_text(nonce as nat);
    let id = id_text(at, profile, nonce);
    let front = stamp_text(crate::calendar::civil_of(at.seconds as int)) + ("-"@ + sanitized(
        profile,
    ));
    assert(id =~= front + "-"@ + digits);
    assert(id.skip(front.len() as int + 1) =~= digits);
}

proof fn lemma_base36_holds_no_dash(n: nat)
    ensures
        forall|k: int| 0 <= k < base36_text(n).len() ==> base36_text(n)[k] != '-',
    decreases n,
{
    let text = base36_text(n);
    let d = (n % 36) as int;
    assert(digit36(d) as int == if d < 10 { 48 + d } else { 87 + d });
    assert(digit36(d) != '-');
    if n >= 36 {
        lemma_base36_holds_no_dash(n / 36);
    }
    assert forall|k: int| 0 <= k < text.len() implies text[k] != '-' by {
        if n >= 36 {
            let front = base36_text(n / 36);
            assert(text == front.push(digit36(d)));
            if k < front.len() {
                assert(front[k] != '-');
            }
        } else {
            assert(n % 36 == n);
            assert(text == seq![digit36(d)]);
        }
    }
}

/// Whether a text holds nothing that could lead out of a directory.
pub open spec fn stays_put(text: Seq<char>) -> bool {
    forall|i: int| 0 <= i < text.len() ==> #[trigger] text[i] != '/' && text[i] != '.'
}

/// A profile name cannot escape the recordings directory: an id holds neither a slash nor a
/// dot, whatever the profile is called.
pub proof fn law_ids_stay_in_their_directory(at: Timestamp, profile: Seq<char>, nonce: u32)
    requires
        at.valid(),
    ensures
        stays_put(id_text(at, profile, nonce)),
{
    crate::calendar::law_every_instant_has_a_civil_time(at);
    let c = crate::calendar::civil_of(at.seconds as int);
    lemma_stamp_stays(c);
    lemma_base36_stays(nonce as nat);
    lemma_sanitized_stays(profile);
    assert(stays_put("-"@)) by {
        reveal_strlit("-");
    }
    lemma_stays("-"@, sanitized(profile));
    lemma_stays("-"@ + sanitized(profile), "-"@);
    lemma_stays("-"@ + sanitized(profile) + "-"@, base36_text(nonce as nat));
    lemma_stays(
        stamp_text(c),
        "-"@ + sanitized(profile) + "-"@ + base36_text(nonce as nat),
    );
}

proof fn lemma_stays(a: Seq<char>, b: Seq<char>)
    requires
        stays_put(a),
        stays_put(b),
    ensures
        stays_put(a + b),
{
}

proof fn lemma_sanitized_stays(profile: Seq<char>)
    ensures
        stays_put(sanitized(profile)),
{
    reveal_strlit("profile");
}

proof fn lemma_stamp_stays(c: Civil)
    requires
        c.valid(),
    ensures
        stays_put(stamp_text(c)),
{
    assert(stays_put("T"@) && stays_put("Z"@) && stays_put("-"@)) by {
        reveal_strlit("T");
        reveal_strlit("Z");
        reveal_strlit("-");
    }
    lemma_padded_stays(c.month as nat, 2);
    lemma_padded_stays(c.day as nat, 2);
    lemma_padded_stays(c.hour as nat, 2);
    lemma_padded_stays(c.minute as nat, 2);
    lemma_padded_stays(c.second as nat, 2);
    if c.year >= 0 {
        lemma_padded_stays(c.year as nat, 4);
    } else {
        lemma_padded_stays((-c.year) as nat, 3);
        lemma_stays("-"@, crate::text::padded((-c.year) as nat, 3));
    }
    let s6 = crate::calendar::two(c.second) + "Z"@;
    lemma_stays(crate::calendar::two(c.second), "Z"@);
    let s5 = crate::calendar::two(c.minute) + s6;
    lemma_stays(crate::calendar::two(c.minute), s6);
    let s4 = crate::calendar::two(c.hour) + s5;
    lemma_stays(crate::calendar::two(c.hour), s5);
    let s3 = "T"@ + s4;
    lemma_stays("T"@, s4);
    let s2 = crate::calendar::two(c.day) + s3;
    lemma_stays(crate::calendar::two(c.day), s3);
    let s1 = crate::calendar::two(c.month) + s2;
    lemma_stays(crate::calendar::two(c.month), s2);
    lemma_stays(crate::calendar::year_text(c.year as int), s1);
}

proof fn lemma_decimal_stays(n: nat)
    ensures
        stays_put(crate::text::decimal(n)),
    decreases n,
{
    if n >= 10 {
        lemma_decimal_stays(n / 10);
    }
}

proof fn lemma_padded_stays(n: nat, width: nat)
    ensures
        stays_put(crate::text::padded(n, width)),
{
    lemma_decimal_stays(n);
}

proof fn lemma_base36_stays(n: nat)
    ensures
        stays_put(base36_text(n)),
    decreases n,
{
    if n >= 36 {
        lemma_base36_stays(n / 36);
    }
}

/// A profile's name appears in an id character by character: letters and digits as they are,
/// anything else as an underscore; and an empty name as a word that stands for it.
pub proof fn law_a_profile_is_recognisable_in_its_id(profile: Seq<char>, i: int)
    requires
        0 <= i < profile.len(),
    ensures
        sanitized(profile).len() == profile.len(),
        ({
            let c = profile[i];
            let plain = ('0' <= c && c <= '9') || ('a' <= c && c <= 'z') || ('A' <= c && c <= 'Z');
            &&& plain ==> sanitized(profile)[i] == c
            &&& !plain ==> sanitized(profile)[i] == '_'
        }),
        sanitized(Seq::empty()) == "profile"@,
{
}

/// An id reads back: the date and the time it began, digit by digit, then the profile, then
/// the number that tells it from others of the same second.
pub proof fn law_an_id_reads_back(at: Timestamp, profile: Seq<char>, nonce: u32)
    requires
        at.valid(),
        crate::calendar::YEAR_ZERO <= at.seconds,
    ensures
        ({
            let c = crate::calendar::civil_of(at.seconds as int);
            let id = id_text(at, profile, nonce);
            &&& crate::text::number_in(id.subrange(0, 4)) == c.year
            &&& crate::text::number_in(id.subrange(4, 6)) == c.month
            &&& crate::text::number_in(id.subrange(6, 8)) == c.day
            &&& id[8] == 'T'
            &&& crate::text::number_in(id.subrange(9, 11)) == c.hour
            &&& crate::text::number_in(id.subrange(11, 13)) == c.minute
            &&& crate::text::number_in(id.subrange(13, 15)) == c.second
            &&& id[15] == 'Z'
            &&& id.skip(16) == seq!['-'] + sanitized(profile) + seq!['-'] + base36_text(
                nonce as nat,
            )
        }),
{
    crate::calendar::law_every_instant_has_a_civil_time(at);
    let c = crate::calendar::civil_of(at.seconds as int);
    crate::calendar::lemma_field_widths(c);
    reveal_strlit("T");
    reveal_strlit("Z");
    reveal_strlit("-");
    assert("-"@ =~= seq!['-']);
    let id = id_text(at, profile, nonce);
    assert(id.subrange(0, 4) =~= crate::calendar::year_text(c.year as int));
    assert(id.subrange(4, 6) =~= crate::calendar::two(c.month));
    assert(id.subrange(6, 8) =~= crate::calendar::two(c.day));
    assert(id.subrange(9, 11) =~= crate::calendar::two(c.hour));
    assert(id.subrange(11, 13) =~= crate::calendar::two(c.minute));
    assert(id.subrange(13, 15) =~= crate::calendar::two(c.second));
    assert(id.skip(16) =~= seq!['-'] + sanitized(profile) + seq!['-'] + base36_text(nonce as nat));
}

} // verus!
