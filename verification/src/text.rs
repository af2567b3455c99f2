//! Text, as the sequences of characters that contracts speak of.
//!
//! Everything the library says to a person is assembled here: messages are concatenations of
//! literals, names and decimal numbers, and their contracts say exactly which.

use vstd::prelude::*;

verus! {

/// Appends one character.
///
/// Trusted: `String::push` appends the given `char` to the end of the string.
#[verifier::external_body]
pub(crate) fn push_char(text: &mut String, c: char)
    ensures
        final(text)@ == old(text)@.push(c),
{
    text.push(c);
}

/// The name of what the `Debug` formatting of `str` makes of a piece of text.
pub uninterp spec fn quoted(text: Seq<char>) -> Seq<char>;

/// Text in double quotes with everything unprintable escaped, the way diagnostics show it.
///
/// Trusted: the `Debug` impl of `str`, through `format!`, gives a result that depends on the
/// text alone. Which characters are escaped is left unsaid.
#[verifier::external_body]
pub(crate) fn quote(text: &str) -> (result: String)
    ensures
        result@ == quoted(text@),
{
    format!("{:?}", text)
}

/// The name of what `str::to_lowercase` makes of a piece of text.
pub uninterp spec fn lowercased(text: Seq<char>) -> Seq<char>;

/// The lowercase equivalent of a piece of text.
///
/// Trusted: `str::to_lowercase` follows the Unicode property `Lowercase`, so its result
/// depends on the text alone.
#[verifier::external_body]
pub(crate) fn lowercase(text: &str) -> (result: String)
    ensures
        result@ == lowercased(text@),
{
    text.to_lowercase()
}

/// Whether a character is a lowercase ASCII letter, an ASCII digit or an underscore.
pub open spec fn is_plain_char(c: char) -> bool {
    ||| 'a' <= c <= 'z'
    ||| '0' <= c <= '9'
    ||| c == '_'
}

/// Whether text is made of lowercase ASCII letters, ASCII digits and underscores.
pub open spec fn is_plain(text: Seq<char>) -> bool {
    forall|i: int| 0 <= i < text.len() ==> is_plain_char(#[trigger] text[i])
}

/// The uppercase of a lowercase ASCII letter; any other character as it is.
pub open spec fn raised_char(c: char) -> char {
    if 'a' <= c <= 'z' {
        (c as u32 - 32) as char
    } else {
        c
    }
}

/// Text with its lowercase ASCII letters made uppercase.
pub open spec fn raised(text: Seq<char>) -> Seq<char> {
    text.map_values(|c: char| raised_char(c))
}

/// The name of what `str::to_uppercase` makes of a piece of text.
pub uninterp spec fn uppercased(text: Seq<char>) -> Seq<char>;

/// The uppercase equivalent of a piece of text.
///
/// Trusted: `str::to_uppercase` follows the Unicode property `Uppercase`, so its result
/// depends on the text alone. Lowercase ASCII letters become the uppercase ones, and digits
/// and underscores stay as they are.
#[verifier::external_body]
pub(crate) fn uppercase(text: &str) -> (result: String)
    ensures
        result@ == uppercased(text@),
        is_plain(text@) ==> result@ == raised(text@),
{
    text.to_uppercase()
}

/// Whether a character has the Unicode property `White_Space`.
pub open spec fn is_white(c: char) -> bool {
    let code = c as u32;
    ||| 0x9 <= code <= 0xd
    ||| code == 0x20
    ||| code == 0x85
    ||| code == 0xa0
    ||| code == 0x1680
    ||| 0x2000 <= code <= 0x200a
    ||| 0x2028 <= code <= 0x2029
    ||| code == 0x202f
    ||| code == 0x205f
    ||| code == 0x3000
}

/// Whether a character is white space.
fn white(c: char) -> (result: bool)
    ensures
        result == is_white(c),
{
    let code: u32 = c as u32;
    (0x9 <= code && code <= 0xd) || code == 0x20 || code == 0x85 || code == 0xa0 || code == 0x1680
        || (0x2000 <= code && code <= 0x200a) || code == 0x2028 || code == 0x2029 || code == 0x202f
        || code == 0x205f || code == 0x3000
}

/// Text without the white space at its end.
pub open spec fn trimmed_end(text: Seq<char>) -> Seq<char>
    decreases text.len(),
{
    if text.len() > 0 && is_white(text.last()) {
        trimmed_end(text.drop_last())
    } else {
        text
    }
}

/// Text without the white space at its start.
pub open spec fn trimmed_start(text: Seq<char>) -> Seq<char>
    decreases text.len(),
{
    if text.len() > 0 && is_white(text[0]) {
        trimmed_start(text.drop_first())
    } else {
        text
    }
}

/// Text without the white space around it.
pub open spec fn trimmed(text: Seq<char>) -> Seq<char> {
    trimmed_end(trimmed_start(text))
}

/// How many characters stand before the first line feed.
pub open spec fn line_length(text: Seq<char>) -> nat
    decreases text.len(),
{
    if text.len() == 0 || text[0] == '\n' {
        0
    } else {
        1 + line_length(text.drop_first())
    }
}

/// The first line of a text, without the line feed, or the carriage return and line feed,
/// that ends it.
pub open spec fn first_line(text: Seq<char>) -> Seq<char> {
    let n = line_length(text) as int;
    if 0 < n < text.len() && text[n - 1] == '\r' {
        text.take(n - 1)
    } else {
        text.take(n)
    }
}

/// An integer in decimal.
pub open spec fn signed(n: int) -> Seq<char> {
    if n < 0 {
        "-"@ + decimal((-n) as nat)
    } else {
        decimal(n as nat)
    }
}

/// Whether `needle` occurs in `text`.
pub open spec fn occurs(text: Seq<char>, needle: Seq<char>) -> bool {
    exists|i: int|
        0 <= i <= text.len() - needle.len() && #[trigger] text.subrange(i, i + needle.len()) == needle
}

/// Lexicographic order by code point, which is the order of `String`.
pub open spec fn before(a: Seq<char>, b: Seq<char>) -> bool
    decreases a.len(),
{
    if b.len() == 0 {
        false
    } else if a.len() == 0 {
        true
    } else if a[0] == b[0] {
        before(a.drop_first(), b.drop_first())
    } else {
        (a[0] as int) < (b[0] as int)
    }
}

/// No text comes before itself.
pub proof fn lemma_before_irreflexive(a: Seq<char>)
    ensures
        !before(a, a),
    decreases a.len(),
{
    if a.len() > 0 {
        lemma_before_irreflexive(a.drop_first());
    }
}

/// The order is transitive.
pub proof fn lemma_before_transitive(a: Seq<char>, b: Seq<char>, c: Seq<char>)
    requires
        before(a, b),
        before(b, c),
    ensures
        before(a, c),
    decreases a.len(),
{
    if a.len() > 0 && a[0] == b[0] && b[0] == c[0] {
        lemma_before_transitive(a.drop_first(), b.drop_first(), c.drop_first());
    }
}

/// Two texts neither of which comes before the other are the same text.
pub proof fn lemma_before_total(a: Seq<char>, b: Seq<char>)
    ensures
        before(a, b) || before(b, a) || a == b,
    decreases a.len(),
{
    if a.len() > 0 && b.len() > 0 && a[0] == b[0] {
        lemma_before_total(a.drop_first(), b.drop_first());
        if a.drop_first() == b.drop_first() {
            assert(a =~= seq![a[0]] + a.drop_first());
            assert(b =~= seq![b[0]] + b.drop_first());
        }
    } else if a.len() == 0 && b.len() == 0 {
        assert(a =~= b);
    }
}

/// The decimal digit `d`.
pub open spec fn digit(d: int) -> char {
    (48 + d) as char
}

/// A natural number in decimal, without leading zeros.
pub open spec fn decimal(n: nat) -> Seq<char>
    decreases n,
{
    if n < 10 {
        seq![digit(n as int)]
    } else {
        decimal(n / 10).push(digit((n % 10) as int))
    }
}

/// A natural number in decimal, padded with zeros on the left to at least `width` digits.
pub open spec fn padded(n: nat, width: nat) -> Seq<char> {
    let digits = decimal(n);
    if digits.len() < width {
        Seq::new((width - digits.len()) as nat, |i: int| '0') + digits
    } else {
        digits
    }
}

/// The texts of `parts`, one after another, with `separator` between them.
pub open spec fn joined(parts: Seq<Seq<char>>, separator: Seq<char>) -> Seq<char>
    decreases parts.len(),
{
    if parts.len() == 0 {
        Seq::empty()
    } else if parts.len() == 1 {
        parts[0]
    } else {
        joined(parts.drop_last(), separator) + separator + parts.last()
    }
}

/// The texts of a list of strings.
pub open spec fn texts(strings: Seq<String>) -> Seq<Seq<char>> {
    strings.map_values(|s: String| s@)
}

/// The characters of a piece of text.
pub fn chars_of(text: &str) -> (result: Vec<char>)
    ensures
        result@ == text@,
{
    let mut out: Vec<char> = Vec::new();
    for c in it: text.chars()
        invariant
            out@ == it.seq().take(it.index() as int),
            it.seq() == text@,
    {
        out.push(c);
    }
    out
}

/// The text made of the given characters.
pub fn text_of(chars: &[char]) -> (result: String)
    ensures
        result@ == chars@,
{
    let mut out = String::new();
    let mut i: usize = 0;
    while i < chars.len()
        invariant
            i <= chars.len(),
            out@ == chars@.take(i as int),
        decreases chars.len() - i,
    {
        push_char(&mut out, chars[i]);
        i += 1;
    }
    out
}

/// Whether two texts are the same.
pub fn same_text(a: &str, b: &str) -> (result: bool)
    ensures
        result == (a@ == b@),
{
    a.to_owned() == b.to_owned()
}

/// `a` followed by `b`.
pub fn concat(a: &str, b: &str) -> (result: String)
    ensures
        result@ == a@ + b@,
{
    let mut out = a.to_owned();
    out.append(b);
    out
}

/// `a`, `b` and `c` in a row.
pub fn concat3(a: &str, b: &str, c: &str) -> (result: String)
    ensures
        result@ == a@ + b@ + c@,
{
    let mut out = a.to_owned();
    out.append(b);
    out.append(c);
    out
}

/// Whether one character comes before another.
fn char_before(a: char, b: char) -> (result: bool)
    ensures
        result == ((a as int) < (b as int)),
{
    a < b
}

/// Whether `a` sorts before `b`.
pub fn text_before(a: &str, b: &str) -> (result: bool)
    ensures
        result == before(a@, b@),
{
    let left = chars_of(a);
    let right = chars_of(b);
    let mut i: usize = 0;
    proof {
        assert(left@.skip(0) =~= left@);
        assert(right@.skip(0) =~= right@);
    }
    while i < left.len() && i < right.len()
        invariant
            i <= left.len(),
            i <= right.len(),
            left@ == a@,
            right@ == b@,
            before(left@, right@) == before(left@.skip(i as int), right@.skip(i as int)),
        decreases left.len() - i,
    {
        if left[i] != right[i] {
            return char_before(left[i], right[i]);
        }
        proof {
            assert(left@.skip(i as int).drop_first() =~= left@.skip(i + 1));
            assert(right@.skip(i as int).drop_first() =~= right@.skip(i + 1));
        }
        i += 1;
    }
    i < right.len()
}

/// Whether `text` begins with `prefix`.
pub fn starts_with(text: &str, prefix: &str) -> (result: bool)
    ensures
        result == prefix@.is_prefix_of(text@),
{
    let chars = chars_of(text);
    let wanted = chars_of(prefix);
    if wanted.len() > chars.len() {
        return false;
    }
    matches_at(&chars, &wanted, 0)
}

/// Whether `wanted` stands in `chars` at position `at`.
pub(crate) fn matches_at(chars: &Vec<char>, wanted: &Vec<char>, at: usize) -> (result: bool)
    requires
        at + wanted.len() <= chars.len(),
    ensures
        result == (chars@.subrange(at as int, at + wanted.len()) == wanted@),
{
    let mut i: usize = 0;
    while i < wanted.len()
        invariant
            i <= wanted.len(),
            at + wanted.len() <= chars.len(),
            forall|j: int| 0 <= j < i ==> chars@[at + j] == wanted@[j],
        decreases wanted.len() - i,
    {
        if chars[at + i] != wanted[i] {
            assert(chars@.subrange(at as int, at + wanted.len())[i as int] != wanted@[i as int]);
            return false;
        }
        i += 1;
    }
    assert(chars@.subrange(at as int, at + wanted.len()) =~= wanted@);
    true
}

/// Whether `needle` occurs anywhere in `text`.
pub fn contains_text(text: &str, needle: &str) -> (result: bool)
    ensures
        result == occurs(text@, needle@),
{
    let chars = chars_of(text);
    let wanted = chars_of(needle);
    if wanted.len() > chars.len() {
        return false;
    }
    let last: usize = chars.len() - wanted.len();
    let mut i: usize = 0;
    while i <= last
        invariant
            i <= last + 1,
            last == chars.len() - wanted.len(),
            chars@ == text@,
            wanted@ == needle@,
            forall|j: int|
                0 <= j < i ==> #[trigger] text@.subrange(j, j + needle@.len()) != needle@,
        decreases last + 1 - i,
    {
        if matches_at(&chars, &wanted, i) {
            return true;
        }
        if i == last {
            return false;
        }
        i += 1;
    }
    false
}

/// Whether `wanted` is one of `items`.
pub fn contains_name(items: &Vec<String>, wanted: &str) -> (result: bool)
    ensures
        result == texts(items@).contains(wanted@),
{
    let mut i: usize = 0;
    while i < items.len()
        invariant
            i <= items.len(),
            forall|j: int| 0 <= j < i ==> items@[j]@ != wanted@,
        decreases items.len() - i,
    {
        if same_text(items[i].as_str(), wanted) {
            assert(texts(items@)[i as int] == wanted@);
            return true;
        }
        i += 1;
    }
    assert forall|j: int| 0 <= j < texts(items@).len() implies texts(items@)[j] != wanted@ by {
        assert(items@[j]@ != wanted@);
    }
    false
}

/// A number in decimal.
pub fn decimal_text(n: u64) -> (result: String)
    ensures
        result@ == decimal(n as nat),
    decreases n,
{
    if n < 10 {
        let mut out = String::new();
        push_char(&mut out, (48u8 + n as u8) as char);
        assert(out@ =~= seq![digit(n as int)]);
        out
    } else {
        let mut out = decimal_text(n / 10);
        push_char(&mut out, (48u8 + (n % 10) as u8) as char);
        out
    }
}

/// A number in decimal, padded with zeros to at least `width` digits.
pub fn padded_text(n: u64, width: usize) -> (result: String)
    ensures
        result@ == padded(n as nat, width as nat),
{
    let digits = chars_of(decimal_text(n).as_str());
    let mut out = String::new();
    let mut i: usize = digits.len();
    while i < width
        invariant
            digits.len() <= i,
            i <= width || i == digits.len(),
            out@ == Seq::new((i - digits.len()) as nat, |j: int| '0'),
        decreases width - i,
    {
        push_char(&mut out, '0');
        assert(out@ =~= Seq::new((i + 1 - digits.len()) as nat, |j: int| '0'));
        i += 1;
    }
    out.append(text_of(&digits).as_str());
    if digits.len() >= width {
        assert(out@ =~= digits@);
    }
    out
}

/// The strings of a list, one after another, with `separator` between them.
pub fn join(parts: &Vec<String>, separator: &str) -> (result: String)
    ensures
        result@ == joined(texts(parts@), separator@),
{
    let mut out = String::new();
    let mut i: usize = 0;
    while i < parts.len()
        invariant
            i <= parts.len(),
            out@ == joined(texts(parts@).take(i as int), separator@),
        decreases parts.len() - i,
    {
        if i > 0 {
            out.append(separator);
        }
        out.append(parts[i].as_str());
        proof {
            let now = texts(parts@).take(i + 1);
            assert(now.drop_last() =~= texts(parts@).take(i as int));
            assert(now.last() == parts@[i as int]@);
            if i == 0 {
                assert(out@ =~= now[0]);
            }
        }
        i += 1;
    }
    assert(texts(parts@).take(i as int) =~= texts(parts@));
    out
}

/// Text without the white space at its end.
pub fn trim_end(text: &str) -> (result: String)
    ensures
        result@ == trimmed_end(text@),
{
    let chars = chars_of(text);
    let mut n: usize = chars.len();
    assert(chars@.take(n as int) =~= text@);
    while n > 0 && white(chars[n - 1])
        invariant
            n <= chars.len(),
            trimmed_end(chars@.take(n as int)) == trimmed_end(text@),
        decreases n,
    {
        assert(chars@.take(n as int).drop_last() =~= chars@.take(n - 1));
        n -= 1;
    }
    text_of(vstd::slice::slice_subrange(chars.as_slice(), 0, n))
}

/// Text without the white space around it.
pub fn trim(text: &str) -> (result: String)
    ensures
        result@ == trimmed(text@),
{
    let chars = chars_of(text);
    let mut at: usize = 0;
    assert(chars@.skip(0) =~= text@);
    while at < chars.len() && white(chars[at])
        invariant
            at <= chars.len(),
            trimmed_start(chars@.skip(at as int)) == trimmed_start(text@),
        decreases chars.len() - at,
    {
        assert(chars@.skip(at as int).drop_first() =~= chars@.skip(at + 1));
        at += 1;
    }
    assert(chars@.subrange(at as int, chars@.len() as int) =~= chars@.skip(at as int));
    let rest = text_of(vstd::slice::slice_subrange(chars.as_slice(), at, chars.len()));
    trim_end(rest.as_str())
}

/// The first line of a text.
pub fn head(text: &str) -> (result: String)
    ensures
        result@ == first_line(text@),
{
    let chars = chars_of(text);
    let mut n: usize = 0;
    assert(chars@.skip(0) =~= text@);
    while n < chars.len() && chars[n] != '\n'
        invariant
            n <= chars.len(),
            n + line_length(chars@.skip(n as int)) == line_length(text@),
        decreases chars.len() - n,
    {
        assert(chars@.skip(n as int).drop_first() =~= chars@.skip(n + 1));
        n += 1;
    }
    if n > 0 && n < chars.len() && chars[n - 1] == '\r' {
        text_of(vstd::slice::slice_subrange(chars.as_slice(), 0, n - 1))
    } else {
        text_of(vstd::slice::slice_subrange(chars.as_slice(), 0, n))
    }
}

/// An integer in decimal.
pub fn signed_text(n: i32) -> (result: String)
    ensures
        result@ == signed(n as int),
{
    if n < 0 {
        concat("-", decimal_text((-(n as i64)) as u64).as_str())
    } else {
        decimal_text(n as u64)
    }
}

// ── what the text stands for ────────────────────────────────────────────────

/// The number that decimal digits stand for.
pub open spec fn number_in(text: Seq<char>) -> int
    decreases text.len(),
{
    if text.len() == 0 {
        0
    } else {
        number_in(text.drop_last()) * 10 + (text.last() as int - 48)
    }
}

/// Whether every character is a decimal digit.
pub open spec fn all_digits(text: Seq<char>) -> bool {
    forall|i: int| 0 <= i < text.len() ==> '0' <= #[trigger] text[i] && text[i] <= '9'
}

/// A number reads back: its decimal text is digits alone, stands for the number, and does not
/// begin with a zero unless it is one.
pub proof fn law_a_decimal_reads_back(n: nat)
    ensures
        all_digits(decimal(n)),
        decimal(n).len() > 0,
        number_in(decimal(n)) == n,
        n > 0 ==> decimal(n)[0] != '0',
        n == 0 ==> decimal(n).len() == 1,
    decreases n,
{
    if n < 10 {
        let text = seq![digit(n as int)];
        assert(text.drop_last() =~= Seq::<char>::empty());
        assert(number_in(Seq::<char>::empty()) == 0);
    } else {
        law_a_decimal_reads_back(n / 10);
        let rest = decimal(n / 10);
        let last = digit((n % 10) as int);
        assert(decimal(n) == rest.push(last));
        assert(rest.push(last).drop_last() =~= rest);
        assert('0' <= last && last <= '9');
        assert forall|i: int| 0 <= i < rest.push(last).len() implies '0' <= #[trigger] rest.push(
            last,
        )[i] && rest.push(last)[i] <= '9' by {
            if i < rest.len() {
                assert(rest.push(last)[i] == rest[i]);
            }
        }
        assert(rest.push(last)[0] == rest[0]);
    }
}

/// A padded number is at least as wide as asked for, stands for the number, and is digits
/// alone; and one that is wide enough by itself is left as it is.
pub proof fn law_padding_keeps_the_number(n: nat, width: nat)
    ensures
        padded(n, width).len() >= width,
        all_digits(padded(n, width)),
        number_in(padded(n, width)) == n,
        decimal(n).len() >= width ==> padded(n, width) == decimal(n),
        decimal(n).len() < width ==> padded(n, width).len() == width,
{
    law_a_decimal_reads_back(n);
    let digits = decimal(n);
    if digits.len() < width {
        let zeros = Seq::new((width - digits.len()) as nat, |i: int| '0');
        lemma_leading_zeros(zeros, digits);
        assert forall|i: int| 0 <= i < (zeros + digits).len() implies '0' <= #[trigger] (zeros
            + digits)[i] && (zeros + digits)[i] <= '9' by {
            if i >= zeros.len() {
                assert((zeros + digits)[i] == digits[i - zeros.len()]);
            }
        }
    }
}

proof fn lemma_leading_zeros(zeros: Seq<char>, digits: Seq<char>)
    requires
        forall|i: int| 0 <= i < zeros.len() ==> #[trigger] zeros[i] == '0',
    ensures
        number_in(zeros + digits) == number_in(digits),
    decreases zeros.len() + digits.len(),
{
    if digits.len() > 0 {
        lemma_leading_zeros(zeros, digits.drop_last());
        assert((zeros + digits).drop_last() =~= zeros + digits.drop_last());
    } else if zeros.len() > 0 {
        let fewer = zeros.drop_last();
        assert(forall|i: int| 0 <= i < fewer.len() ==> fewer[i] == zeros[i]);
        lemma_leading_zeros(fewer, digits);
        assert((zeros + digits).drop_last() =~= fewer + digits);
        assert((zeros + digits).last() == zeros[zeros.len() - 1]);
    }
}

/// Trimming takes white space off both ends and nothing else: what is left neither begins nor
/// ends with any, and stands in the text between what was taken.
pub proof fn law_trimming_takes_the_white_space_off_both_ends(text: Seq<char>)
    ensures
        ({
            let left = trimmed(text);
            &&& left.len() > 0 ==> !is_white(left[0]) && !is_white(left.last())
            &&& exists|from: int, to: int|
                0 <= from <= to <= text.len() && left == #[trigger] text.subrange(from, to) && (
                forall|i: int|
                    (0 <= i < from || to <= i < text.len()) ==> is_white(#[trigger] text[i]))
        }),
{
    lemma_trimmed_start(text);
    let later = trimmed_start(text);
    lemma_trimmed_end(later);
    let left = trimmed_end(later);
    let from = text.len() - later.len();
    let to = from + left.len();
    assert(text.subrange(from, to) =~= left) by {
        assert forall|i: int| 0 <= i < left.len() implies text.subrange(from, to)[i]
            == left[i] by {
            assert(left[i] == later[i]);
            assert(later[i] == text.skip(from)[i]);
        }
    }
    assert forall|i: int| (0 <= i < from || to <= i < text.len()) implies is_white(
        #[trigger] text[i],
    ) by {
        if to <= i {
            assert(text.skip(from)[i - from] == text[i]);
            assert(later[i - from] == text[i]);
        }
    }
}

proof fn lemma_trimmed_start(text: Seq<char>)
    ensures
        trimmed_start(text).len() <= text.len(),
        trimmed_start(text) == text.skip(text.len() - trimmed_start(text).len()),
        forall|i: int|
            0 <= i < text.len() - trimmed_start(text).len() ==> is_white(#[trigger] text[i]),
        trimmed_start(text).len() > 0 ==> !is_white(trimmed_start(text)[0]),
    decreases text.len(),
{
    if text.len() > 0 && is_white(text[0]) {
        let rest = text.drop_first();
        lemma_trimmed_start(rest);
        let left = trimmed_start(rest);
        assert(text.skip(text.len() - left.len()) =~= rest.skip(rest.len() - left.len()));
        assert forall|i: int| 0 <= i < text.len() - left.len() implies is_white(
            #[trigger] text[i],
        ) by {
            if i > 0 {
                assert(rest[i - 1] == text[i]);
            }
        }
    } else {
        assert(text.skip(0) =~= text);
    }
}

proof fn lemma_trimmed_end(text: Seq<char>)
    ensures
        trimmed_end(text).len() <= text.len(),
        trimmed_end(text) == text.take(trimmed_end(text).len() as int),
        forall|i: int| trimmed_end(text).len() <= i < text.len() ==> is_white(#[trigger] text[i]),
        trimmed_end(text).len() > 0 ==> !is_white(trimmed_end(text).last()),
    decreases text.len(),
{
    if text.len() > 0 && is_white(text.last()) {
        let rest = text.drop_last();
        lemma_trimmed_end(rest);
        let left = trimmed_end(rest);
        assert(text.take(left.len() as int) =~= rest.take(left.len() as int));
        assert forall|i: int| left.len() <= i < text.len() implies is_white(#[trigger] text[i]) by {
            if i < rest.len() {
                assert(rest[i] == text[i]);
            }
        }
    } else {
        assert(text.take(text.len() as int) =~= text);
    }
}

/// A first line ends where the first line break does: it holds no line break, and it is the
/// whole text or is followed by one, with or without a carriage return before it.
pub proof fn law_a_first_line_ends_at_its_break(text: Seq<char>)
    ensures
        ({
            let line = first_line(text);
            let n = line.len() as int;
            &&& line == text.take(n)
            &&& forall|i: int| 0 <= i < n ==> #[trigger] line[i] != '\n'
            &&& {
                ||| n == text.len()
                ||| n < text.len() && text[n] == '\n'
                ||| n + 1 < text.len() && text[n] == '\r' && text[n + 1] == '\n'
            }
        }),
{
    lemma_line_length(text);
}

proof fn lemma_line_length(text: Seq<char>)
    ensures
        line_length(text) <= text.len(),
        forall|i: int| 0 <= i < line_length(text) ==> #[trigger] text[i] != '\n',
        line_length(text) < text.len() ==> text[line_length(text) as int] == '\n',
    decreases text.len(),
{
    if text.len() > 0 && text[0] != '\n' {
        let rest = text.drop_first();
        lemma_line_length(rest);
        assert forall|i: int| 0 <= i < line_length(text) implies #[trigger] text[i] != '\n' by {
            if i > 0 {
                assert(rest[i - 1] == text[i]);
            }
        }
    }
}

/// Joining puts the separator between the parts and nowhere else: one more part adds the
/// separator and the part.
pub proof fn law_joining_separates(parts: Seq<Seq<char>>, part: Seq<char>, separator: Seq<char>)
    ensures
        joined(Seq::empty(), separator).len() == 0,
        joined(seq![part], separator) == part,
        parts.len() > 0 ==> joined(parts.push(part), separator) == joined(parts, separator)
            + separator + part,
{
    assert(parts.push(part).drop_last() =~= parts);
}

/// White space is what Unicode lists under that property: the tab to the carriage return, the
/// space, the two control and no-break spaces of Latin-1, and the spaces and separators beyond.
pub proof fn law_white_space_is_what_unicode_lists(c: char)
    ensures
        is_white(c) <==> seq![
            0x9u32, 0xau32, 0xbu32, 0xcu32, 0xdu32, 0x20u32, 0x85u32, 0xa0u32, 0x1680u32,
            0x2000u32, 0x2001u32, 0x2002u32, 0x2003u32, 0x2004u32, 0x2005u32, 0x2006u32,
            0x2007u32, 0x2008u32, 0x2009u32, 0x200au32, 0x2028u32, 0x2029u32, 0x202fu32,
            0x205fu32, 0x3000u32,
        ].contains(c as u32),
{
    let listed = seq![
        0x9u32, 0xau32, 0xbu32, 0xcu32, 0xdu32, 0x20u32, 0x85u32, 0xa0u32, 0x1680u32,
        0x2000u32, 0x2001u32, 0x2002u32, 0x2003u32, 0x2004u32, 0x2005u32, 0x2006u32,
        0x2007u32, 0x2008u32, 0x2009u32, 0x200au32, 0x2028u32, 0x2029u32, 0x202fu32,
        0x205fu32, 0x3000u32,
    ];
    let code = c as u32;
    if is_white(c) {
        if 0x9 <= code <= 0xd {
            assert(listed[code as int - 0x9] == code);
        } else if 0x2000 <= code <= 0x200a {
            assert(listed[9 + (code as int - 0x2000)] == code);
        } else if code == 0x20 {
            assert(listed[5] == code);
        } else if code == 0x85 {
            assert(listed[6] == code);
        } else if code == 0xa0 {
            assert(listed[7] == code);
        } else if code == 0x1680 {
            assert(listed[8] == code);
        } else if code == 0x2028 {
            assert(listed[20] == code);
        } else if code == 0x2029 {
            assert(listed[21] == code);
        } else if code == 0x202f {
            assert(listed[22] == code);
        } else if code == 0x205f {
            assert(listed[23] == code);
        } else {
            assert(listed[24] == code);
        }
    }
}

} // verus!
