//! Text as the exercise reads and writes it: decimal numbers, trimmed fields, lines and words.
//!
//! Every function is stated over the characters of its argument (`Seq<char>`).

use vstd::prelude::*;

verus! {

/// The characters of each string of a list.
pub open spec fn views(items: Seq<String>) -> Seq<Seq<char>> {
    Seq::new(items.len(), |i: int| items[i]@)
}

/// The characters of an optional string.
pub open spec fn view_of(item: Option<String>) -> Option<Seq<char>> {
    match item {
        Some(text) => Some(text@),
        None => None,
    }
}

/// Whether two texts hold the same characters.
pub fn same(left: &str, right: &str) -> (result: bool)
    ensures
        result == (left@ == right@),
{
    left.to_owned() == right.to_owned()
}

/// The characters of `text`.
pub fn chars_of(text: &str) -> (result: Vec<char>)
    ensures
        result@ == text@,
{
    let mut result: Vec<char> = Vec::new();
    for c in it: text.chars()
        invariant
            it.seq() == text@,
            result@ == text@.take(it.index()),
    {
        result.push(c);
    }
    result
}

// ----- decimal numbers -----

/// The character of one decimal digit.
pub open spec fn digit_char(digit: int) -> char {
    (48 + digit) as char
}

/// `number` in decimal, without leading zeros.
pub open spec fn decimal_digits(number: nat) -> Seq<char>
    decreases number,
{
    if number < 10 {
        seq![digit_char(number as int)]
    } else {
        decimal_digits(number / 10).push(digit_char((number % 10) as int))
    }
}

fn digit_text(digit: u64) -> (result: &'static str)
    requires
        digit < 10,
    ensures
        result@ == seq![digit_char(digit as int)],
{
    proof {
        reveal_strlit("0");
        reveal_strlit("1");
        reveal_strlit("2");
        reveal_strlit("3");
        reveal_strlit("4");
        reveal_strlit("5");
        reveal_strlit("6");
        reveal_strlit("7");
        reveal_strlit("8");
        reveal_strlit("9");
    }
    match digit {
        0 => "0",
        1 => "1",
        2 => "2",
        3 => "3",
        4 => "4",
        5 => "5",
        6 => "6",
        7 => "7",
        8 => "8",
        _ => "9",
    }
}

/// Writes `number` in decimal.
pub fn decimal(number: u64) -> (result: String)
    ensures
        result@ == decimal_digits(number as nat),
    decreases number,
{
    if number < 10 {
        String::from_str(digit_text(number))
    } else {
        let mut result = decimal(number / 10);
        result.append(digit_text(number % 10));
        assert(result@ == decimal_digits((number / 10) as nat).push(digit_char((number % 10) as int)));
        result
    }
}

/// The decimal digits of a number, with a sign where it is negative.
pub open spec fn signed_digits(number: int) -> Seq<char> {
    if number < 0 {
        "-"@ + decimal_digits((-number) as nat)
    } else {
        decimal_digits(number as nat)
    }
}

/// A number in decimal, with a sign where it is negative.
pub fn signed_decimal(number: i64) -> (result: String)
    ensures
        result@ == signed_digits(number as int),
{
    if number < 0 {
        let mut result = String::from_str("-");
        result.append(decimal((-(number + 1)) as u64 + 1).as_str());
        result
    } else {
        decimal(number as u64)
    }
}

/// `number` in decimal with at least two digits.
pub open spec fn two_digits(number: nat) -> Seq<char> {
    if number < 10 {
        "0"@ + decimal_digits(number)
    } else {
        decimal_digits(number)
    }
}

/// Writes `number` in decimal, padded with a zero to two digits.
pub fn padded(number: u64) -> (result: String)
    ensures
        result@ == two_digits(number as nat),
{
    if number < 10 {
        let mut result = String::from_str("0");
        result.append(decimal(number).as_str());
        result
    } else {
        decimal(number)
    }
}

/// Whether `c` is an ASCII decimal digit.
pub open spec fn is_digit(c: char) -> bool {
    '0' <= c && c <= '9'
}

/// Whether every character is an ASCII decimal digit.
pub open spec fn all_digits(text: Seq<char>) -> bool {
    forall|i: int| 0 <= i < text.len() ==> is_digit(#[trigger] text[i])
}

/// The number that a run of decimal digits writes.
pub open spec fn digits_value(text: Seq<char>) -> nat
    decreases text.len(),
{
    if text.len() == 0 {
        0
    } else {
        digits_value(text.drop_last()) * 10 + (text.last() as nat - 48) as nat
    }
}

/// The digits of an unsigned number: what follows an optional plus sign.
pub open spec fn unsigned_digits(text: Seq<char>) -> Seq<char> {
    if text.len() > 0 && text[0] == '+' {
        text.skip(1)
    } else {
        text
    }
}

/// The unsigned number that `text` writes, if it writes one no larger than `limit`: one or more
/// decimal digits, after an optional plus sign.
pub open spec fn parsed_unsigned(text: Seq<char>, limit: nat) -> Option<nat> {
    let digits = unsigned_digits(text);
    if digits.len() > 0 && all_digits(digits) && digits_value(digits) <= limit {
        Some(digits_value(digits))
    } else {
        None
    }
}

proof fn lemma_value_grows(text: Seq<char>, count: int)
    requires
        0 <= count <= text.len(),
    ensures
        digits_value(text.take(count)) <= digits_value(text),
    decreases text.len(),
{
    if count == text.len() {
        assert(text.take(count) == text);
    } else {
        lemma_value_grows(text.drop_last(), count);
        assert(text.drop_last().take(count) == text.take(count));
    }
}

/// Reads an unsigned 64-bit number.
pub fn parse_u64(text: &str) -> (result: Option<u64>)
    ensures
        match result {
            Some(number) => parsed_unsigned(text@, u64::MAX as nat) == Some(number as nat),
            None => parsed_unsigned(text@, u64::MAX as nat) is None,
        },
{
    let chars = chars_of(text);
    let start: usize = if chars.len() > 0 && chars[0] == '+' { 1 } else { 0 };
    let ghost digits = unsigned_digits(text@);
    assert(digits == text@.skip(start as int));
    if chars.len() == start {
        return None;
    }
    let mut value: u64 = 0;
    let mut index: usize = start;
    assert(digits.take(0).len() == 0);
    while index < chars.len()
        invariant
            start <= index <= chars.len(),
            start <= 1,
            chars@ == text@,
            digits == unsigned_digits(text@),
            digits == text@.skip(start as int),
            forall|i: int| 0 <= i < index - start ==> is_digit(#[trigger] digits[i]),
            value as nat == digits_value(digits.take(index - start)),
        decreases chars.len() - index,
    {
        let c = chars[index];
        let ghost at = index - start;
        assert(digits[at] == c);
        if !(c >= '0' && c <= '9') {
            assert(!is_digit(digits[at]));
            return None;
        }
        let digit: u64 = (c as u32 - 48) as u64;
        proof {
            assert(digits.take(at + 1).drop_last() == digits.take(at));
            assert(digits_value(digits.take(at + 1)) == value * 10 + digit);
            lemma_value_grows(digits, at + 1);
        }
        let scaled: u64 = match value.checked_mul(10) {
            Some(scaled) => scaled,
            None => {
                return None;
            },
        };
        value = match scaled.checked_add(digit) {
            Some(sum) => sum,
            None => {
                return None;
            },
        };
        index = index + 1;
    }
    assert(digits.take(chars.len() - start) == digits);
    Some(value)
}

/// What is said of a text that writes no unsigned 64-bit number.
pub uninterp spec fn number_fault(text: Seq<char>) -> Seq<char>;

/// Writes the error with which `str::parse` refuses a text as a `u64`, as its `Display` does. The
/// words are a function of the text, and left unsaid.
#[verifier::external_body]
pub(crate) fn write_number_fault(text: &str) -> (result: String)
    requires
        parsed_unsigned(text@, u64::MAX as nat) is None,
    ensures
        result@ == number_fault(text@),
{
    match text.parse::<u64>() {
        Ok(number) => number.to_string(),
        Err(error) => error.to_string(),
    }
}

/// Reads an unsigned number of the machine's word size.
pub fn parse_usize(text: &str) -> (result: Option<usize>)
    ensures
        match result {
            Some(number) => parsed_unsigned(text@, usize::MAX as nat) == Some(number as nat),
            None => parsed_unsigned(text@, usize::MAX as nat) is None,
        },
{
    match parse_u64(text) {
        Some(number) => if number <= usize::MAX as u64 {
            Some(number as usize)
        } else {
            None
        },
        None => None,
    }
}

/// A written number is a nonempty run of digits with the number as its value.
pub proof fn lemma_decimal_shape(number: nat)
    ensures
        decimal_digits(number).len() > 0,
        all_digits(decimal_digits(number)),
        digits_value(decimal_digits(number)) == number,
    decreases number,
{
    reveal_with_fuel(digits_value, 2);
    let text = decimal_digits(number);
    if number < 10 {
        assert(text.drop_last() == Seq::<char>::empty());
    } else {
        lemma_decimal_shape(number / 10);
        assert(text.drop_last() == decimal_digits(number / 10));
    }
}

/// Reading back a written number gives the number.
pub proof fn decimal_round_trip(number: nat, limit: nat)
    requires
        number <= limit,
    ensures
        parsed_unsigned(decimal_digits(number), limit) == Some(number),
{
    lemma_decimal_shape(number);
    assert(is_digit(decimal_digits(number)[0]));
}

/// Two numbers that are written alike are the same number.
pub proof fn decimal_is_injective(left: nat, right: nat)
    requires
        decimal_digits(left) == decimal_digits(right),
    ensures
        left == right,
{
    lemma_decimal_shape(left);
    lemma_decimal_shape(right);
}

// ----- prefixes and substrings -----

/// Whether `text` begins with `prefix`.
pub open spec fn has_prefix(text: Seq<char>, prefix: Seq<char>) -> bool {
    prefix.len() <= text.len() && text.take(prefix.len() as int) == prefix
}

/// Whether `text` begins with `prefix`.
pub fn starts_with(text: &str, prefix: &str) -> (result: bool)
    ensures
        result == has_prefix(text@, prefix@),
{
    let size: usize = prefix.unicode_len();
    if size > text.unicode_len() {
        return false;
    }
    same(text.substring_char(0, size), prefix)
}

/// What follows `prefix` in `text`, if `text` begins with it.
pub open spec fn after_prefix(text: Seq<char>, prefix: Seq<char>) -> Option<Seq<char>> {
    if has_prefix(text, prefix) {
        Some(text.skip(prefix.len() as int))
    } else {
        None
    }
}

/// What follows `prefix` in `text`, if `text` begins with it.
pub fn strip_prefix(text: &str, prefix: &str) -> (result: Option<String>)
    ensures
        view_of(result) == after_prefix(text@, prefix@),
{
    if starts_with(text, prefix) {
        let rest = text.substring_char(prefix.unicode_len(), text.unicode_len());
        assert(rest@ == text@.skip(prefix@.len() as int));
        Some(rest.to_owned())
    } else {
        None
    }
}

/// Whether `needle` stands in `text` at position `at`.
pub open spec fn occurs_at(text: Seq<char>, needle: Seq<char>, at: int) -> bool {
    0 <= at && at + needle.len() <= text.len() && text.subrange(at, at + needle.len()) == needle
}

/// Whether `needle` stands anywhere in `text`.
pub open spec fn has_substring(text: Seq<char>, needle: Seq<char>) -> bool {
    exists|at: int| occurs_at(text, needle, at)
}

/// Whether `needle` stands anywhere in `text`.
pub fn contains(text: &str, needle: &str) -> (result: bool)
    ensures
        result == has_substring(text@, needle@),
{
    let size: usize = needle.unicode_len();
    let total: usize = text.unicode_len();
    if size > total {
        return false;
    }
    let last: usize = total - size;
    let mut at: usize = 0;
    while at < last
        invariant
            size == needle@.len(),
            total == text@.len(),
            last == total - size,
            at <= last,
            forall|earlier: int| 0 <= earlier < at ==> !occurs_at(text@, needle@, earlier),
        decreases last - at,
    {
        if same(text.substring_char(at, at + size), needle) {
            assert(occurs_at(text@, needle@, at as int));
            return true;
        }
        at = at + 1;
    }
    let found = same(text.substring_char(last, total), needle);
    assert(found == occurs_at(text@, needle@, last as int));
    found
}

/// The first position, from `from` on, at which `needle` stands in `text`.
pub open spec fn occurrence(text: Seq<char>, needle: Seq<char>, from: int) -> Option<int>
    decreases text.len() + 1 - from,
{
    if from + needle.len() > text.len() {
        None
    } else if occurs_at(text, needle, from) {
        Some(from)
    } else {
        occurrence(text, needle, from + 1)
    }
}

/// The first position at which `needle` stands in `text`.
pub fn find_text(text: &str, needle: &str) -> (result: Option<usize>)
    ensures
        match result {
            Some(at) => occurrence(text@, needle@, 0) == Some(at as int) && at + needle@.len()
                <= text@.len(),
            None => occurrence(text@, needle@, 0) is None,
        },
{
    let size: usize = needle.unicode_len();
    let total: usize = text.unicode_len();
    if size > total {
        return None;
    }
    let last: usize = total - size;
    let mut at: usize = 0;
    while at < last
        invariant
            size == needle@.len(),
            total == text@.len(),
            last == total - size,
            at <= last,
            occurrence(text@, needle@, 0) == occurrence(text@, needle@, at as int),
        decreases last - at,
    {
        if same(text.substring_char(at, at + size), needle) {
            assert(occurs_at(text@, needle@, at as int));
            return Some(at);
        }
        assert(!occurs_at(text@, needle@, at as int));
        at = at + 1;
    }
    if same(text.substring_char(last, total), needle) {
        assert(occurs_at(text@, needle@, last as int));
        return Some(last);
    }
    assert(!occurs_at(text@, needle@, last as int));
    assert(occurrence(text@, needle@, last + 1) is None);
    None
}

/// What stands before and after the first `needle` in `text`, if it stands there.
pub open spec fn divided_by(text: Seq<char>, needle: Seq<char>) -> Option<(Seq<char>, Seq<char>)> {
    match occurrence(text, needle, 0) {
        Some(at) => Some((text.take(at), text.skip(at + needle.len()))),
        None => None,
    }
}

/// What stands before and after the first `needle` in `text`, if it stands there.
pub fn divide_by(text: &str, needle: &str) -> (result: Option<(String, String)>)
    ensures
        match result {
            Some((before, after)) => divided_by(text@, needle@) == Some((before@, after@)),
            None => divided_by(text@, needle@) is None,
        },
{
    match find_text(text, needle) {
        Some(at) => {
            let size: usize = needle.unicode_len();
            let total: usize = text.unicode_len();
            let before = text.substring_char(0, at);
            let after = text.substring_char(at + size, total);
            assert(before@ =~= text@.take(at as int));
            assert(after@ =~= text@.skip(at + needle@.len()));
            Some((before.to_owned(), after.to_owned()))
        },
        None => None,
    }
}

// ----- positions and pieces -----

/// The position of the first `c` in `text`, or its length where there is none.
pub open spec fn position_of(text: Seq<char>, c: char) -> int
    decreases text.len(),
{
    if text.len() == 0 {
        0
    } else if text[0] == c {
        0
    } else {
        1 + position_of(text.skip(1), c)
    }
}

/// `position_of` is the one place with no `c` before it that holds `c` or ends the text.
pub proof fn lemma_position(text: Seq<char>, c: char, at: int)
    requires
        0 <= at <= text.len(),
        forall|i: int| 0 <= i < at ==> text[i] != c,
        at < text.len() ==> text[at] == c,
    ensures
        position_of(text, c) == at,
    decreases text.len(),
{
    if text.len() > 0 && text[0] != c {
        assert forall|i: int| 0 <= i < at - 1 implies text.skip(1)[i] != c by {
            assert(text.skip(1)[i] == text[i + 1]);
        }
        lemma_position(text.skip(1), c, at - 1);
    }
}

pub proof fn lemma_position_bounds(text: Seq<char>, c: char)
    ensures
        0 <= position_of(text, c) <= text.len(),
        forall|i: int| 0 <= i < position_of(text, c) ==> text[i] != c,
        position_of(text, c) < text.len() ==> text[position_of(text, c)] == c,
    decreases text.len(),
{
    if text.len() > 0 && text[0] != c {
        lemma_position_bounds(text.skip(1), c);
        let rest = text.skip(1);
        assert forall|i: int| 0 <= i < position_of(text, c) implies text[i] != c by {
            if i > 0 {
                assert(text[i] == rest[i - 1]);
            }
        }
    }
}

/// The pieces of `text` between the characters `c`: one more than there are of them.
pub open spec fn pieces(text: Seq<char>, c: char) -> Seq<Seq<char>>
    decreases text.len(),
{
    proof {
        lemma_position_bounds(text, c);
    }
    let at = position_of(text, c);
    if at == text.len() {
        seq![text]
    } else {
        seq![text.take(at)] + pieces(text.skip(at + 1), c)
    }
}

/// Splits `text` at every `c`.
pub fn split_at_char(text: &str, c: char) -> (result: Vec<String>)
    ensures
        views(result@) == pieces(text@, c),
        result@.len() > 0,
{
    let chars = chars_of(text);
    let mut result: Vec<String> = Vec::new();
    let mut start: usize = 0;
    let mut index: usize = 0;
    assert(text@.skip(0) == text@);
    assert(views(result@) + pieces(text@.skip(0), c) == pieces(text@, c));
    while index < chars.len()
        invariant
            chars@ == text@,
            start <= index <= chars.len(),
            forall|i: int| start <= i < index ==> chars[i] != c,
            views(result@) + pieces(text@.skip(start as int), c) == pieces(text@, c),
        decreases chars.len() - index,
    {
        if chars[index] == c {
            let ghost before = result@;
            let ghost rest = text@.skip(start as int);
            let piece = text.substring_char(start, index).to_owned();
            result.push(piece);
            proof {
                lemma_position(rest, c, index - start);
                assert(piece@ == rest.take(index - start));
                assert(rest.skip(index - start + 1) == text@.skip(index + 1));
                assert(pieces(rest, c) == seq![piece@] + pieces(text@.skip(index + 1), c));
                assert(views(result@) == views(before).push(piece@));
                assert(views(result@) + pieces(text@.skip(index + 1), c) == views(before) + pieces(
                    rest,
                    c,
                ));
            }
            start = index + 1;
        }
        index = index + 1;
    }
    let ghost before = result@;
    let ghost rest = text@.skip(start as int);
    let piece = text.substring_char(start, chars.len()).to_owned();
    result.push(piece);
    proof {
        lemma_position(rest, c, rest.len() as int);
        assert(piece@ == rest);
        assert(views(result@) == views(before).push(piece@));
        assert(views(result@) == views(before) + pieces(rest, c));
    }
    result
}

/// The text before and after the first `c`, if there is one.
pub open spec fn divided(text: Seq<char>, c: char) -> Option<(Seq<char>, Seq<char>)> {
    let at = position_of(text, c);
    if at < text.len() {
        Some((text.take(at), text.skip(at + 1)))
    } else {
        None
    }
}

/// Whether `text` holds no `c`.
pub open spec fn is_without(text: Seq<char>, c: char) -> bool {
    forall|i: int| 0 <= i < text.len() ==> text[i] != c
}

/// A text is divided, and split, where its first `c` stands.
pub proof fn lemma_divided(left: Seq<char>, c: char, right: Seq<char>)
    requires
        is_without(left, c),
    ensures
        divided(left + seq![c] + right, c) == Some((left, right)),
        pieces(left + seq![c] + right, c) == seq![left] + pieces(right, c),
        pieces(left, c) == seq![left],
{
    let text = left + seq![c] + right;
    lemma_position(text, c, left.len() as int);
    lemma_position(left, c, left.len() as int);
    assert(text.take(left.len() as int) =~= left);
    assert(text.skip(left.len() as int + 1) =~= right);
}

/// The text before and after the first `c`, if there is one.
pub fn divide(text: &str, c: char) -> (result: Option<(String, String)>)
    ensures
        match result {
            Some(parts) => divided(text@, c) == Some((parts.0@, parts.1@)),
            None => divided(text@, c) is None,
        },
{
    let chars = chars_of(text);
    let mut index: usize = 0;
    while index < chars.len()
        invariant
            chars@ == text@,
            index <= chars.len(),
            forall|i: int| 0 <= i < index ==> chars[i] != c,
        decreases chars.len() - index,
    {
        if chars[index] == c {
            proof {
                lemma_position(text@, c, index as int);
            }
            let head = text.substring_char(0, index);
            let tail = text.substring_char(index + 1, chars.len());
            assert(head@ == text@.take(index as int));
            assert(tail@ == text@.skip(index + 1));
            return Some((head.to_owned(), tail.to_owned()));
        }
        index = index + 1;
    }
    proof {
        lemma_position(text@, c, text@.len() as int);
    }
    None
}

// ----- lines -----

/// A line without the carriage return that its line feed followed.
pub open spec fn without_carriage_return(line: Seq<char>) -> Seq<char> {
    if line.len() > 0 && line.last() == '\r' {
        line.drop_last()
    } else {
        line
    }
}

/// The lines of `text`: each ends with a line feed, optionally after a carriage return, or with
/// the text itself. A final line feed begins no further line.
pub open spec fn lines_of(text: Seq<char>) -> Seq<Seq<char>>
    decreases text.len(),
{
    proof {
        lemma_position_bounds(text, '\n');
    }
    let at = position_of(text, '\n');
    if text.len() == 0 {
        Seq::empty()
    } else if at == text.len() {
        seq![text]
    } else {
        seq![without_carriage_return(text.take(at))] + lines_of(text.skip(at + 1))
    }
}

/// The lines of `text`.
pub fn lines(text: &str) -> (result: Vec<String>)
    ensures
        views(result@) == lines_of(text@),
{
    let chars = chars_of(text);
    let mut result: Vec<String> = Vec::new();
    let mut start: usize = 0;
    let mut index: usize = 0;
    assert(text@.skip(0) == text@);
    assert(views(result@) + lines_of(text@.skip(0)) == lines_of(text@));
    while index < chars.len()
        invariant
            chars@ == text@,
            start <= index <= chars.len(),
            forall|i: int| start <= i < index ==> chars[i] != '\n',
            views(result@) + lines_of(text@.skip(start as int)) == lines_of(text@),
        decreases chars.len() - index,
    {
        if chars[index] == '\n' {
            let ghost before = result@;
            let ghost rest = text@.skip(start as int);
            let end: usize = if index > start && chars[index - 1] == '\r' {
                index - 1
            } else {
                index
            };
            let line = text.substring_char(start, end).to_owned();
            result.push(line);
            proof {
                lemma_position(rest, '\n', index - start);
                assert(line@ == without_carriage_return(rest.take(index - start)));
                assert(rest.skip(index - start + 1) == text@.skip(index + 1));
                assert(lines_of(rest) == seq![line@] + lines_of(text@.skip(index + 1)));
                assert(views(result@) == views(before).push(line@));
                assert(views(result@) + lines_of(text@.skip(index + 1)) == views(before)
                    + lines_of(rest));
            }
            start = index + 1;
        }
        index = index + 1;
    }
    if start < chars.len() {
        let ghost before = result@;
        let ghost rest = text@.skip(start as int);
        let line = text.substring_char(start, chars.len()).to_owned();
        result.push(line);
        proof {
            lemma_position(rest, '\n', rest.len() as int);
            assert(line@ == rest);
            assert(views(result@) == views(before).push(line@));
            assert(views(result@) == views(before) + lines_of(rest));
        }
    } else {
        assert(text@.skip(start as int).len() == 0);
        assert(views(result@) == lines_of(text@));
    }
    result
}

// ----- blanks and words -----

/// Whether `c` has the Unicode property White_Space.
pub open spec fn is_blank(c: char) -> bool {
    ||| '\u{9}' <= c && c <= '\u{d}'
    ||| c == '\u{20}'
    ||| c == '\u{85}'
    ||| c == '\u{a0}'
    ||| c == '\u{1680}'
    ||| '\u{2000}' <= c && c <= '\u{200a}'
    ||| c == '\u{2028}'
    ||| c == '\u{2029}'
    ||| c == '\u{202f}'
    ||| c == '\u{205f}'
    ||| c == '\u{3000}'
}

fn blank(c: char) -> (result: bool)
    ensures
        result == is_blank(c),
{
    (c >= '\u{9}' && c <= '\u{d}') || c == '\u{20}' || c == '\u{85}' || c == '\u{a0}' || c
        == '\u{1680}' || (c >= '\u{2000}' && c <= '\u{200a}') || c == '\u{2028}' || c == '\u{2029}'
        || c == '\u{202f}' || c == '\u{205f}' || c == '\u{3000}'
}

/// `text` without its leading blanks.
pub open spec fn without_leading_blanks(text: Seq<char>) -> Seq<char>
    decreases text.len(),
{
    if text.len() > 0 && is_blank(text[0]) {
        without_leading_blanks(text.skip(1))
    } else {
        text
    }
}

/// `text` without its trailing blanks.
pub open spec fn without_trailing_blanks(text: Seq<char>) -> Seq<char>
    decreases text.len(),
{
    if text.len() > 0 && is_blank(text.last()) {
        without_trailing_blanks(text.drop_last())
    } else {
        text
    }
}

/// `text` without its leading and trailing blanks.
pub open spec fn trimmed(text: Seq<char>) -> Seq<char> {
    without_trailing_blanks(without_leading_blanks(text))
}

/// `text` without its leading and trailing blanks.
pub fn trim(text: &str) -> (result: &str)
    ensures
        result@ == trimmed(text@),
{
    let chars = chars_of(text);
    let mut start: usize = 0;
    assert(text@.skip(0) == text@);
    while start < chars.len() && blank(chars[start])
        invariant
            chars@ == text@,
            start <= chars.len(),
            without_leading_blanks(text@.skip(start as int)) == without_leading_blanks(text@),
        decreases chars.len() - start,
    {
        assert(text@.skip(start as int).skip(1) == text@.skip(start + 1));
        start = start + 1;
    }
    let ghost body = text@.skip(start as int);
    assert(without_leading_blanks(text@) == body);
    let mut end: usize = chars.len();
    assert(text@.subrange(start as int, end as int) == body);
    while end > start && blank(chars[end - 1])
        invariant
            chars@ == text@,
            start <= end <= chars.len(),
            without_trailing_blanks(text@.subrange(start as int, end as int))
                == without_trailing_blanks(body),
        decreases end,
    {
        let ghost kept = text@.subrange(start as int, end as int);
        assert(kept.last() == chars[end - 1]);
        assert(kept.drop_last() == text@.subrange(start as int, end - 1));
        end = end - 1;
    }
    assert(end > start ==> text@.subrange(start as int, end as int).last() == chars[end - 1]);
    text.substring_char(start, end)
}

/// A text that neither begins nor ends with a blank has nothing to trim.
pub proof fn lemma_nothing_to_trim(text: Seq<char>)
    requires
        text.len() > 0,
        !is_blank(text[0]),
        !is_blank(text.last()),
    ensures
        trimmed(text) == text,
{
}

proof fn lemma_leading_blanks_dropped(text: Seq<char>) -> (from: int)
    ensures
        0 <= from <= text.len(),
        without_leading_blanks(text) == text.skip(from),
        forall|i: int| 0 <= i < from ==> is_blank(#[trigger] text[i]),
        from < text.len() ==> !is_blank(text[from]),
    decreases text.len(),
{
    if text.len() > 0 && is_blank(text[0]) {
        let rest = text.skip(1);
        let from = lemma_leading_blanks_dropped(rest);
        assert(rest.skip(from) =~= text.skip(from + 1));
        assert forall|i: int| 0 <= i < from + 1 implies is_blank(#[trigger] text[i]) by {
            if i > 0 {
                assert(rest[i - 1] == text[i]);
            }
        }
        if from < rest.len() {
            assert(rest[from] == text[from + 1]);
        }
        from + 1
    } else {
        assert(text.skip(0) =~= text);
        0
    }
}

proof fn lemma_trailing_blanks_dropped(text: Seq<char>) -> (end: int)
    ensures
        0 <= end <= text.len(),
        without_trailing_blanks(text) == text.take(end),
        forall|i: int| end <= i < text.len() ==> is_blank(#[trigger] text[i]),
        end > 0 ==> !is_blank(text[end - 1]),
    decreases text.len(),
{
    if text.len() > 0 && is_blank(text.last()) {
        let rest = text.drop_last();
        let end = lemma_trailing_blanks_dropped(rest);
        assert(rest.take(end) =~= text.take(end));
        assert forall|i: int| end <= i < text.len() implies is_blank(#[trigger] text[i]) by {
            if i < rest.len() {
                assert(rest[i] == text[i]);
            }
        }
        end
    } else {
        assert(text.take(text.len() as int) =~= text);
        text.len() as int
    }
}

/// Trimming drops blanks at both ends and nothing else: what is left is a run of the text that neither
/// begins nor ends with a blank, and is empty exactly where the text holds blanks only.
pub proof fn trimming_drops_outer_blanks_only(text: Seq<char>) -> (bounds: (int, int))
    ensures
        0 <= bounds.0 <= bounds.1 <= text.len(),
        trimmed(text) == text.subrange(bounds.0, bounds.1),
        forall|i: int| 0 <= i < bounds.0 ==> is_blank(#[trigger] text[i]),
        forall|i: int| bounds.1 <= i < text.len() ==> is_blank(#[trigger] text[i]),
        bounds.0 < bounds.1 ==> !is_blank(text[bounds.0]) && !is_blank(text[bounds.1 - 1]),
        trimmed(text).len() == 0 <==> (forall|i: int|
            0 <= i < text.len() ==> is_blank(#[trigger] text[i])),
{
    let from = lemma_leading_blanks_dropped(text);
    let rest = text.skip(from);
    let end = lemma_trailing_blanks_dropped(rest);
    assert(rest.take(end) =~= text.subrange(from, from + end));
    assert forall|i: int| from + end <= i < text.len() implies is_blank(#[trigger] text[i]) by {
        assert(rest[i - from] == text[i]);
    }
    if end > 0 {
        assert(rest[end - 1] == text[from + end - 1]);
        assert(rest[0] == text[from]);
        if end == 1 {
            assert(!is_blank(text[from]));
        }
    }
    (from, from + end)
}

/// The position of the first blank in `text`, or its length where there is none.
pub open spec fn blank_position(text: Seq<char>) -> int
    decreases text.len(),
{
    if text.len() == 0 {
        0
    } else if is_blank(text[0]) {
        0
    } else {
        1 + blank_position(text.skip(1))
    }
}

proof fn lemma_blank_position(text: Seq<char>, at: int)
    requires
        0 <= at <= text.len(),
        forall|i: int| 0 <= i < at ==> !is_blank(text[i]),
        at < text.len() ==> is_blank(text[at]),
    ensures
        blank_position(text) == at,
    decreases text.len(),
{
    if text.len() > 0 && !is_blank(text[0]) {
        assert forall|i: int| 0 <= i < at - 1 implies !is_blank(text.skip(1)[i]) by {
            assert(text.skip(1)[i] == text[i + 1]);
        }
        lemma_blank_position(text.skip(1), at - 1);
    }
}

/// The first run of characters without blanks in `text`, if there is one.
pub open spec fn first_word_of(text: Seq<char>) -> Option<Seq<char>> {
    let rest = without_leading_blanks(text);
    if rest.len() == 0 {
        None
    } else {
        Some(rest.take(blank_position(rest)))
    }
}

/// The first run of characters without blanks in `text`, if there is one.
pub fn first_word(text: &str) -> (result: Option<String>)
    ensures
        view_of(result) == first_word_of(text@),
{
    let chars = chars_of(text);
    let mut start: usize = 0;
    assert(text@.skip(0) == text@);
    while start < chars.len() && blank(chars[start])
        invariant
            chars@ == text@,
            start <= chars.len(),
            without_leading_blanks(text@.skip(start as int)) == without_leading_blanks(text@),
        decreases chars.len() - start,
    {
        assert(text@.skip(start as int).skip(1) == text@.skip(start + 1));
        start = start + 1;
    }
    let ghost rest = text@.skip(start as int);
    assert(without_leading_blanks(text@) == rest);
    if start == chars.len() {
        return None;
    }
    let mut end: usize = start;
    while end < chars.len() && !blank(chars[end])
        invariant
            chars@ == text@,
            start <= end <= chars.len(),
            forall|i: int| start <= i < end ==> !is_blank(chars[i]),
        decreases chars.len() - end,
    {
        end = end + 1;
    }
    proof {
        assert forall|i: int| 0 <= i < end - start implies !is_blank(rest[i]) by {
            assert(rest[i] == chars[start + i]);
        }
        lemma_blank_position(rest, end - start);
        assert(text@.subrange(start as int, end as int) == rest.take(end - start));
    }
    Some(text.substring_char(start, end).to_owned())
}

/// Dropping leading blanks leaves nothing, or something that does not begin with one.
pub proof fn lemma_leading_blanks(text: Seq<char>)
    ensures
        without_leading_blanks(text).len() <= text.len(),
        without_leading_blanks(text).len() > 0 ==> !is_blank(without_leading_blanks(text)[0]),
    decreases text.len(),
{
    if text.len() > 0 && is_blank(text[0]) {
        lemma_leading_blanks(text.skip(1));
    }
}

/// Where the first blank can be.
pub proof fn lemma_blank_position_bounds(text: Seq<char>)
    ensures
        0 <= blank_position(text) <= text.len(),
        text.len() > 0 && !is_blank(text[0]) ==> blank_position(text) > 0,
    decreases text.len(),
{
    if text.len() > 0 && !is_blank(text[0]) {
        lemma_blank_position_bounds(text.skip(1));
    }
}

/// The runs of characters without blanks in `text`, in order.
pub open spec fn words_of(text: Seq<char>) -> Seq<Seq<char>>
    decreases text.len(),
{
    proof {
        lemma_leading_blanks(text);
        lemma_blank_position_bounds(without_leading_blanks(text));
    }
    let rest = without_leading_blanks(text);
    if rest.len() == 0 {
        Seq::empty()
    } else {
        let end = blank_position(rest);
        seq![rest.take(end)] + words_of(rest.skip(end))
    }
}

/// The runs of characters without blanks in `text`, in order.
pub fn words(text: &str) -> (result: Vec<String>)
    ensures
        views(result@) == words_of(text@),
{
    let chars = chars_of(text);
    let mut result: Vec<String> = Vec::new();
    let mut start: usize = 0;
    assert(text@.skip(0) =~= text@);
    assert(views(result@) + words_of(text@.skip(0)) =~= words_of(text@));
    loop
        invariant
            chars@ == text@,
            start <= chars.len(),
            views(result@) + words_of(text@.skip(start as int)) == words_of(text@),
        ensures
            views(result@) == words_of(text@),
        decreases chars.len() - start,
    {
        let ghost tail = text@.skip(start as int);
        let ghost before = result@;
        let mut first: usize = start;
        assert(text@.skip(first as int) == tail);
        while first < chars.len() && blank(chars[first])
            invariant
                chars@ == text@,
                start <= first <= chars.len(),
                without_leading_blanks(text@.skip(first as int)) == without_leading_blanks(tail),
            decreases chars.len() - first,
        {
            assert(text@.skip(first as int).skip(1) =~= text@.skip(first + 1));
            first = first + 1;
        }
        let ghost rest = text@.skip(first as int);
        assert(without_leading_blanks(tail) == rest);
        if first == chars.len() {
            assert(words_of(tail) =~= Seq::<Seq<char>>::empty());
            assert(views(result@) =~= words_of(text@));
            break;
        }
        let mut end: usize = first;
        while end < chars.len() && !blank(chars[end])
            invariant
                chars@ == text@,
                first <= end <= chars.len(),
                forall|i: int| first <= i < end ==> !is_blank(chars[i]),
            decreases chars.len() - end,
        {
            end = end + 1;
        }
        proof {
            assert forall|i: int| 0 <= i < end - first implies !is_blank(rest[i]) by {
                assert(rest[i] == chars[first + i]);
            }
            lemma_blank_position(rest, end - first);
            lemma_leading_blanks(tail);
            lemma_blank_position_bounds(rest);
            assert(text@.subrange(first as int, end as int) =~= rest.take(end - first));
            assert(rest.skip(end - first) =~= text@.skip(end as int));
            assert(words_of(tail) == seq![rest.take(end - first)] + words_of(
                text@.skip(end as int),
            ));
        }
        let word = text.substring_char(first, end).to_owned();
        result.push(word);
        proof {
            assert(views(result@) =~= views(before).push(word@));
            assert(views(result@) + words_of(text@.skip(end as int)) =~= views(before) + words_of(
                tail,
            ));
        }
        start = end;
    }
    result
}

/// An ASCII capital as its small letter; any other character as it is.
pub open spec fn lowered(c: char) -> char {
    if 'A' <= c && c <= 'Z' {
        (c as u32 + 32) as char
    } else {
        c
    }
}

/// Whether two texts are the same but for the case of ASCII letters.
pub open spec fn same_but_case(left: Seq<char>, right: Seq<char>) -> bool {
    left.len() == right.len() && forall|i: int|
        0 <= i < left.len() ==> lowered(#[trigger] left[i]) == lowered(right[i])
}

fn lower(c: char) -> (result: u32)
    ensures
        result == lowered(c) as u32,
{
    if c >= 'A' && c <= 'Z' {
        c as u32 + 32
    } else {
        c as u32
    }
}

/// Whether two texts are the same but for the case of ASCII letters.
pub fn eq_ignoring_case(left: &str, right: &str) -> (result: bool)
    ensures
        result == same_but_case(left@, right@),
{
    let first = chars_of(left);
    let second = chars_of(right);
    if first.len() != second.len() {
        return false;
    }
    let mut index: usize = 0;
    while index < first.len()
        invariant
            index <= first.len(),
            first.len() == second.len(),
            first@ == left@,
            second@ == right@,
            forall|i: int| 0 <= i < index ==> lowered(#[trigger] left@[i]) == lowered(right@[i]),
        decreases first.len() - index,
    {
        if lower(first[index]) != lower(second[index]) {
            assert(lowered(left@[index as int]) != lowered(right@[index as int]));
            return false;
        }
        index = index + 1;
    }
    true
}

/// Whether `text` ends with `suffix`.
pub open spec fn has_suffix(text: Seq<char>, suffix: Seq<char>) -> bool {
    text.len() >= suffix.len() && text.skip(text.len() - suffix.len()) == suffix
}

/// Whether `text` ends with `suffix`.
pub fn ends_with(text: &str, suffix: &str) -> (result: bool)
    ensures
        result == has_suffix(text@, suffix@),
{
    let size: usize = text.unicode_len();
    let length: usize = suffix.unicode_len();
    if size < length {
        return false;
    }
    let tail = text.substring_char(size - length, size);
    assert(tail@ =~= text@.skip(text@.len() - suffix@.len()));
    same(tail, suffix)
}

/// A copy of an optional text.
pub fn copied_text(item: &Option<String>) -> (result: Option<String>)
    ensures
        result == *item,
{
    match item {
        Some(text) => Some(text.clone()),
        None => None,
    }
}

// ----- lists -----

/// The texts of `items` with `separator` between them.
pub open spec fn joined(items: Seq<Seq<char>>, separator: Seq<char>) -> Seq<char>
    decreases items.len(),
{
    if items.len() == 0 {
        Seq::empty()
    } else if items.len() == 1 {
        items[0]
    } else {
        joined(items.drop_last(), separator) + separator + items.last()
    }
}

/// The texts of `items` with `separator` between them.
pub fn join(items: &Vec<String>, separator: &str) -> (result: String)
    ensures
        result@ == joined(views(items@), separator@),
{
    let mut result = String::new();
    let mut index: usize = 0;
    let ghost all = views(items@);
    while index < items.len()
        invariant
            index <= items.len(),
            all == views(items@),
            result@ == joined(all.take(index as int), separator@),
        decreases items.len() - index,
    {
        assert(all.take(index + 1).drop_last() == all.take(index as int));
        assert(all.take(index + 1).last() == items[index as int]@);
        if index > 0 {
            result.append(separator);
        } else {
            assert(result@ + items[index as int]@ == items[index as int]@);
        }
        result.append(items[index].as_str());
        index = index + 1;
    }
    assert(all.take(items.len() as int) == all);
    result
}

/// Whether the list holds the text.
pub fn holds(items: &Vec<String>, text: &str) -> (result: bool)
    ensures
        result == views(items@).contains(text@),
{
    let mut index: usize = 0;
    while index < items.len()
        invariant
            index <= items.len(),
            forall|i: int| 0 <= i < index ==> views(items@)[i] != text@,
        decreases items.len() - index,
    {
        if same(items[index].as_str(), text) {
            assert(views(items@)[index as int] == text@);
            return true;
        }
        index = index + 1;
    }
    false
}

/// A list of texts without those equal to `text`.
pub open spec fn without_text(items: Seq<Seq<char>>, text: Seq<char>) -> Seq<Seq<char>>
    decreases items.len(),
{
    if items.len() == 0 {
        Seq::empty()
    } else if items.last() == text {
        without_text(items.drop_last(), text)
    } else {
        without_text(items.drop_last(), text).push(items.last())
    }
}

/// A list of texts without those equal to `text`.
pub fn without(items: &Vec<String>, text: &str) -> (result: Vec<String>)
    ensures
        views(result@) == without_text(views(items@), text@),
        result@.len() <= items@.len(),
{
    let mut result: Vec<String> = Vec::new();
    let mut index: usize = 0;
    let ghost all = views(items@);
    while index < items.len()
        invariant
            index <= items.len(),
            all == views(items@),
            views(result@) == without_text(all.take(index as int), text@),
            result@.len() <= index,
        decreases items.len() - index,
    {
        assert(all.take(index + 1).drop_last() == all.take(index as int));
        let ghost before = result@;
        if !same(items[index].as_str(), text) {
            let item = items[index].clone();
            result.push(item);
            assert(views(result@) == views(before).push(item@));
        }
        index = index + 1;
    }
    assert(all.take(items.len() as int) == all);
    result
}

/// A list of texts with `text` appended, unless it already holds it.
pub open spec fn with_text(items: Seq<Seq<char>>, text: Seq<char>) -> Seq<Seq<char>> {
    if items.contains(text) {
        items
    } else {
        items.push(text)
    }
}

/// Appending a text to a list makes it hold that text and no other that it did not hold.
pub proof fn appending_adds_one_text(items: Seq<Seq<char>>, text: Seq<char>, other: Seq<char>)
    ensures
        items.push(text).contains(other) <==> items.contains(other) || other == text,
        with_text(items, text).contains(other) <==> items.contains(other) || other == text,
        items.no_duplicates() ==> with_text(items, text).no_duplicates(),
        items.is_prefix_of(with_text(items, text)),
{
    let longer = items.push(text);
    if items.contains(other) {
        let i = choose|i: int| 0 <= i < items.len() && items[i] == other;
        assert(longer[i] == other);
    }
    if other == text {
        assert(longer[items.len() as int] == other);
    }
    if longer.contains(other) {
        let i = choose|i: int| 0 <= i < longer.len() && longer[i] == other;
        if i < items.len() {
            assert(items[i] == other);
        }
    }
}

/// Leaving a text out of a list leaves exactly the other texts in it.
pub proof fn leaving_out_removes_one_text(items: Seq<Seq<char>>, text: Seq<char>, other: Seq<char>)
    ensures
        without_text(items, text).contains(other) <==> items.contains(other) && other != text,
        without_text(items, text).len() <= items.len(),
        !items.contains(text) ==> without_text(items, text) == items,
    decreases items.len(),
{
    if items.len() > 0 {
        let before = items.drop_last();
        leaving_out_removes_one_text(before, text, other);
        appending_adds_one_text(before, items.last(), other);
        appending_adds_one_text(before, items.last(), text);
        appending_adds_one_text(without_text(before, text), items.last(), other);
        assert(items =~= before.push(items.last()));
    }
}

/// Appends `text` to a list, unless it already holds it.
pub fn add_text(items: &mut Vec<String>, text: &str)
    ensures
        views(final(items)@) == with_text(views(old(items)@), text@),
        final(items)@.len() <= old(items)@.len() + 1,
{
    if !holds(items, text) {
        let ghost before = items@;
        items.push(text.to_owned());
        assert(views(items@) =~= views(before).push(text@));
    }
}

/// The characters of each text of a list.
pub open spec fn str_views(items: Seq<&str>) -> Seq<Seq<char>> {
    Seq::new(items.len(), |i: int| items[i]@)
}

/// A list of texts, each copied.
pub fn listed(items: Vec<&str>) -> (result: Vec<String>)
    ensures
        views(result@) == str_views(items@),
{
    let mut result: Vec<String> = Vec::new();
    let mut index: usize = 0;
    while index < items.len()
        invariant
            index <= items.len(),
            views(result@) == str_views(items@).take(index as int),
        decreases items.len() - index,
    {
        let ghost before = result@;
        let ghost all = str_views(items@);
        let item = items[index].to_owned();
        result.push(item);
        assert(views(result@) == views(before).push(item@));
        assert(all.take(index + 1) == all.take(index as int).push(all[index as int]));
        index = index + 1;
    }
    assert(str_views(items@).take(items.len() as int) == str_views(items@));
    result
}

/// A copy of a list of texts.
pub fn copied(items: &Vec<String>) -> (result: Vec<String>)
    ensures
        views(result@) == views(items@),
        result@ == items@,
{
    let mut result: Vec<String> = Vec::new();
    let mut index: usize = 0;
    while index < items.len()
        invariant
            index <= items.len(),
            result@ == items@.take(index as int),
        decreases items.len() - index,
    {
        result.push(items[index].clone());
        index = index + 1;
    }
    result
}

/// The texts of `items`, one after the other.
pub open spec fn glued(items: Seq<Seq<char>>) -> Seq<char>
    decreases items.len(),
{
    if items.len() == 0 {
        Seq::empty()
    } else {
        glued(items.drop_last()) + items.last()
    }
}

/// The texts of `items`, one after the other.
pub fn glue(items: Vec<&str>) -> (result: String)
    ensures
        result@ == glued(str_views(items@)),
{
    let ghost all = str_views(items@);
    let mut result = String::new();
    let mut index: usize = 0;
    assert(result@ =~= glued(all.take(0)));
    while index < items.len()
        invariant
            index <= items.len(),
            all == str_views(items@),
            result@ == glued(all.take(index as int)),
        decreases items.len() - index,
    {
        assert(all.take(index + 1).drop_last() =~= all.take(index as int));
        result.append(items[index]);
        index = index + 1;
    }
    assert(all.take(items.len() as int) =~= all);
    result
}

/// `text` with `with` in place of each `c`.
pub open spec fn replaced(text: Seq<char>, c: char, with: Seq<char>) -> Seq<char> {
    joined(pieces(text, c), with)
}

/// `text` with `with` in place of each `c`.
pub fn replace_char(text: &str, c: char, with: &str) -> (result: String)
    ensures
        result@ == replaced(text@, c, with@),
{
    join(&split_at_char(text, c), with)
}

/// One list of texts behind another.
pub fn appended(first: Vec<String>, second: Vec<String>) -> (result: Vec<String>)
    ensures
        views(result@) == views(first@) + views(second@),
{
    let ghost before = first@;
    let ghost added = second@;
    let mut result = first;
    let mut rest = second;
    result.append(&mut rest);
    assert(views(result@) =~= views(before) + views(added));
    result
}

// ----- quoting -----

/// A text as `Debug` writes it: in double quotes, with escapes.
pub uninterp spec fn quoted_text(text: Seq<char>) -> Seq<char>;

/// Writes `text` with the `Debug` implementation of `str`. The result is a function of the text
/// alone; which characters are escaped, and how, is left unsaid.
#[verifier::external_body]
pub(crate) fn quoted(text: &str) -> (result: String)
    ensures
        result@ == quoted_text(text@),
{
    format!("{text:?}")
}

/// Texts as `Debug` writes a list of them.
pub open spec fn quoted_list(items: Seq<Seq<char>>) -> Seq<char> {
    "["@ + joined(
        Seq::new(items.len(), |i: int| quoted_text(items[i])),
        ", "@,
    ) + "]"@
}

/// Texts as `Debug` writes a list of them.
pub fn quote_list(items: &Vec<String>) -> (result: String)
    ensures
        result@ == quoted_list(views(items@)),
{
    let ghost all = Seq::new(items@.len(), |i: int| quoted_text(views(items@)[i]));
    let mut parts: Vec<String> = Vec::new();
    let mut index: usize = 0;
    assert(views(parts@) =~= all.take(0));
    while index < items.len()
        invariant
            index <= items.len(),
            all == Seq::new(items@.len(), |i: int| quoted_text(views(items@)[i])),
            views(parts@) == all.take(index as int),
        decreases items.len() - index,
    {
        let ghost before = parts@;
        let part = quoted(items[index].as_str());
        parts.push(part);
        assert(views(parts@) =~= views(before).push(part@));
        assert(all.take(index + 1) =~= all.take(index as int).push(all[index as int]));
        index = index + 1;
    }
    assert(all.take(items.len() as int) =~= all);
    assert(all =~= Seq::new(views(items@).len(), |i: int| quoted_text(views(items@)[i])));
    let mut result = String::from_str("[");
    result.append(join(&parts, ", ").as_str());
    result.append("]");
    result
}

/// The first characters of a text, at most so many.
pub open spec fn first_chars(text: Seq<char>, count: nat) -> Seq<char> {
    if text.len() > count {
        text.take(count as int)
    } else {
        text
    }
}

/// The first characters of a text, at most so many.
pub fn take_chars(text: &str, count: usize) -> (result: String)
    ensures
        result@ == first_chars(text@, count as nat),
{
    if text.unicode_len() > count {
        let cut = text.substring_char(0, count);
        assert(cut@ =~= text@.take(count as int));
        cut.to_owned()
    } else {
        text.to_owned()
    }
}

} // verus!
