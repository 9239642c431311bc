//! What splitting, joining, trimming and reading texts comes to.

use crate::text::{
    after_prefix, all_digits, decimal_digits, digits_value, divided_by, first_chars, first_word_of, glued,
    has_prefix, has_substring, has_suffix, is_blank, is_digit, is_without, joined,
    lemma_blank_position_bounds, lemma_decimal_shape, lemma_divided, lemma_leading_blanks,
    lemma_position, lemma_position_bounds, lines_of, lowered, occurrence, occurs_at,
    parsed_unsigned, pieces, position_of, replaced, same_but_case, signed_digits, two_digits,
    without_leading_blanks, words_of,
};
use vstd::prelude::*;

verus! {

// ----- numbers -----

proof fn lemma_leading_zero(digits: Seq<char>)
    ensures
        digits_value(seq!['0'] + digits) == digits_value(digits),
    decreases digits.len(),
{
    let longer = seq!['0'] + digits;
    if digits.len() == 0 {
        reveal_with_fuel(digits_value, 2);
        assert(longer.drop_last() =~= Seq::<char>::empty());
    } else {
        lemma_leading_zero(digits.drop_last());
        assert(longer.drop_last() =~= seq!['0'] + digits.drop_last());
        assert(longer.last() == digits.last());
    }
}

/// A number is read from a run of digits, with or without leading zeros and with or without a plus
/// sign, if it is not too large; nothing is read where there is no digit, or anything else.
pub proof fn numbers_are_read_from_digits(digits: Seq<char>, text: Seq<char>, at: int, limit: nat)
    requires
        digits.len() > 0,
        forall|i: int| 0 <= i < digits.len() ==> '0' <= #[trigger] digits[i] <= '9',
        0 <= at < text.len(),
        !('0' <= text[at] <= '9'),
        at == 0 ==> text[at] != '+',
    ensures
        parsed_unsigned(digits, limit) == (if digits_value(digits) <= limit {
            Some(digits_value(digits))
        } else {
            None
        }),
        parsed_unsigned(seq!['+'] + digits, limit) == parsed_unsigned(digits, limit),
        parsed_unsigned(seq!['0'] + digits, limit) == parsed_unsigned(digits, limit),
        parsed_unsigned(text, limit) is None,
        parsed_unsigned(seq!['+'], limit) is None,
        parsed_unsigned(Seq::empty(), limit) is None,
{
    assert(is_digit(digits[0]));
    assert(all_digits(digits));
    assert((seq!['+'] + digits).skip(1) =~= digits);
    assert(seq!['+'].skip(1).len() == 0);
    lemma_leading_zero(digits);
    assert(all_digits(seq!['0'] + digits));
    if text[0] == '+' {
        assert(text.skip(1)[at - 1] == text[at]);
        assert(!all_digits(text.skip(1)));
    } else {
        assert(!all_digits(text));
    }
}

/// A number below ten is padded to two digits, and reads as itself; a larger one stays as it is. A
/// negative number stands behind a minus sign.
pub proof fn padding_keeps_the_number(number: nat, negative: int)
    requires
        negative < 0,
    ensures
        two_digits(number).len() >= 2,
        digits_value(two_digits(number)) == number,
        number < 10 ==> two_digits(number).len() == 2 && two_digits(number)[0] == '0',
        number >= 10 ==> two_digits(number) == decimal_digits(number),
        signed_digits(number as int) == decimal_digits(number),
        signed_digits(negative) == seq!['-'] + decimal_digits((-negative) as nat),
{
    reveal_strlit("0");
    reveal_strlit("-");
    assert("0"@ =~= seq!['0']);
    assert("-"@ =~= seq!['-']);
    lemma_decimal_shape(number);
    if number >= 10 {
        lemma_decimal_shape(number / 10);
    } else {
        lemma_leading_zero(decimal_digits(number));
    }
}

// ----- prefixes and substrings -----

/// A text begins with a prefix exactly where it is the prefix and something behind it, which is what
/// follows the prefix; it ends with a suffix exactly where it is something and the suffix behind it.
pub proof fn prefixes_and_suffixes_are_ends(text: Seq<char>, part: Seq<char>, rest: Seq<char>)
    ensures
        has_prefix(part + rest, part),
        after_prefix(part + rest, part) == Some(rest),
        has_prefix(text, part) ==> text == part + text.skip(part.len() as int),
        !has_prefix(text, part) <==> after_prefix(text, part) is None,
        has_suffix(rest + part, part),
        has_suffix(text, part) ==> text == text.take(text.len() - part.len()) + part,
{
    assert((part + rest).take(part.len() as int) =~= part);
    assert((part + rest).skip(part.len() as int) =~= rest);
    assert((rest + part).skip(rest.len() as int) =~= part);
    if has_prefix(text, part) {
        assert(text =~= text.take(part.len() as int) + text.skip(part.len() as int));
    }
    if has_suffix(text, part) {
        let at = text.len() - part.len();
        assert(text =~= text.take(at) + text.skip(at));
    }
}

proof fn lemma_occurrence(text: Seq<char>, needle: Seq<char>, from: int)
    requires
        0 <= from,
    ensures
        match occurrence(text, needle, from) {
            Some(at) => from <= at && occurs_at(text, needle, at) && forall|i: int|
                from <= i < at ==> !#[trigger] occurs_at(text, needle, i),
            None => forall|i: int| from <= i ==> !#[trigger] occurs_at(text, needle, i),
        },
    decreases text.len() + 1 - from,
{
    if from + needle.len() <= text.len() && !occurs_at(text, needle, from) {
        lemma_occurrence(text, needle, from + 1);
    }
}

/// A text holds another exactly where it is that text with something before and behind it. It is
/// divided where the other first stands, and not at all where it does not hold it.
pub proof fn texts_are_divided_at_the_first_occurrence(
    text: Seq<char>,
    needle: Seq<char>,
    before: Seq<char>,
    after: Seq<char>,
)
    ensures
        has_substring(before + needle + after, needle),
        divided_by(text, needle) is Some <==> has_substring(text, needle),
        match divided_by(text, needle) {
            Some((head, tail)) => text == head + needle + tail && forall|i: int|
                0 <= i < head.len() ==> !#[trigger] occurs_at(text, needle, i),
            None => true,
        },
{
    let whole = before + needle + after;
    assert(whole.subrange(before.len() as int, (before.len() + needle.len()) as int) =~= needle);
    assert(occurs_at(whole, needle, before.len() as int));
    lemma_occurrence(text, needle, 0);
    match occurrence(text, needle, 0) {
        Some(at) => {
            let size = needle.len() as int;
            assert(text =~= text.take(at) + text.subrange(at, at + size) + text.skip(at + size));
        },
        None => {},
    }
}

// ----- pieces and lines -----

proof fn lemma_joined_from_the_front(first: Seq<char>, rest: Seq<Seq<char>>, separator: Seq<char>)
    requires
        rest.len() > 0,
    ensures
        joined(seq![first] + rest, separator) == first + separator + joined(rest, separator),
    decreases rest.len(),
{
    let all = seq![first] + rest;
    assert(all.last() == rest.last());
    assert(all.drop_last() =~= seq![first] + rest.drop_last());
    if rest.len() == 1 {
        assert(all.drop_last() =~= seq![first]);
        assert(joined(seq![first], separator) == first);
    } else {
        lemma_joined_from_the_front(first, rest.drop_last(), separator);
        assert(joined(all, separator) =~= first + separator + (joined(rest.drop_last(), separator)
            + separator + rest.last()));
    }
}

/// Joining texts puts a separator before every text but the first.
pub proof fn joining_separates_neighbours(
    items: Seq<Seq<char>>,
    text: Seq<char>,
    separator: Seq<char>,
)
    ensures
        joined(Seq::empty(), separator) == Seq::<char>::empty(),
        joined(seq![text], separator) == text,
        items.len() > 0 ==> joined(items.push(text), separator) == joined(items, separator)
            + separator + text,
        items.len() > 0 ==> joined(seq![text] + items, separator) == text + separator + joined(
            items,
            separator,
        ),
{
    if items.len() > 0 {
        assert(items.push(text).drop_last() =~= items);
        lemma_joined_from_the_front(text, items, separator);
    }
}

/// The pieces of a text hold no character that it was split at, and give the text when they are
/// joined by it.
pub proof fn pieces_join_to_the_text(text: Seq<char>, c: char)
    ensures
        pieces(text, c).len() > 0,
        joined(pieces(text, c), seq![c]) == text,
        forall|i: int| 0 <= i < pieces(text, c).len() ==> is_without(#[trigger] pieces(text, c)[i], c),
    decreases text.len(),
{
    lemma_position_bounds(text, c);
    let at = position_of(text, c);
    if at < text.len() {
        let rest = text.skip(at + 1);
        pieces_join_to_the_text(rest, c);
        lemma_joined_from_the_front(text.take(at), pieces(rest, c), seq![c]);
        assert(text =~= text.take(at) + seq![c] + rest);
        assert forall|i: int| 0 <= i < pieces(text, c).len() implies is_without(
            #[trigger] pieces(text, c)[i],
            c,
        ) by {
            if i > 0 {
                assert(pieces(text, c)[i] == pieces(rest, c)[i - 1]);
            }
        }
    }
}

/// Replacing a character puts the other text in its place, and leaves the rest as it is.
pub proof fn replacing_touches_one_character(
    left: Seq<char>,
    right: Seq<char>,
    c: char,
    with: Seq<char>,
)
    requires
        is_without(left, c),
    ensures
        replaced(left, c, with) == left,
        replaced(left + seq![c] + right, c, with) == left + with + replaced(right, c, with),
{
    lemma_divided(left, c, right);
    pieces_join_to_the_text(right, c);
    lemma_joined_from_the_front(left, pieces(right, c), with);
}

/// A line ends with a line feed, which a carriage return may precede, or with the text; a text without
/// anything has no line.
pub proof fn lines_end_with_a_line_feed(line: Seq<char>, rest: Seq<char>)
    requires
        is_without(line, '\n'),
    ensures
        lines_of(Seq::empty()) == Seq::<Seq<char>>::empty(),
        line.len() > 0 ==> lines_of(line) == seq![line],
        line.len() == 0 || line.last() != '\r' ==> lines_of(line + seq!['\n'] + rest) == seq![line]
            + lines_of(rest),
        lines_of(line + seq!['\r', '\n'] + rest) == seq![line] + lines_of(rest),
{
    let plain = line + seq!['\n'] + rest;
    let size = line.len() as int;
    lemma_position(line, '\n', size);
    lemma_position(plain, '\n', size);
    assert(plain.take(size) =~= line);
    assert(plain.skip(size + 1) =~= rest);
    let returned = line + seq!['\r', '\n'] + rest;
    lemma_position(returned, '\n', size + 1);
    assert(returned.take(size + 1) =~= line.push('\r'));
    assert(returned.take(size + 1).drop_last() =~= line);
    assert(returned.skip(size + 2) =~= rest);
}

// ----- blanks, words and letters -----

/// The blanks are the characters with the Unicode property White_Space.
pub proof fn blanks_are_white_space(c: char)
    ensures
        is_blank(c) <==> ({
            let point = c as int;
            ||| 0x9 <= point <= 0xd
            ||| point == 0x20
            ||| point == 0x85
            ||| point == 0xa0
            ||| point == 0x1680
            ||| 0x2000 <= point <= 0x200a
            ||| point == 0x2028
            ||| point == 0x2029
            ||| point == 0x202f
            ||| point == 0x205f
            ||| point == 0x3000
        }),
{
}

proof fn lemma_skip_blanks(blanks: Seq<char>, rest: Seq<char>)
    requires
        forall|i: int| 0 <= i < blanks.len() ==> is_blank(#[trigger] blanks[i]),
        rest.len() > 0 ==> !is_blank(rest[0]),
    ensures
        without_leading_blanks(blanks + rest) == rest,
    decreases blanks.len(),
{
    let all = blanks + rest;
    if blanks.len() == 0 {
        assert(all =~= rest);
    } else {
        assert(all[0] == blanks[0]);
        assert(all.skip(1) =~= blanks.skip(1) + rest);
        lemma_skip_blanks(blanks.skip(1), rest);
    }
}

proof fn lemma_word_end(word: Seq<char>, rest: Seq<char>)
    requires
        forall|i: int| 0 <= i < word.len() ==> !is_blank(#[trigger] word[i]),
        rest.len() > 0 ==> is_blank(rest[0]),
    ensures
        crate::text::blank_position(word + rest) == word.len(),
    decreases word.len(),
{
    let all = word + rest;
    if word.len() == 0 {
        assert(all =~= rest);
    } else {
        assert(all[0] == word[0]);
        assert(all.skip(1) =~= word.skip(1) + rest);
        lemma_word_end(word.skip(1), rest);
    }
}

/// A word is a run of characters without blanks, whatever blanks stand before it, up to a blank or the
/// end of the text; a text of blanks has no word.
pub proof fn words_stand_between_blanks(blanks: Seq<char>, word: Seq<char>, rest: Seq<char>)
    requires
        forall|i: int| 0 <= i < blanks.len() ==> is_blank(#[trigger] blanks[i]),
        word.len() > 0,
        forall|i: int| 0 <= i < word.len() ==> !is_blank(#[trigger] word[i]),
        rest.len() > 0 ==> is_blank(rest[0]),
    ensures
        words_of(blanks) == Seq::<Seq<char>>::empty(),
        words_of(blanks + word + rest) == seq![word] + words_of(rest),
        first_word_of(blanks) is None,
        first_word_of(blanks + word + rest) == Some(word),
{
    lemma_skip_blanks(blanks, Seq::empty());
    assert(blanks + Seq::<char>::empty() =~= blanks);
    let tail = word + rest;
    assert(tail[0] == word[0]);
    lemma_skip_blanks(blanks, tail);
    assert(blanks + word + rest =~= blanks + tail);
    lemma_word_end(word, rest);
    assert(tail.take(word.len() as int) =~= word);
    assert(tail.skip(word.len() as int) =~= rest);
    lemma_leading_blanks(blanks + tail);
    lemma_blank_position_bounds(tail);
}

/// Two characters are the same but for their case exactly where they are the same, or one is an ASCII
/// capital and the other its small letter.
pub proof fn case_is_that_of_ascii_letters(left: Seq<char>, right: Seq<char>)
    ensures
        same_but_case(left, right) <==> left.len() == right.len() && (forall|i: int|
            0 <= i < left.len() ==> ({
                let first = #[trigger] left[i] as int;
                let second = right[i] as int;
                ||| first == second
                ||| 65 <= first <= 90 && second == first + 32
                ||| 65 <= second <= 90 && first == second + 32
            })),
{
    assert forall|a: char, b: char| #[trigger] lowered(a) == #[trigger] lowered(b) <==> (a as int
        == b as int || (65 <= a as int <= 90 && b as int == a as int + 32) || (65 <= b as int <= 90
        && a as int == b as int + 32)) by {}
    if same_but_case(left, right) {
        assert forall|i: int| 0 <= i < left.len() implies lowered(#[trigger] left[i]) == lowered(
            right[i],
        ) by {}
    }
}

/// Cutting a text keeps its beginning, up to so many characters.
pub proof fn cutting_keeps_the_beginning(text: Seq<char>, count: nat)
    ensures
        has_prefix(text, first_chars(text, count)),
        text.len() <= count ==> first_chars(text, count) == text,
        text.len() > count ==> first_chars(text, count).len() == count,
{
    assert(text.take(text.len() as int) =~= text);
}

/// Texts are put one behind the other, in order.
pub proof fn texts_are_put_one_behind_the_other(items: Seq<Seq<char>>, text: Seq<char>)
    ensures
        glued(Seq::empty()) == Seq::<char>::empty(),
        glued(seq![text]) == text,
        glued(items.push(text)) == glued(items) + text,
{
    assert(seq![text].drop_last() =~= Seq::<Seq<char>>::empty());
    assert(glued(seq![text].drop_last()) == Seq::<char>::empty());
    assert(glued(seq![text]) =~= text);
    assert(items.push(text).drop_last() =~= items);
}

} // verus!
