//! Names that carry a number, and what is read back from them.

use crate::text::{
    after_prefix, decimal, decimal_digits, digits_value, divide, lemma_decimal_shape, padded,
    parse_usize, parsed_unsigned, position_of, strip_prefix, two_digits,
};
use vstd::prelude::*;

verus! {

/// `prefix` followed by `number` in decimal.
pub fn numbered(prefix: &str, number: usize) -> (result: String)
    ensures
        result@ == prefix@ + decimal_digits(number as nat),
{
    let mut result = String::from_str(prefix);
    result.append(decimal(number as u64).as_str());
    result
}

/// `prefix` followed by `number` in decimal with at least two digits.
pub fn padded_name(prefix: &str, number: usize) -> (result: String)
    ensures
        result@ == prefix@ + two_digits(number as nat),
{
    let mut result = String::from_str(prefix);
    result.append(padded(number as u64).as_str());
    result
}

/// The name of the fleet node with this ordinal, which is also its host and pod name.
pub open spec fn agent_name(ordinal: nat) -> Seq<char> {
    "agent-"@ + decimal_digits(ordinal)
}

/// The name of the fleet node with this ordinal.
pub fn agent_hostname(ordinal: usize) -> (result: String)
    ensures
        result@ == agent_name(ordinal as nat),
{
    numbered("agent-", ordinal)
}

/// The ordinal in a fleet node's name, if it is one.
pub open spec fn ordinal_of(node: Seq<char>) -> Option<nat> {
    match after_prefix(node, "agent-"@) {
        None => None,
        Some(rest) => parsed_unsigned(rest, usize::MAX as nat),
    }
}

/// The ordinal in a fleet node's name, if it is one.
pub fn agent_ordinal(node: &str) -> (result: Option<usize>)
    ensures
        match result {
            Some(ordinal) => ordinal_of(node@) == Some(ordinal as nat),
            None => ordinal_of(node@) is None,
        },
{
    match strip_prefix(node, "agent-") {
        None => None,
        Some(rest) => parse_usize(rest.as_str()),
    }
}

/// A node's ordinal is read back from its name.
pub proof fn agent_names_round_trip(ordinal: nat)
    requires
        ordinal <= usize::MAX,
    ensures
        ordinal_of(agent_name(ordinal)) == Some(ordinal),
{
    let name = agent_name(ordinal);
    let prefix = "agent-"@;
    assert(name.take(prefix.len() as int) =~= prefix);
    assert(name.skip(prefix.len() as int) =~= decimal_digits(ordinal));
    crate::text::decimal_round_trip(ordinal, usize::MAX as nat);
}

/// Two numbers that are padded alike are the same number.
pub proof fn two_digits_are_injective(left: nat, right: nat)
    requires
        two_digits(left) == two_digits(right),
    ensures
        left == right,
{
    lemma_two_digits_value(left);
    lemma_two_digits_value(right);
}

proof fn lemma_two_digits_value(number: nat)
    ensures
        digits_value(two_digits(number)) == number,
{
    reveal_strlit("0");
    lemma_decimal_shape(number);
    if number < 10 {
        reveal_with_fuel(digits_value, 3);
        let text = two_digits(number);
        let digit = decimal_digits(number);
        assert(text =~= seq!['0', digit[0]]);
        assert(text.drop_last() =~= seq!['0']);
        assert(text.drop_last().drop_last() =~= Seq::<char>::empty());
        assert(digit.drop_last() =~= Seq::<char>::empty());
    }
}

/// Names that differ only in the padded number they end with are distinct for distinct numbers.
pub proof fn padded_names_are_injective(prefix: Seq<char>, left: nat, right: nat)
    requires
        prefix + two_digits(left) == prefix + two_digits(right),
    ensures
        left == right,
{
    assert((prefix + two_digits(left)).skip(prefix.len() as int) =~= two_digits(left));
    assert((prefix + two_digits(right)).skip(prefix.len() as int) =~= two_digits(right));
    two_digits_are_injective(left, right);
}

/// The number before the first dot of a version, if it is one.
pub open spec fn major_of(version: Seq<char>) -> Option<nat> {
    parsed_unsigned(version.take(position_of(version, '.')), usize::MAX as nat)
}

/// The number before the first dot of a version, if it is one.
pub fn version_major(version: &str) -> (result: Option<usize>)
    ensures
        match result {
            Some(major) => major_of(version@) == Some(major as nat),
            None => major_of(version@) is None,
        },
{
    proof {
        crate::text::lemma_position_bounds(version@, '.');
    }
    match divide(version, '.') {
        Some(parts) => parse_usize(parts.0.as_str()),
        None => {
            assert(version@.take(version@.len() as int) =~= version@);
            parse_usize(version)
        },
    }
}

/// The text of a fleet version, `MAJOR.0.0`.
pub open spec fn major_version(major: nat) -> Seq<char> {
    decimal_digits(major) + ".0.0"@
}

/// The text of a fleet version, `MAJOR.0.0`.
pub fn version_of_major(major: usize) -> (result: String)
    ensures
        result@ == major_version(major as nat),
{
    let mut result = decimal(major as u64);
    result.append(".0.0");
    result
}

/// The major number of a fleet version is read back from its text.
pub proof fn fleet_versions_round_trip(major: nat)
    requires
        major <= usize::MAX,
    ensures
        major_of(major_version(major)) == Some(major),
{
    reveal_strlit(".0.0");
    lemma_decimal_shape(major);
    let digits = decimal_digits(major);
    let text = major_version(major);
    assert forall|i: int| 0 <= i < digits.len() implies text[i] != '.' by {
        assert(text[i] == digits[i]);
        assert(crate::text::is_digit(digits[i]));
    }
    assert(text[digits.len() as int] == '.');
    crate::text::lemma_position(text, '.', digits.len() as int);
    assert(text.take(digits.len() as int) =~= digits);
    crate::text::decimal_round_trip(major, usize::MAX as nat);
}

/// A version counts by the number that stands before its first dot, whatever comes after the dot; one
/// too large to hold counts as none.
pub proof fn versions_count_by_their_first_number(major: nat, rest: Seq<char>)
    ensures
        major <= usize::MAX ==> major_of(decimal_digits(major)) == Some(major),
        major <= usize::MAX ==> major_of(decimal_digits(major) + "."@ + rest) == Some(major),
        major > usize::MAX ==> major_of(decimal_digits(major)) is None,
        major > usize::MAX ==> major_of(decimal_digits(major) + "."@ + rest) is None,
{
    reveal_strlit(".");
    lemma_decimal_shape(major);
    let digits = decimal_digits(major);
    let text = digits + "."@ + rest;
    assert forall|i: int| 0 <= i < digits.len() implies text[i] != '.' && digits[i] != '.' by {
        assert(text[i] == digits[i]);
        assert(crate::text::is_digit(digits[i]));
    }
    assert(text[digits.len() as int] == '.');
    crate::text::lemma_position(text, '.', digits.len() as int);
    crate::text::lemma_position(digits, '.', digits.len() as int);
    assert(text.take(digits.len() as int) =~= digits);
    assert(digits.take(digits.len() as int) =~= digits);
    assert(crate::text::is_digit(digits[0]));
}

// ----- the width of a rollout -----

/// The multiplier that spreads seeds over rollout widths.
pub const WIDTH_SPREAD: u64 = 0x9E37_79B9_7F4A_7C15;

/// How many groups may roll at once in the wave with this seed: at least `floor`, and one of
/// `span` widths.
pub open spec fn spread_width(seed: u64, floor: int, span: int) -> int {
    floor + (seed.wrapping_mul(WIDTH_SPREAD) >> 33) as int % span
}

/// The width of the wave with this seed, from 4 up to 8.
pub fn wave_width(seed: u64) -> (result: u32)
    ensures
        result == spread_width(seed, 4, 5),
        4 <= result <= 8,
{
    let offset: u64 = (seed.wrapping_mul(WIDTH_SPREAD) >> 33) % 5;
    4 + offset as u32
}

/// Every width from 4 up to 8 is the width of some wave.
pub proof fn every_width_occurs(width: int)
    requires
        4 <= width <= 8,
    ensures
        exists|seed: u64| #[trigger] spread_width(seed, 4, 5) == width,
{
    assert(0u64 >> 33 == 0u64) by (bit_vector);
    assert(0x3c6e_f372_fe94_f82au64 >> 33 == 506952121u64) by (bit_vector);
    assert(0x78dd_e6e5_fd29_f054u64 >> 33 == 1013904242u64) by (bit_vector);
    assert(0xe377_9b97_f4a7_c150u64 >> 33 == 1908133323u64) by (bit_vector);
    assert(0x9e37_79b9_7f4a_7c15u64 >> 33 == 1327217884u64) by (bit_vector);
    assert(0u64.wrapping_mul(WIDTH_SPREAD) == 0u64);
    assert(2u64.wrapping_mul(WIDTH_SPREAD) == 0x3c6e_f372_fe94_f82au64);
    assert(4u64.wrapping_mul(WIDTH_SPREAD) == 0x78dd_e6e5_fd29_f054u64);
    assert(16u64.wrapping_mul(WIDTH_SPREAD) == 0xe377_9b97_f4a7_c150u64);
    assert(1u64.wrapping_mul(WIDTH_SPREAD) == 0x9e37_79b9_7f4a_7c15u64);
    assert(spread_width(0, 4, 5) == 4);
    assert(spread_width(2, 4, 5) == 5);
    assert(spread_width(4, 4, 5) == 6);
    assert(spread_width(16, 4, 5) == 7);
    assert(spread_width(1, 4, 5) == 8);
}

/// The width of a wave is drawn from the upper 31 bits of its seed, once that is spread, and lies in the
/// span above the floor.
pub proof fn widths_are_drawn_from_the_spread_seed(seed: u64, floor: int, span: int)
    requires
        span > 0,
    ensures
        spread_width(seed, floor, span) == floor + ((seed * 0x9E37_79B9_7F4A_7C15)
            % 0x1_0000_0000_0000_0000) / 0x2_0000_0000 % span,
        floor <= spread_width(seed, floor, span) < floor + span,
{
    let spread = seed.wrapping_mul(WIDTH_SPREAD);
    assert(spread >> 33 == spread / 0x2_0000_0000) by (bit_vector);
    let drawn = (spread >> 33) as int;
    assert(0 <= drawn % span < span) by (nonlinear_arith)
        requires
            span > 0,
    ;
}

/// A name is a node's exactly where a number follows `agent-`, and it has that number as its ordinal.
pub proof fn only_agents_have_an_ordinal(rest: Seq<char>, node: Seq<char>)
    ensures
        ordinal_of("agent-"@ + rest) == parsed_unsigned(rest, usize::MAX as nat),
        after_prefix(node, "agent-"@) is None ==> ordinal_of(node) is None,
{
    crate::text_laws::prefixes_and_suffixes_are_ends(node, "agent-"@, rest);
}

} // verus!
