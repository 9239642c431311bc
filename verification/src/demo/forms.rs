//! What form-encoded values stand for.

use crate::encoding::{
    ascii_parts_what_it_stands_between, bytes_text, encoded_texts_read_back,
};
use vstd::prelude::*;
use vstd::utf8::{
    encode_scalar, encode_utf8, has_width_1_encoding, has_width_2_encoding, has_width_3_encoding,
    is_ascii_chars, is_ascii_chars_encode_utf8,
};

verus! {

/// The value of a hexadecimal digit.
pub open spec fn hex_value(byte: u8) -> Option<u8> {
    if 48 <= byte <= 57 {
        Some((byte - 48) as u8)
    } else if 97 <= byte <= 102 {
        Some((byte - 87) as u8)
    } else if 65 <= byte <= 70 {
        Some((byte - 55) as u8)
    } else {
        None
    }
}

/// Whether bytes begin with an escape: a percent sign and two hexadecimal digits.
pub open spec fn is_escape(bytes: Seq<u8>) -> bool {
    bytes.len() >= 3 && bytes[0] == 37 && hex_value(bytes[1]) is Some && hex_value(bytes[2]) is Some
}

/// The bytes that a form-encoded value stands for: a plus sign for a blank, an escape for the byte
/// that it names, and anything else for itself.
pub open spec fn decoded(bytes: Seq<u8>) -> Seq<u8>
    decreases bytes.len(),
{
    if bytes.len() == 0 {
        bytes
    } else if bytes[0] == 43 {
        seq![32u8] + decoded(bytes.skip(1))
    } else if is_escape(bytes) {
        seq![(hex_value(bytes[1])->Some_0 * 16 + hex_value(bytes[2])->Some_0) as u8] + decoded(
            bytes.skip(3),
        )
    } else {
        seq![bytes[0]] + decoded(bytes.skip(1))
    }
}

/// The text that a form-encoded value stands for.
pub open spec fn form_text(value: Seq<char>) -> Seq<char> {
    bytes_text(decoded(encode_utf8(value)))
}

// ----- bytes -----

/// Whether bytes hold neither plus nor percent signs.
spec fn has_no_sign(bytes: Seq<u8>) -> bool {
    forall|i: int| 0 <= i < bytes.len() ==> bytes[i] != 43 && bytes[i] != 37
}

/// Bytes without plus and percent signs stand for themselves.
proof fn lemma_plain_bytes(bytes: Seq<u8>)
    requires
        has_no_sign(bytes),
    ensures
        decoded(bytes) == bytes,
    decreases bytes.len(),
{
    if bytes.len() > 0 {
        let rest = bytes.skip(1);
        assert forall|i: int| 0 <= i < rest.len() implies rest[i] != 43 && rest[i] != 37 by {
            assert(rest[i] == bytes[i + 1]);
        }
        lemma_plain_bytes(rest);
        assert(seq![bytes[0]] + rest =~= bytes);
    }
}

/// A plus sign between two values stands for a blank between what they stand for: it ends whatever
/// escape the first may have begun.
pub proof fn a_plus_sign_parts_what_it_stands_between(left: Seq<u8>, right: Seq<u8>)
    ensures
        decoded(left + seq![43u8] + right) == decoded(left) + seq![32u8] + decoded(right),
    decreases left.len(),
{
    let all = left + seq![43u8] + right;
    if left.len() == 0 {
        assert(all.skip(1) =~= right);
        assert(decoded(left) + seq![32u8] + decoded(right) =~= seq![32u8] + decoded(right));
    } else {
        let taken: int = if left[0] != 43 && is_escape(left) {
            3
        } else {
            1
        };
        assert(all[0] == left[0]);
        assert(is_escape(all) == is_escape(left)) by {
            if left.len() >= 3 {
                assert(all[1] == left[1] && all[2] == left[2]);
            } else if left.len() == 2 {
                assert(all[2] == 43);
            } else {
                assert(all[1] == 43);
            }
        }
        if is_escape(left) {
            assert(all[1] == left[1] && all[2] == left[2]);
        }
        assert(all.skip(taken) =~= left.skip(taken) + seq![43u8] + right);
        a_plus_sign_parts_what_it_stands_between(left.skip(taken), right);
        assert(decoded(all) =~= decoded(left) + seq![32u8] + decoded(right));
    }
}

/// Whether the escape at a place stands for a byte, with digits in either case.
pub open spec fn escapes_byte(encoded: Seq<u8>, place: int, byte: u8) -> bool {
    &&& encoded[3 * place] == 37
    &&& hex_value(encoded[3 * place + 1]) == Some((byte / 16) as u8)
    &&& hex_value(encoded[3 * place + 2]) == Some((byte % 16) as u8)
}

/// Whether `encoded` escapes every one of `bytes`.
pub open spec fn escapes(encoded: Seq<u8>, bytes: Seq<u8>) -> bool {
    &&& encoded.len() == 3 * bytes.len()
    &&& forall|i: int| 0 <= i < bytes.len() ==> #[trigger] escapes_byte(encoded, i, bytes[i])
}

/// Bytes that are escaped, one and all, are what the escapes stand for.
pub proof fn escaped_bytes_read_back(encoded: Seq<u8>, bytes: Seq<u8>)
    requires
        escapes(encoded, bytes),
    ensures
        decoded(encoded) == bytes,
    decreases bytes.len(),
{
    if bytes.len() > 0 {
        let rest = bytes.skip(1);
        let left = encoded.skip(3);
        assert(escapes_byte(encoded, 0, bytes[0]));
        assert forall|i: int| 0 <= i < rest.len() implies #[trigger] escapes_byte(
            left,
            i,
            rest[i],
        ) by {
            assert(escapes_byte(encoded, i + 1, bytes[i + 1]));
        }
        escaped_bytes_read_back(left, rest);
        assert(is_escape(encoded));
        assert(seq![bytes[0]] + rest =~= bytes);
    } else {
        assert(encoded =~= bytes);
    }
}

// ----- texts -----

/// The encodings of two texts, one after the other, encode the one after the other.
proof fn lemma_encoding_of_both(left: Seq<char>, right: Seq<char>)
    ensures
        encode_utf8(left + right) == encode_utf8(left) + encode_utf8(right),
    decreases left.len(),
{
    if left.len() == 0 {
        assert(left + right =~= right);
        assert(encode_utf8(left) + encode_utf8(right) =~= encode_utf8(right));
    } else {
        lemma_encoding_of_both(left.drop_first(), right);
        assert((left + right).drop_first() =~= left.drop_first() + right);
        assert(encode_utf8(left + right) =~= encode_utf8(left) + encode_utf8(right));
    }
}

/// A single ASCII character is encoded as itself.
proof fn lemma_encoding_of_ascii(c: char)
    requires
        c as u32 <= 0x7f,
    ensures
        encode_utf8(seq![c]) == seq![c as u8],
{
    let text = seq![c];
    assert(is_ascii_chars(text));
    is_ascii_chars_encode_utf8(text);
    assert(encode_utf8(text) =~= seq![c as u8]);
}

/// A plus sign between two values stands for a blank between the texts that they stand for.
pub proof fn a_plus_sign_is_a_blank(left: Seq<char>, right: Seq<char>)
    ensures
        form_text(left + "+"@ + right) == form_text(left) + " "@ + form_text(right),
{
    reveal_strlit("+");
    reveal_strlit(" ");
    assert("+"@ =~= seq!['+']);
    assert(" "@ =~= seq![' ']);
    lemma_encoding_of_ascii('+');
    lemma_encoding_of_both(left + "+"@, right);
    lemma_encoding_of_both(left, "+"@);
    a_plus_sign_parts_what_it_stands_between(encode_utf8(left), encode_utf8(right));
    ascii_parts_what_it_stands_between(
        decoded(encode_utf8(left)),
        32,
        decoded(encode_utf8(right)),
    );
}

/// Whether `encoded` writes every byte of `text` as a percent sign and two hexadecimal digits, in
/// either case.
pub open spec fn escapes_text(encoded: Seq<char>, text: Seq<char>) -> bool {
    is_ascii_chars(encoded) && escapes(encode_utf8(encoded), encode_utf8(text))
}

/// A text that is escaped, byte for byte, is read back.
pub proof fn escaped_texts_read_back(encoded: Seq<char>, text: Seq<char>)
    requires
        escapes_text(encoded, text),
    ensures
        form_text(encoded) == text,
{
    escaped_bytes_read_back(encode_utf8(encoded), encode_utf8(text));
    encoded_texts_read_back(text);
}

/// Whether a value holds neither plus nor percent signs.
pub open spec fn is_unencoded(value: Seq<char>) -> bool {
    forall|i: int| 0 <= i < value.len() ==> value[i] != '+' && value[i] != '%'
}

/// The bytes of a character are a plus or a percent sign only where it is one.
proof fn lemma_bytes_of_others(c: char)
    requires
        c != '+',
        c != '%',
    ensures
        has_no_sign(encode_scalar(c as u32)),
{
    let scalar = c as u32;
    if has_width_1_encoding(scalar) {
        assert((scalar & 0x7F) as u8 == scalar) by (bit_vector)
            requires
                scalar <= 0x7F,
        ;
    } else if has_width_2_encoding(scalar) {
        assert(0xC0u8 | ((scalar >> 6) & 0x1F) as u8 >= 0x80) by (bit_vector);
        assert(0x80u8 | (scalar & 0x3F) as u8 >= 0x80) by (bit_vector);
    } else if has_width_3_encoding(scalar) {
        assert(0xE0u8 | ((scalar >> 12) & 0x0F) as u8 >= 0x80) by (bit_vector);
        assert(0x80u8 | ((scalar >> 6) & 0x3F) as u8 >= 0x80) by (bit_vector);
        assert(0x80u8 | (scalar & 0x3F) as u8 >= 0x80) by (bit_vector);
    } else {
        assert(0xF0u8 | ((scalar >> 18) & 0x7) as u8 >= 0x80) by (bit_vector);
        assert(0x80u8 | ((scalar >> 12) & 0x3F) as u8 >= 0x80) by (bit_vector);
        assert(0x80u8 | ((scalar >> 6) & 0x3F) as u8 >= 0x80) by (bit_vector);
        assert(0x80u8 | (scalar & 0x3F) as u8 >= 0x80) by (bit_vector);
    }
}

proof fn lemma_unencoded_bytes(value: Seq<char>)
    requires
        is_unencoded(value),
    ensures
        has_no_sign(encode_utf8(value)),
    decreases value.len(),
{
    if value.len() > 0 {
        lemma_bytes_of_others(value[0]);
        let rest = value.drop_first();
        assert forall|i: int| 0 <= i < rest.len() implies rest[i] != '+' && rest[i] != '%' by {
            assert(rest[i] == value[i + 1]);
        }
        lemma_unencoded_bytes(rest);
    }
}

/// A value without plus and percent signs stands for itself.
pub proof fn unencoded_values_stand_for_themselves(value: Seq<char>)
    requires
        is_unencoded(value),
    ensures
        decoded(encode_utf8(value)) == encode_utf8(value),
        form_text(value) == value,
{
    lemma_unencoded_bytes(value);
    lemma_plain_bytes(encode_utf8(value));
    encoded_texts_read_back(value);
}

/// A hexadecimal digit has the value that it writes, in either case; nothing else is one.
pub proof fn hexadecimal_digits_have_their_value(byte: u8, value: u8)
    ensures
        hex_value(byte) == Some(value) <==> (value < 10 && byte == 48 + value) || (10 <= value < 16
            && (byte == 97 + (value - 10) || byte == 65 + (value - 10))),
{
}

/// A percent sign that two hexadecimal digits do not follow stands for itself, and what follows it is
/// read on.
pub proof fn a_lone_percent_sign_stands_for_itself(rest: Seq<u8>)
    requires
        rest.len() < 2 || hex_value(rest[0]) is None || hex_value(rest[1]) is None,
    ensures
        decoded(seq![37u8] + rest) == seq![37u8] + decoded(rest),
{
    let all = seq![37u8] + rest;
    assert(all.skip(1) =~= rest);
    if all.len() >= 3 {
        assert(all[1] == rest[0] && all[2] == rest[1]);
    }
}

} // verus!
