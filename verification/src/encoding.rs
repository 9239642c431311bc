//! Text in bytes.

use vstd::prelude::*;
use vstd::slice::slice_subrange;
use vstd::string::*;
use vstd::utf8::{
    decode_utf8, decode_utf8_encode_utf8, decode_utf8_split, encode_utf8, encode_utf8_decode_utf8,
    encode_utf8_valid_utf8, is_ascii_chars, is_ascii_chars_encode_utf8,
    is_char_boundary_iff_not_is_continuation_byte, is_char_boundary_start_end_of_seq,
    pop_first_scalar, valid_utf8, valid_utf8_split,
};

verus! {

/// What some bytes read as, where whatever is not UTF-8 is replaced.
pub uninterp spec fn lossy_text(bytes: Seq<u8>) -> Seq<char>;

/// Reads bytes with `String::from_utf8_lossy`. Bytes that are UTF-8 read as the text that they
/// encode; what other bytes read as is a function of the bytes, and left unsaid.
#[verifier::external_body]
pub(crate) fn read_lossily(bytes: &[u8]) -> (result: String)
    ensures
        result@ == lossy_text(bytes@),
        valid_utf8(bytes@) ==> encode_utf8(result@) == bytes@,
{
    String::from_utf8_lossy(bytes).into_owned()
}

/// What a run of bytes that are not ASCII reads as: the text that they encode, where they are UTF-8.
pub open spec fn run_text(run: Seq<u8>) -> Seq<char> {
    if valid_utf8(run) {
        decode_utf8(run)
    } else {
        lossy_text(run)
    }
}

/// How many bytes stand before the first that is ASCII.
pub open spec fn run_length(bytes: Seq<u8>) -> nat
    decreases bytes.len(),
{
    if bytes.len() == 0 || bytes[0] < 0x80 {
        0
    } else {
        1 + run_length(bytes.skip(1))
    }
}

/// The text that some bytes read as. An ASCII byte is a character, and part of no other: it stands
/// for itself, and what stands between two such bytes is read on its own.
pub open spec fn bytes_text(bytes: Seq<u8>) -> Seq<char>
    decreases bytes.len(),
{
    let length = run_length(bytes) as int;
    if bytes.len() == 0 {
        Seq::empty()
    } else if bytes[0] < 0x80 {
        seq![bytes[0] as char] + bytes_text(bytes.skip(1))
    } else if 0 < length <= bytes.len() {
        run_text(bytes.take(length)) + bytes_text(bytes.skip(length))
    } else {
        Seq::empty()
    }
}

proof fn lemma_run(bytes: Seq<u8>)
    ensures
        run_length(bytes) <= bytes.len(),
        bytes.len() > 0 && bytes[0] >= 0x80 ==> run_length(bytes) > 0,
        forall|i: int| 0 <= i < run_length(bytes) ==> bytes[i] >= 0x80,
        run_length(bytes) < bytes.len() ==> bytes[run_length(bytes) as int] < 0x80,
    decreases bytes.len(),
{
    if bytes.len() > 0 && bytes[0] >= 0x80 {
        let rest = bytes.skip(1);
        lemma_run(rest);
        assert forall|i: int| 0 <= i < run_length(bytes) implies bytes[i] >= 0x80 by {
            if i > 0 {
                assert(bytes[i] == rest[i - 1]);
            }
        }
    }
}

proof fn lemma_run_is(bytes: Seq<u8>, length: int)
    requires
        0 <= length <= bytes.len(),
        forall|i: int| 0 <= i < length ==> bytes[i] >= 0x80,
        length < bytes.len() ==> bytes[length] < 0x80,
    ensures
        run_length(bytes) == length,
{
    lemma_run(bytes);
    let found = run_length(bytes) as int;
    if found < length {
        assert(bytes[found] >= 0x80);
    } else if length < found {
        assert(bytes[length] >= 0x80);
    }
}

/// Bytes read as what stands before an ASCII byte, that byte, and what stands after it.
pub proof fn ascii_parts_what_it_stands_between(left: Seq<u8>, byte: u8, right: Seq<u8>)
    requires
        byte < 0x80,
    ensures
        bytes_text(left + seq![byte] + right) == bytes_text(left) + seq![byte as char]
            + bytes_text(right),
    decreases left.len(),
{
    let all = left + seq![byte] + right;
    if left.len() == 0 {
        assert(all.skip(1) =~= right);
        assert(bytes_text(all) =~= bytes_text(left) + seq![byte as char] + bytes_text(right));
    } else {
        lemma_run(left);
        let taken: int = if left[0] < 0x80 {
            1
        } else {
            run_length(left) as int
        };
        assert(all[0] == left[0]);
        if left[0] >= 0x80 {
            assert(all[taken] == (left + seq![byte])[taken]);
            lemma_run_is(all, taken);
            assert(all.take(taken) =~= left.take(taken));
        }
        ascii_parts_what_it_stands_between(left.skip(taken), byte, right);
        assert(all.skip(taken) =~= left.skip(taken) + seq![byte] + right);
        assert(bytes_text(all) =~= bytes_text(left) + seq![byte as char] + bytes_text(right));
    }
}

/// Bytes that are UTF-8 read as the text that they encode.
pub proof fn utf8_reads_as_its_text(bytes: Seq<u8>)
    requires
        valid_utf8(bytes),
    ensures
        bytes_text(bytes) == decode_utf8(bytes),
    decreases bytes.len(),
{
    if bytes.len() == 0 {
    } else if bytes[0] < 0x80 {
        let byte = bytes[0];
        assert((byte & 0x7F) == byte) by (bit_vector)
            requires
                byte < 0x80,
        ;
        assert(pop_first_scalar(bytes) =~= bytes.skip(1));
        utf8_reads_as_its_text(bytes.skip(1));
        assert(bytes_text(bytes) =~= decode_utf8(bytes));
    } else {
        lemma_run(bytes);
        let length = run_length(bytes) as int;
        if length < bytes.len() {
            is_char_boundary_iff_not_is_continuation_byte(bytes, length);
        } else {
            is_char_boundary_start_end_of_seq(bytes);
        }
        valid_utf8_split(bytes, length);
        decode_utf8_split(bytes, length);
        assert(bytes.subrange(0, length) =~= bytes.take(length));
        assert(bytes.subrange(length, bytes.len() as int) =~= bytes.skip(length));
        utf8_reads_as_its_text(bytes.skip(length));
    }
}

/// A text is read back from the bytes that encode it.
pub proof fn encoded_texts_read_back(text: Seq<char>)
    ensures
        bytes_text(encode_utf8(text)) == text,
{
    encode_utf8_valid_utf8(text);
    encode_utf8_decode_utf8(text);
    utf8_reads_as_its_text(encode_utf8(text));
}

/// The characters that ASCII bytes stand for.
spec fn ascii_text(bytes: Seq<u8>) -> Seq<char> {
    Seq::new(bytes.len(), |i: int| bytes[i] as char)
}

proof fn lemma_ascii_run(run: Seq<u8>)
    requires
        forall|i: int| 0 <= i < run.len() ==> run[i] < 0x80,
    ensures
        run_text(run) == ascii_text(run),
{
    let text = ascii_text(run);
    assert(is_ascii_chars(text));
    is_ascii_chars_encode_utf8(text);
    assert(encode_utf8(text) =~= run);
    encode_utf8_valid_utf8(text);
    encode_utf8_decode_utf8(text);
}

proof fn lemma_after_ascii(run: Seq<u8>, rest: Seq<u8>)
    requires
        forall|i: int| 0 <= i < run.len() ==> run[i] < 0x80,
    ensures
        bytes_text(run + rest) == ascii_text(run) + bytes_text(rest),
    decreases run.len(),
{
    if run.len() == 0 {
        assert(run + rest =~= rest);
        assert(ascii_text(run) + bytes_text(rest) =~= bytes_text(rest));
    } else {
        assert((run + rest).skip(1) =~= run.skip(1) + rest);
        lemma_after_ascii(run.skip(1), rest);
        assert(bytes_text(run + rest) =~= ascii_text(run) + bytes_text(rest));
    }
}

/// Bytes read as a run, of ASCII bytes or of others, and what stands after it.
proof fn lemma_after_run(bytes: Seq<u8>, length: int, ascii: bool)
    requires
        0 < length <= bytes.len(),
        forall|i: int| 0 <= i < length ==> (bytes[i] < 0x80) == ascii,
        !ascii && length < bytes.len() ==> bytes[length] < 0x80,
    ensures
        bytes_text(bytes) == run_text(bytes.take(length)) + bytes_text(bytes.skip(length)),
{
    assert(bytes[0] < 0x80 <==> ascii);
    if ascii {
        let run = bytes.take(length);
        lemma_ascii_run(run);
        lemma_after_ascii(run, bytes.skip(length));
        assert(run + bytes.skip(length) =~= bytes);
    } else {
        lemma_run_is(bytes, length);
    }
}

fn read_run(run: &[u8]) -> (result: String)
    ensures
        result@ == run_text(run@),
{
    let result = read_lossily(run);
    proof {
        encode_utf8_decode_utf8(result@);
    }
    result
}

/// Reads bytes as text, with a replacement for whatever is not UTF-8.
pub fn read_text(bytes: &[u8]) -> (result: String)
    ensures
        result@ == bytes_text(bytes@),
        valid_utf8(bytes@) ==> encode_utf8(result@) == bytes@,
{
    let mut result = String::new();
    let mut index: usize = 0;
    assert(bytes@.skip(0) =~= bytes@);
    assert(result@ + bytes_text(bytes@) =~= bytes_text(bytes@));
    while index < bytes.len()
        invariant
            index <= bytes@.len(),
            result@ + bytes_text(bytes@.skip(index as int)) == bytes_text(bytes@),
        decreases bytes@.len() - index,
    {
        let ghost rest = bytes@.skip(index as int);
        let ghost before = result@;
        let start: usize = index;
        let ascii = bytes[start] < 0x80;
        index = index + 1;
        while index < bytes.len() && (bytes[index] < 0x80) == ascii
            invariant
                start < index <= bytes@.len(),
                forall|i: int| start <= i < index ==> (bytes@[i] < 0x80) == ascii,
            decreases bytes@.len() - index,
        {
            index = index + 1;
        }
        let run = read_run(slice_subrange(bytes, start, index));
        result.append(run.as_str());
        proof {
            let length = index - start;
            assert forall|i: int| 0 <= i < length implies (rest[i] < 0x80) == ascii by {
                assert(rest[i] == bytes@[start + i]);
            }
            if length < rest.len() {
                assert(rest[length] == bytes@[index as int]);
            }
            lemma_after_run(rest, length, ascii);
            assert(bytes@.subrange(start as int, index as int) =~= rest.take(length));
            assert(rest.skip(length) =~= bytes@.skip(index as int));
            assert(result@ + bytes_text(rest.skip(length)) =~= before + bytes_text(rest));
        }
    }
    assert(bytes_text(bytes@.skip(index as int)).len() == 0);
    assert(result@ =~= bytes_text(bytes@));
    proof {
        if valid_utf8(bytes@) {
            utf8_reads_as_its_text(bytes@);
            decode_utf8_encode_utf8(bytes@);
        }
    }
    result
}

/// Reads bytes with `std::str::from_utf8`: the text that they encode, or nothing where they are
/// not UTF-8.
#[verifier::external_body]
pub(crate) fn read_utf8(bytes: &[u8]) -> (result: Option<String>)
    ensures
        match result {
            Some(text) => encode_utf8(text@) == bytes@,
            None => !valid_utf8(bytes@),
        },
{
    match std::str::from_utf8(bytes) {
        Ok(text) => Some(text.to_owned()),
        Err(_) => None,
    }
}

} // verus!
