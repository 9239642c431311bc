//! The resource names that nodes enroll under.

use crate::naming::{agent_hostname, agent_name};
use vstd::prelude::*;
use vstd::string::*;
use vstd::utf8::*;

verus! {

/// The SHA-256 digest of some bytes, in lower-case hexadecimal.
pub uninterp spec fn sha256_of(bytes: Seq<u8>) -> Seq<char>;

/// Whether `c` is a lower-case hexadecimal digit.
pub open spec fn is_hex(c: char) -> bool {
    ('0' <= c && c <= '9') || ('a' <= c && c <= 'f')
}

/// Digests `bytes` with `sha2::Sha256` and writes the digest in hexadecimal: 64 lower-case
/// digits, which are a function of the bytes alone.
#[verifier::external_body]
pub(crate) fn sha256_hex(bytes: &[u8]) -> (result: String)
    ensures
        result@ == sha256_of(bytes@),
        result@.len() == 64,
        forall|i: int| 0 <= i < 64 ==> is_hex(#[trigger] result@[i]),
{
    format!("{:x}", <sha2::Sha256 as sha2::Digest>::digest(bytes))
}

/// The name of the resource that a host enrolls under: the enrollment nonce is the digest of the
/// host name, and the registration is the digest of the nonce, of which 24 digits are kept.
pub open spec fn enrolled_name(hostname: Seq<char>) -> Seq<char> {
    "agent-"@ + sha256_of(encode_utf8(sha256_of(encode_utf8(hostname)))).take(24)
}

/// The name of the resource that a host enrolls under.
pub fn resource_name(hostname: &str) -> (result: String)
    ensures
        result@ == enrolled_name(hostname@),
{
    let nonce = sha256_hex(hostname.as_bytes());
    let registration = sha256_hex(nonce.as_str().as_bytes());
    let mut result = String::from_str("agent-");
    result.append(registration.as_str().substring_char(0, 24));
    result
}

/// The name of the resource that the fleet node with this ordinal enrolls under.
pub fn agent_resource_name(ordinal: usize) -> (result: String)
    ensures
        result@ == enrolled_name(agent_name(ordinal as nat)),
{
    resource_name(agent_hostname(ordinal).as_str())
}

/// A lower-case hexadecimal digit is one of sixteen characters.
pub proof fn hexadecimal_has_sixteen_digits(c: char)
    ensures
        is_hex(c) <==> "0123456789abcdef"@.contains(c),
{
    reveal_strlit("0123456789abcdef");
    let digits = "0123456789abcdef"@;
    if '0' <= c && c <= '9' {
        assert(digits[c as int - '0' as int] == c);
    } else if 'a' <= c && c <= 'f' {
        assert(digits[c as int - 'a' as int + 10] == c);
    }
}

/// Every host enrolls as an agent, and two hosts share a name exactly where the digests of their
/// nonces begin with the same 24 digits.
pub proof fn hosts_are_told_apart_by_their_registration(left: Seq<char>, right: Seq<char>)
    ensures
        enrolled_name(left).take(6) == "agent-"@,
        enrolled_name(left) == enrolled_name(right) <==> sha256_of(
            encode_utf8(sha256_of(encode_utf8(left))),
        ).take(24) == sha256_of(encode_utf8(sha256_of(encode_utf8(right)))).take(24),
{
    reveal_strlit("agent-");
    assert("agent-"@.len() == 6);
    let first = sha256_of(encode_utf8(sha256_of(encode_utf8(left)))).take(24);
    let second = sha256_of(encode_utf8(sha256_of(encode_utf8(right)))).take(24);
    assert(enrolled_name(left).take(6) =~= "agent-"@);
    assert(enrolled_name(left).skip(6) =~= first);
    assert(enrolled_name(right).skip(6) =~= second);
}

} // verus!
