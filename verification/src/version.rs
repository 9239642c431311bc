//! Release versions, as the `semver` crate reads and writes them.

use crate::text::{decimal_digits, is_digit, lemma_decimal_shape, lemma_position, position_of};
use vstd::prelude::*;

verus! {

/// A parsed version.
pub struct Version {
    pub major: u64,
    pub minor: u64,
    pub patch: u64,
    pub pre: String,
    pub build: String,
}

/// What a parsed version holds.
pub struct VersionView {
    pub major: u64,
    pub minor: u64,
    pub patch: u64,
    pub pre: Seq<char>,
    pub build: Seq<char>,
}

impl View for Version {
    type V = VersionView;

    open spec fn view(&self) -> VersionView {
        VersionView {
            major: self.major,
            minor: self.minor,
            patch: self.patch,
            pre: self.pre@,
            build: self.build@,
        }
    }
}

/// A version without pre-release and build parts.
pub open spec fn plain_version(major: u64, minor: u64, patch: u64) -> VersionView {
    VersionView { major, minor, patch, pre: Seq::empty(), build: Seq::empty() }
}

/// The text of a version without pre-release and build parts.
pub open spec fn version_text(major: u64, minor: u64, patch: u64) -> Seq<char> {
    decimal_digits(major as nat) + "."@ + decimal_digits(minor as nat) + "."@ + decimal_digits(
        patch as nat,
    )
}

/// Whether a text is three decimal numbers with dots between them.
pub open spec fn is_plain(text: Seq<char>) -> bool {
    exists|major: u64, minor: u64, patch: u64|
        text == #[trigger] version_text(major, minor, patch)
}

/// The version that three decimal numbers with dots between them write.
pub open spec fn plain_value(text: Seq<char>) -> VersionView {
    let (major, minor, patch): (u64, u64, u64) = choose|major: u64, minor: u64, patch: u64|
        text == #[trigger] version_text(major, minor, patch);
    plain_version(major, minor, patch)
}

/// What `semver::Version::parse` makes of a text: the version, or the text of its error.
pub uninterp spec fn parsed_version(text: Seq<char>) -> Result<VersionView, Seq<char>>;

/// Parses `text` with `semver::Version::parse`.
///
/// The result is a function of the text alone, an error being taken as the text that it displays.
/// Three plain decimal numbers with dots between them parse as those numbers, with empty
/// pre-release and build parts; and no other text parses with both parts empty.
#[verifier::external_body]
pub(crate) fn parse_version(text: &str) -> (result: Result<Version, String>)
    ensures
        match result {
            Ok(version) => parsed_version(text@) == Ok::<VersionView, Seq<char>>(version@),
            Err(message) => parsed_version(text@) == Err::<VersionView, Seq<char>>(message@),
        },
        forall|major: u64, minor: u64, patch: u64|
            text@ == #[trigger] version_text(major, minor, patch) ==> result is Ok && result->Ok_0@
                == plain_version(major, minor, patch),
        result is Ok && result->Ok_0@.pre.len() == 0 && result->Ok_0@.build.len() == 0 ==> text@
            == version_text(result->Ok_0@.major, result->Ok_0@.minor, result->Ok_0@.patch),
{
    match semver::Version::parse(text) {
        Ok(version) => Ok(
            Version {
                major: version.major,
                minor: version.minor,
                patch: version.patch,
                pre: version.pre.as_str().to_owned(),
                build: version.build.as_str().to_owned(),
            },
        ),
        Err(error) => Err(error.to_string()),
    }
}

/// The version that a text writes, or the text of the error: three decimal numbers with dots
/// between them write those numbers, and of any other text `semver` decides.
pub open spec fn version_of(text: Seq<char>) -> Result<VersionView, Seq<char>> {
    if is_plain(text) {
        Ok(plain_value(text))
    } else {
        parsed_version(text)
    }
}

/// Reads a version.
pub fn read_version(text: &str) -> (result: Result<Version, String>)
    ensures
        match result {
            Ok(version) => version_of(text@) == Ok::<VersionView, Seq<char>>(version@),
            Err(message) => version_of(text@) == Err::<VersionView, Seq<char>>(message@),
        },
        result is Ok && result->Ok_0@.pre.len() == 0 && result->Ok_0@.build.len() == 0 ==> text@
            == version_text(result->Ok_0@.major, result->Ok_0@.minor, result->Ok_0@.patch),
{
    parse_version(text)
}

/// Writes a version with `semver::Version::new` and its `Display`: the three numbers in decimal,
/// with dots between them.
#[verifier::external_body]
pub(crate) fn write_version(major: u64, minor: u64, patch: u64) -> (result: String)
    ensures
        result@ == version_text(major, minor, patch),
{
    semver::Version::new(major, minor, patch).to_string()
}

/// Whether `left` has lower precedence than `right`, both without pre-release and build parts.
pub open spec fn precedes(left: VersionView, right: VersionView) -> bool {
    ||| left.major < right.major
    ||| left.major == right.major && left.minor < right.minor
    ||| left.major == right.major && left.minor == right.minor && left.patch < right.patch
}

proof fn lemma_first_dot(number: nat, rest: Seq<char>)
    ensures
        position_of(decimal_digits(number) + "."@ + rest, '.') == decimal_digits(number).len(),
        (decimal_digits(number) + "."@ + rest).take(decimal_digits(number).len() as int)
            == decimal_digits(number),
        (decimal_digits(number) + "."@ + rest).skip(decimal_digits(number).len() as int + 1) == rest,
{
    reveal_strlit(".");
    lemma_decimal_shape(number);
    let digits = decimal_digits(number);
    let text = digits + "."@ + rest;
    assert forall|i: int| 0 <= i < digits.len() implies text[i] != '.' by {
        assert(text[i] == digits[i]);
        assert(is_digit(digits[i]));
    }
    assert(text[digits.len() as int] == '.');
    lemma_position(text, '.', digits.len() as int);
    assert(text.take(digits.len() as int) =~= digits);
    assert(text.skip(digits.len() as int + 1) =~= rest);
}

/// Two versions that are written alike are the same version.
pub proof fn version_text_is_injective(
    major: u64,
    minor: u64,
    patch: u64,
    other_major: u64,
    other_minor: u64,
    other_patch: u64,
)
    requires
        version_text(major, minor, patch) == version_text(other_major, other_minor, other_patch),
    ensures
        major == other_major,
        minor == other_minor,
        patch == other_patch,
{
    let tail = decimal_digits(minor as nat) + "."@ + decimal_digits(patch as nat);
    let other_tail = decimal_digits(other_minor as nat) + "."@ + decimal_digits(other_patch as nat);
    assert(version_text(major, minor, patch) =~= decimal_digits(major as nat) + "."@ + tail);
    assert(version_text(other_major, other_minor, other_patch) =~= decimal_digits(
        other_major as nat,
    ) + "."@ + other_tail);
    lemma_first_dot(major as nat, tail);
    lemma_first_dot(other_major as nat, other_tail);
    lemma_decimal_shape(major as nat);
    lemma_decimal_shape(other_major as nat);
    lemma_first_dot(minor as nat, decimal_digits(patch as nat));
    lemma_first_dot(other_minor as nat, decimal_digits(other_patch as nat));
    lemma_decimal_shape(minor as nat);
    lemma_decimal_shape(other_minor as nat);
    lemma_decimal_shape(patch as nat);
    lemma_decimal_shape(other_patch as nat);
}

/// Reading back a written version gives the version.
pub proof fn version_round_trip(major: u64, minor: u64, patch: u64)
    ensures
        version_of(version_text(major, minor, patch)) == Ok::<VersionView, Seq<char>>(
            plain_version(major, minor, patch),
        ),
{
    let text = version_text(major, minor, patch);
    let (a, b, c): (u64, u64, u64) = choose|a: u64, b: u64, c: u64|
        text == #[trigger] version_text(a, b, c);
    version_text_is_injective(major, minor, patch, a, b, c);
}

/// Versions are ordered: none precedes itself, of two that differ in their numbers one precedes the
/// other and not the reverse, and what precedes what precedes a version precedes it.
pub proof fn versions_are_ordered(left: VersionView, middle: VersionView, right: VersionView)
    ensures
        !precedes(left, left),
        precedes(left, right) ==> !precedes(right, left),
        precedes(left, middle) && precedes(middle, right) ==> precedes(left, right),
        left.major != right.major || left.minor != right.minor || left.patch != right.patch
            ==> precedes(left, right) || precedes(right, left),
        left.major < right.major ==> precedes(left, right),
        left.major == right.major && left.minor < right.minor ==> precedes(left, right),
{
}

} // verus!
