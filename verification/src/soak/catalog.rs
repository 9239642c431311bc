//! The releases a soak campaign publishes, and the keys its repository is signed with.

use crate::demo::releases::release_toml;
use crate::e2e::fixture::{app_target, write_app_target};
use crate::soak::config::{join_path, joined_path};
use crate::text::{
    first_chars, holds, join, joined, listed, quoted, quoted_text, same, take_chars, view_of, views,
};
use vstd::prelude::*;

verus! {

// ----- releases -----

/// What a release of the campaign holds.
#[derive(Clone, Copy, PartialEq, Eq, Structural, Debug)]
pub enum CandidateKind {
    Valid,
    Corrupt,
}

/// The program that a valid release ships: the two take turns.
pub open spec fn artifact_path(generation: u64) -> Seq<char> {
    if generation % 2 == 0 {
        "/usr/local/bin/stateful-like"@
    } else {
        "/usr/local/bin/sampleapp"@
    }
}

/// What the entry point of a release is made from.
pub enum EntryPoint {
    /// A copy of this file.
    Copied(&'static str),
    /// This text, which no node can start.
    Written(String),
}

/// A release to publish, where it is prepared and how.
pub struct Candidate {
    pub version: String,
    pub target: String,
    /// The directory it is prepared in.
    pub source: String,
    pub entry_point: EntryPoint,
    /// The text of its description.
    pub description: String,
    /// The arguments of the publisher.
    pub arguments: Vec<String>,
}

/// Whether an entry point is that of a release.
pub open spec fn is_entry_point(
    entry: EntryPoint,
    kind: CandidateKind,
    generation: u64,
    version: Seq<char>,
) -> bool {
    match (kind, entry) {
        (CandidateKind::Valid, EntryPoint::Copied(path)) => path@ == artifact_path(generation),
        (CandidateKind::Corrupt, EntryPoint::Written(text)) => text@
            == "intentionally corrupt soak release "@ + version + "\n"@,
        _ => false,
    }
}

fn make_entry_point(kind: CandidateKind, generation: u64, version: &str) -> (result: EntryPoint)
    ensures
        is_entry_point(result, kind, generation, version@),
{
    match kind {
        CandidateKind::Valid => {
            if generation % 2 == 0 {
                EntryPoint::Copied("/usr/local/bin/stateful-like")
            } else {
                EntryPoint::Copied("/usr/local/bin/sampleapp")
            }
        },
        CandidateKind::Corrupt => {
            let mut text = String::from_str("intentionally corrupt soak release ");
            text.append(version);
            text.append("\n");
            EntryPoint::Written(text)
        },
    }
}

/// Where a release is prepared.
pub open spec fn source_path(release_data: Seq<char>, version: Seq<char>) -> Seq<char> {
    joined_path(joined_path(release_data, "soak-fixtures"@), version)
}

/// The release of a generation.
pub fn plan_candidate(
    generation: u64,
    kind: CandidateKind,
    platform: &str,
    release_data: &str,
) -> (result: Candidate)
    ensures
        result.version@ == crate::version::version_text(
            crate::soak::state::CAMPAIGN_VERSION_MAJOR,
            generation,
            0,
        ),
        result.target@ == app_target(result.version@, platform@),
        result.source@ == source_path(release_data@, result.version@),
        is_entry_point(result.entry_point, kind, generation, result.version@),
        result.description@ == "version = \""@ + result.version@ + "\"\n"@,
        views(result.arguments@) == seq![
            "publish-app"@,
            "--repo"@,
            joined_path(release_data@, "repository"@),
            "--keys"@,
            joined_path(release_data@, "keys"@),
            "--product"@,
            "app"@,
            "--channel"@,
            "stable"@,
            "--version"@,
            result.version@,
            "--bundle"@,
            platform@ + "="@ + result.source@,
        ],
{
    let version = crate::soak::state::campaign_version_text(generation);
    let target = write_app_target(version.as_str(), platform);
    let source = join_path(join_path(release_data, "soak-fixtures").as_str(), version.as_str());
    let repository = join_path(release_data, "repository");
    let keys = join_path(release_data, "keys");
    let mut bundle = String::from_str(platform);
    bundle.append("=");
    bundle.append(source.as_str());
    let arguments = listed(
        vec![
            "publish-app",
            "--repo",
            repository.as_str(),
            "--keys",
            keys.as_str(),
            "--product",
            "app",
            "--channel",
            "stable",
            "--version",
            version.as_str(),
            "--bundle",
            bundle.as_str(),
        ],
    );
    let entry_point = make_entry_point(kind, generation, version.as_str());
    let description = release_toml(version.as_str());
    Candidate { version, target, source, entry_point, description, arguments }
}

/// The message about a repository that is not there yet.
pub fn not_ready_message(path: &str) -> (result: String)
    ensures
        result@ == "release repository is not ready at "@ + path@,
{
    let mut message = String::from_str("release repository is not ready at ");
    message.append(path);
    message
}

/// The message about a repository without a usable baseline.
pub fn no_baseline_message(error: &str) -> (result: String)
    ensures
        result@ == "release catalog has no usable baseline: "@ + error@,
{
    let mut message = String::from_str("release catalog has no usable baseline: ");
    message.append(error);
    message
}

/// The message about a publisher that failed.
pub fn publisher_failure(arguments: &Vec<String>, stderr: &str) -> (result: String)
    ensures
        result@ == "server "@ + (if arguments@.len() == 0 {
            "command"@
        } else {
            arguments@[0]@
        }) + " failed: "@ + first_chars(stderr@, 4096),
{
    let mut message = String::from_str("server ");
    if arguments.len() == 0 {
        message.append("command");
    } else {
        message.append(arguments[0].as_str());
    }
    message.append(" failed: ");
    message.append(take_chars(stderr, 4096).as_str());
    message
}

// ----- signing keys -----

/// A key of the signing secret: the name of its role, and the identity that its bytes have, or why
/// they have none.
pub struct KeyEntry {
    pub name: String,
    pub identity: Result<String, String>,
}

/// The names of some keys.
pub open spec fn key_names(keys: Seq<KeyEntry>) -> Seq<Seq<char>> {
    Seq::new(keys.len(), |i: int| keys[i].name@)
}

/// Whether two lists hold the same texts.
pub open spec fn same_texts(left: Seq<Seq<char>>, right: Seq<Seq<char>>) -> bool {
    &&& forall|i: int| 0 <= i < left.len() ==> right.contains(#[trigger] left[i])
    &&& forall|i: int| 0 <= i < right.len() ==> left.contains(#[trigger] right[i])
}

fn all_within(left: &Vec<String>, right: &Vec<String>) -> (result: bool)
    ensures
        result == (forall|i: int|
            0 <= i < views(left@).len() ==> views(right@).contains(#[trigger] views(left@)[i])),
{
    let mut index: usize = 0;
    while index < left.len()
        invariant
            index <= left.len(),
            forall|i: int| 0 <= i < index ==> views(right@).contains(#[trigger] views(left@)[i]),
        decreases left.len() - index,
    {
        if !holds(right, left[index].as_str()) {
            assert(!views(right@).contains(views(left@)[index as int]));
            return false;
        }
        assert(views(left@)[index as int] == left@[index as int]@);
        index = index + 1;
    }
    true
}

/// Texts as `Debug` writes a set of them.
pub open spec fn quoted_set(items: Seq<Seq<char>>) -> Seq<char> {
    "{"@ + joined(Seq::new(items.len(), |i: int| quoted_text(items[i])), ", "@) + "}"@
}

fn quote_set(items: &Vec<String>) -> (result: String)
    ensures
        result@ == quoted_set(views(items@)),
{
    let ghost all = Seq::new(views(items@).len(), |i: int| quoted_text(views(items@)[i]));
    let mut parts: Vec<String> = Vec::new();
    let mut index: usize = 0;
    assert(views(parts@) =~= all.take(0));
    while index < items.len()
        invariant
            index <= items.len(),
            all == Seq::new(views(items@).len(), |i: int| quoted_text(views(items@)[i])),
            views(parts@) == all.take(index as int),
        decreases items.len() - index,
    {
        let ghost before = parts@;
        let part = quoted(items[index].as_str());
        parts.push(part);
        assert(views(parts@) =~= views(before).push(part@));
        assert(all.take(index + 1) =~= all.take(index as int).push(all[index as int]));
        index = index + 1;
    }
    assert(all.take(items.len() as int) =~= all);
    let mut result = String::from_str("{");
    result.append(join(&parts, ", ").as_str());
    result.append("}");
    result
}

/// The first key without an identity, if there is one.
pub open spec fn first_invalid(keys: Seq<KeyEntry>, count: int) -> Option<int>
    decreases count,
{
    if count <= 0 {
        None
    } else {
        match first_invalid(keys, count - 1) {
            Some(index) => Some(index),
            None => if keys[count - 1].identity is Err {
                Some(count - 1)
            } else {
                None
            },
        }
    }
}

proof fn lemma_first_invalid(keys: Seq<KeyEntry>, count: int)
    requires
        0 <= count <= keys.len(),
    ensures
        match first_invalid(keys, count) {
            Some(index) => 0 <= index < count && keys[index].identity is Err,
            None => forall|i: int| 0 <= i < count ==> (#[trigger] keys[i]).identity is Ok,
        },
    decreases count,
{
    if count > 0 {
        lemma_first_invalid(keys, count - 1);
    }
}

proof fn lemma_first_invalid_stays(keys: Seq<KeyEntry>, count: int, total: int)
    requires
        0 <= count <= total,
        first_invalid(keys, count) is Some,
    ensures
        first_invalid(keys, total) == first_invalid(keys, count),
    decreases total - count,
{
    if count < total {
        lemma_first_invalid_stays(keys, count, total - 1);
    }
}

/// Whether no two keys have the same identity.
pub open spec fn identities_differ(keys: Seq<KeyEntry>) -> bool {
    forall|i: int, j: int|
        0 <= i < j < keys.len() ==> (#[trigger] keys[i]).identity->Ok_0@ != (
        #[trigger] keys[j]).identity->Ok_0@
}

/// Why keys are not those of a signing secret, if they are not: their roles must be exactly the
/// expected ones, each key must have an identity, and no key may serve two roles.
pub open spec fn key_error(keys: Seq<KeyEntry>, expected: Seq<Seq<char>>) -> Option<Seq<char>> {
    if !same_texts(key_names(keys), expected) {
        Some("the TUF signing Secret has non-canonical keys: "@ + quoted_set(key_names(keys)))
    } else {
        match first_invalid(keys, keys.len() as int) {
            Some(index) => Some(
                "the TUF signing Secret's "@ + keys[index].name@ + " is invalid: "@
                    + keys[index].identity->Err_0@,
            ),
            None => if !identities_differ(keys) {
                Some("the TUF signing Secret reuses one private key for multiple roles"@)
            } else {
                None
            },
        }
    }
}

fn names_of(keys: &Vec<KeyEntry>) -> (result: Vec<String>)
    ensures
        views(result@) == key_names(keys@),
{
    let mut result: Vec<String> = Vec::new();
    let mut index: usize = 0;
    while index < keys.len()
        invariant
            index <= keys.len(),
            result@.len() == index,
            forall|i: int| 0 <= i < index ==> (#[trigger] result@[i])@ == keys@[i].name@,
        decreases keys.len() - index,
    {
        result.push(keys[index].name.clone());
        index = index + 1;
    }
    assert(views(result@) =~= key_names(keys@));
    result
}

fn find_invalid(keys: &Vec<KeyEntry>) -> (result: Option<String>)
    ensures
        match (result, first_invalid(keys@, keys@.len() as int)) {
            (Some(message), Some(index)) => message@ == "the TUF signing Secret's "@
                + keys@[index].name@ + " is invalid: "@ + keys@[index].identity->Err_0@,
            (None, None) => true,
            _ => false,
        },
{
    let mut index: usize = 0;
    while index < keys.len()
        invariant
            index <= keys.len(),
            first_invalid(keys@, index as int) is None,
        decreases keys.len() - index,
    {
        match &keys[index].identity {
            Ok(_) => {},
            Err(error) => {
                let mut message = String::from_str("the TUF signing Secret's ");
                message.append(keys[index].name.as_str());
                message.append(" is invalid: ");
                message.append(error.as_str());
                proof {
                    lemma_first_invalid_stays(keys@, index + 1, keys@.len() as int);
                }
                return Some(message);
            },
        }
        index = index + 1;
    }
    None
}

fn have_distinct_identities(keys: &Vec<KeyEntry>) -> (result: bool)
    requires
        first_invalid(keys@, keys@.len() as int) is None,
    ensures
        result == identities_differ(keys@),
{
    proof {
        lemma_first_invalid(keys@, keys@.len() as int);
    }
    let mut first: usize = 0;
    while first < keys.len()
        invariant
            first <= keys.len(),
            forall|i: int| 0 <= i < keys@.len() ==> (#[trigger] keys@[i]).identity is Ok,
            forall|i: int, j: int|
                0 <= i < first && i < j < keys@.len() ==> (#[trigger] keys@[i]).identity->Ok_0@ != (
                #[trigger] keys@[j]).identity->Ok_0@,
        decreases keys.len() - first,
    {
        let mut second: usize = first + 1;
        while second < keys.len()
            invariant
                first < second <= keys.len(),
                forall|i: int| 0 <= i < keys@.len() ==> (#[trigger] keys@[i]).identity is Ok,
                forall|j: int|
                    first < j < second ==> keys@[first as int].identity->Ok_0@ != (
                    #[trigger] keys@[j]).identity->Ok_0@,
            decreases keys.len() - second,
        {
            match (&keys[first].identity, &keys[second].identity) {
                (Ok(left), Ok(right)) => {
                    if same(left.as_str(), right.as_str()) {
                        assert(keys@[first as int].identity->Ok_0@
                            == keys@[second as int].identity->Ok_0@);
                        return false;
                    }
                },
                _ => {},
            }
            second = second + 1;
        }
        first = first + 1;
    }
    true
}

/// Whether keys are those of a signing secret.
pub fn validate_signing_key_data(keys: &Vec<KeyEntry>, expected: &Vec<String>) -> (result: Result<
    (),
    String,
>)
    ensures
        match result {
            Ok(_) => key_error(keys@, views(expected@)) is None,
            Err(message) => key_error(keys@, views(expected@)) == Some(message@),
        },
{
    let names = names_of(keys);
    if !all_within(&names, expected) || !all_within(expected, &names) {
        let mut message = String::from_str("the TUF signing Secret has non-canonical keys: ");
        message.append(quote_set(&names).as_str());
        return Err(message);
    }
    match find_invalid(keys) {
        Some(message) => return Err(message),
        None => {},
    }
    if !have_distinct_identities(keys) {
        return Err(
            String::from_str("the TUF signing Secret reuses one private key for multiple roles"),
        );
    }
    Ok(())
}

/// Why a secret is not a signing secret, if it is not.
pub open spec fn secret_error(
    kind: Option<Seq<char>>,
    keys: Option<Vec<KeyEntry>>,
    expected: Seq<Seq<char>>,
) -> Option<Seq<char>> {
    if kind != Some("Opaque"@) {
        Some("the TUF signing Secret must have type Opaque"@)
    } else {
        match keys {
            None => Some("the TUF signing Secret has no binary data"@),
            Some(found) => key_error(found@, expected),
        }
    }
}

/// Whether a secret of this type and with these keys is a signing secret.
pub fn validate_signing_secret(
    kind: &Option<String>,
    keys: &Option<Vec<KeyEntry>>,
    expected: &Vec<String>,
) -> (result: Result<(), String>)
    ensures
        match result {
            Ok(_) => secret_error(view_of(*kind), *keys, views(expected@)) is None,
            Err(message) => secret_error(view_of(*kind), *keys, views(expected@)) == Some(message@),
        },
{
    let opaque = match kind {
        Some(found) => same(found.as_str(), "Opaque"),
        None => false,
    };
    if !opaque {
        return Err(String::from_str("the TUF signing Secret must have type Opaque"));
    }
    match keys {
        None => Err(String::from_str("the TUF signing Secret has no binary data")),
        Some(found) => validate_signing_key_data(found, expected),
    }
}

/// The arguments that make the publisher write new signing keys.
pub fn key_arguments(repository: &str, keys: &str) -> (result: Vec<String>)
    ensures
        views(result@) == seq!["init"@, "--repo"@, repository@, "--keys"@, keys@],
{
    listed(vec!["init", "--repo", repository, "--keys", keys])
}

/// Keys are those of a signing secret exactly when every one of them has an expected role, every
/// expected role has one, every one has an identity, and no two have the same.
pub proof fn signing_keys_are_one_to_a_role(keys: Seq<KeyEntry>, expected: Seq<Seq<char>>)
    ensures
        key_error(keys, expected) is None <==> {
            &&& forall|i: int|
                0 <= i < keys.len() ==> expected.contains((#[trigger] keys[i]).name@)
            &&& forall|role: Seq<char>| #[trigger]
                expected.contains(role) ==> exists|i: int|
                    0 <= i < keys.len() && (#[trigger] keys[i]).name@ == role
            &&& forall|i: int| 0 <= i < keys.len() ==> (#[trigger] keys[i]).identity is Ok
            &&& forall|i: int, j: int|
                0 <= i < j < keys.len() ==> (#[trigger] keys[i]).identity->Ok_0@ != (
                #[trigger] keys[j]).identity->Ok_0@
        },
{
    let names = key_names(keys);
    lemma_first_invalid(keys, keys.len() as int);
    if same_texts(names, expected) {
        assert forall|i: int| 0 <= i < keys.len() implies expected.contains(
            (#[trigger] keys[i]).name@,
        ) by {
            assert(expected.contains(names[i]));
        }
        assert forall|role: Seq<char>| #[trigger] expected.contains(role) implies exists|i: int|
            0 <= i < keys.len() && (#[trigger] keys[i]).name@ == role by {
            let at = choose|k: int| 0 <= k < expected.len() && expected[k] == role;
            assert(names.contains(expected[at]));
            let i = choose|i: int| 0 <= i < names.len() && names[i] == role;
            assert(keys[i].name@ == role);
        }
    }
    if (forall|i: int| 0 <= i < keys.len() ==> expected.contains((#[trigger] keys[i]).name@)) && (
    forall|role: Seq<char>| #[trigger]
        expected.contains(role) ==> exists|i: int|
            0 <= i < keys.len() && (#[trigger] keys[i]).name@ == role) {
        assert forall|i: int| 0 <= i < names.len() implies expected.contains(#[trigger] names[i]) by {
            assert(names[i] == keys[i].name@);
        }
        assert forall|k: int| 0 <= k < expected.len() implies names.contains(
            #[trigger] expected[k],
        ) by {
            assert(expected.contains(expected[k]));
            let i = choose|i: int| 0 <= i < keys.len() && (#[trigger] keys[i]).name@ == expected[k];
            assert(names[i] == expected[k]);
        }
    }
}

/// A secret is a signing secret only if it is opaque, holds binary data, and holds the right keys.
pub proof fn signing_secrets_are_opaque(
    kind: Option<Seq<char>>,
    keys: Option<Vec<KeyEntry>>,
    expected: Seq<Seq<char>>,
)
    ensures
        secret_error(kind, keys, expected) is None <==> kind == Some("Opaque"@) && keys is Some
            && key_error(keys->Some_0@, expected) is None,
{
}

/// The two programs take turns from one generation to the next, a valid release ships a copy of one of
/// them, and a corrupt release ships none.
pub proof fn programs_take_turns(
    generation: u64,
    entry: EntryPoint,
    kind: CandidateKind,
    version: Seq<char>,
)
    ensures
        generation % 2 == 0 ==> artifact_path(generation) == "/usr/local/bin/stateful-like"@,
        generation % 2 == 1 ==> artifact_path(generation) == "/usr/local/bin/sampleapp"@,
        is_entry_point(entry, kind, generation, version) ==> (entry is Copied <==> kind
            == CandidateKind::Valid),
        is_entry_point(entry, kind, generation, version) && entry is Copied ==> entry->Copied_0@
            == artifact_path(generation),
{
}

} // verus!
