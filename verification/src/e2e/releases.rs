//! How the end-to-end fleet's releases are published, and what the publisher answers.

use crate::demo::releases::SCRIPT_HEAD;
use crate::e2e::layout::{release_repository_flags, repository_flags_text, BASELINE_VERSION};
use crate::json::{
    member, member_of, parse_json, parsed_json, said, text_in, text_of, Json, JsonView,
};
use crate::lifecycle::{newest_transaction, last_completed};
use crate::text::{decimal, decimal_digits, glue, glued, lines_of, listed, str_views, view_of, views};
use vstd::prelude::*;

verus! {

// ----- scripts -----

/// Milliseconds as seconds, rounded up.
pub open spec fn seconds_up(millis: nat) -> nat {
    (millis + 999) / 1000
}

/// The flags that name the one command of a release, which does whatever its context asks.
pub open spec fn execution_flags(timeout_millis: nat) -> Seq<char> {
    "--entrypoint bin/lifecycle --healthcheck bin/lifecycle --inspect bin/lifecycle --recover bin/lifecycle --replay safe --recovery-replay safe --timeout-seconds "@
        + decimal_digits(seconds_up(timeout_millis))
}

/// The flags that name the one command of a release.
pub fn demo_execution_flags(timeout_millis: u64) -> (result: String)
    ensures
        result@ == execution_flags(timeout_millis as nat),
{
    let mut flags = String::from_str(
        "--entrypoint bin/lifecycle --healthcheck bin/lifecycle --inspect bin/lifecycle --recover bin/lifecycle --replay safe --recovery-replay safe --timeout-seconds ",
    );
    let seconds: u64 = if timeout_millis % 1000 == 0 {
        timeout_millis / 1000
    } else {
        timeout_millis / 1000 + 1
    };
    assert(seconds as nat == seconds_up(timeout_millis as nat));
    flags.append(decimal(seconds).as_str());
    flags
}

/// The script that makes the repository and its keys, where they are not there.
pub fn init_script() -> (result: String)
    ensures
        result@ == glued(
            seq![
                SCRIPT_HEAD@,
                "if [ ! -f /data/release-keys/root.json ]; then mkdir -p /data/release-keys; "@,
                "server init --keys /data/release-keys --repo /data/minio-release-origin "@,
                repository_flags_text(),
                "; fi"@,
            ],
        ),
{
    let repository = release_repository_flags();
    let parts: Vec<&str> = vec![
        SCRIPT_HEAD,
        "if [ ! -f /data/release-keys/root.json ]; then mkdir -p /data/release-keys; ",
        "server init --keys /data/release-keys --repo /data/minio-release-origin ",
        repository.as_str(),
        "; fi",
    ];
    assert(str_views(parts@) =~= seq![
        SCRIPT_HEAD@,
        "if [ ! -f /data/release-keys/root.json ]; then mkdir -p /data/release-keys; "@,
        "server init --keys /data/release-keys --repo /data/minio-release-origin "@,
        repository_flags_text(),
        "; fi"@,
    ]);
    glue(parts)
}

/// The script that publishes the release that the fleet starts on.
pub fn baseline_script(platform: &str, timeout_millis: u64) -> (result: String)
    ensures
        result@ == glued(
            seq![
                SCRIPT_HEAD@,
                "rm -rf /tmp/seed && mkdir -p /tmp/seed/bin /tmp/seed/config; "@,
                "cp /usr/local/bin/sampleapp /tmp/seed/bin/app; cp /usr/local/bin/demo-lifecycle /tmp/seed/bin/lifecycle; "@,
                "printf 'version = \""@,
                BASELINE_VERSION@,
                "\"\\n' >/tmp/seed/config/release.toml; "@,
                "updatectl publish --keys-dir /data/release-keys "@,
                repository_flags_text(),
                " --output json --product app --channel stable --version "@,
                BASELINE_VERSION@,
                " --platform "@,
                platform@,
                " --source /tmp/seed "@,
                execution_flags(timeout_millis as nat),
            ],
        ),
{
    let repository = release_repository_flags();
    let execution = demo_execution_flags(timeout_millis);
    let parts: Vec<&str> = vec![
        SCRIPT_HEAD,
        "rm -rf /tmp/seed && mkdir -p /tmp/seed/bin /tmp/seed/config; ",
        "cp /usr/local/bin/sampleapp /tmp/seed/bin/app; cp /usr/local/bin/demo-lifecycle /tmp/seed/bin/lifecycle; ",
        "printf 'version = \"",
        BASELINE_VERSION,
        "\"\\n' >/tmp/seed/config/release.toml; ",
        "updatectl publish --keys-dir /data/release-keys ",
        repository.as_str(),
        " --output json --product app --channel stable --version ",
        BASELINE_VERSION,
        " --platform ",
        platform,
        " --source /tmp/seed ",
        execution.as_str(),
    ];
    assert(str_views(parts@) =~= seq![
        SCRIPT_HEAD@,
        "rm -rf /tmp/seed && mkdir -p /tmp/seed/bin /tmp/seed/config; "@,
        "cp /usr/local/bin/sampleapp /tmp/seed/bin/app; cp /usr/local/bin/demo-lifecycle /tmp/seed/bin/lifecycle; "@,
        "printf 'version = \""@,
        BASELINE_VERSION@,
        "\"\\n' >/tmp/seed/config/release.toml; "@,
        "updatectl publish --keys-dir /data/release-keys "@,
        repository_flags_text(),
        " --output json --product app --channel stable --version "@,
        BASELINE_VERSION@,
        " --platform "@,
        platform@,
        " --source /tmp/seed "@,
        execution_flags(timeout_millis as nat),
    ]);
    glue(parts)
}

// ----- what the publisher answers -----

/// What the publisher says that it published: the path of the release's target, and its digest.
pub struct Publication {
    pub path: String,
    pub sha256: String,
}

/// The path and the digest that a publisher's answer gives, or why it gives none.
pub open spec fn publication_in(document: Result<JsonView, Seq<char>>) -> Result<
    (Seq<char>, Seq<char>),
    Seq<char>,
> {
    match document {
        Err(message) => Err(message),
        Ok(json) => match (text_in(member_of(json, "target"@)), text_in(member_of(json, "sha256"@))) {
            (None, _) => Err("publication has no target"@),
            (Some(_), None) => Err("publication has no digest"@),
            (Some(path), Some(sha256)) => Ok((path, sha256)),
        },
    }
}

/// What a document of the publisher's gives, or why it gives nothing.
pub fn take_publication(document: Result<Json, String>) -> (result: Result<Publication, String>)
    ensures
        match (
            result,
            publication_in(
                match document {
                    Ok(json) => Ok(said(json)),
                    Err(message) => Err(message@),
                },
            ),
        ) {
            (Ok(found), Ok(expected)) => (found.path@, found.sha256@) == expected,
            (Err(message), Err(expected)) => message@ == expected,
            _ => false,
        },
{
    let json = match document {
        Ok(json) => json,
        Err(message) => return Err(message),
    };
    let path = match text_of(member(Some(&json), "target")) {
        Some(path) => path,
        None => return Err("publication has no target".to_owned()),
    };
    let sha256 = match text_of(member(Some(&json), "sha256")) {
        Some(sha256) => sha256,
        None => return Err("publication has no digest".to_owned()),
    };
    Ok(Publication { path: path.to_owned(), sha256: sha256.to_owned() })
}

/// What the publisher says that it published.
pub fn read_publication(output: &str) -> (result: Result<Publication, String>)
    ensures
        match (result, publication_in(parsed_json(output@))) {
            (Ok(found), Ok(expected)) => (found.path@, found.sha256@) == expected,
            (Err(message), Err(expected)) => message@ == expected,
            _ => false,
        },
{
    take_publication(parse_json(output))
}

/// The release that a publication names, where its path is confined to the repository and its digest
/// is written as digests are.
pub fn published_reference(publication: Publication, confined: bool, canonical: bool) -> (result: Result<
    (String, String),
    String,
>)
    ensures
        match result {
            Ok(found) => confined && canonical && found.0@ == publication.path@ && found.1@
                == publication.sha256@,
            Err(message) => !(confined && canonical) && message@
                == "invalid publication reference"@,
        },
{
    if confined && canonical {
        Ok((publication.path, publication.sha256))
    } else {
        Err("invalid publication reference".to_owned())
    }
}

// ----- transactions -----

/// The newest completed update transaction in a reconciler's audit: one that converged under an
/// attempt of its own.
pub fn latest_completed_transaction(audit: &str) -> (result: Option<String>)
    ensures
        view_of(result) == last_completed(
            lines_of(audit@),
            "converge"@,
            seq!["boot"@, "converge"@, "periodic"@, "fingerprint"@],
        ),
{
    let reserved = listed(vec!["boot", "converge", "periodic", "fingerprint"]);
    assert(views(reserved@) =~= seq!["boot"@, "converge"@, "periodic"@, "fingerprint"@]);
    newest_transaction(audit, "converge", &reserved)
}

/// Milliseconds are rounded up to the next whole second, and whole seconds stay as they are.
pub proof fn seconds_are_rounded_up(millis: nat)
    ensures
        seconds_up(millis) * 1000 >= millis,
        seconds_up(millis) * 1000 < millis + 1000,
        millis % 1000 == 0 ==> seconds_up(millis) * 1000 == millis,
{
}

/// A publication gives a path and a digest exactly where both are texts; what is missing first is what is
/// said to be missing.
pub proof fn publications_give_a_path_and_a_digest(json: JsonView, message: Seq<char>)
    ensures
        ({
            let path = member_of(json, "target"@);
            let digest = member_of(json, "sha256"@);
            let given = publication_in(Ok(json));
            &&& given is Ok <==> path is Text && digest is Text
            &&& given is Ok ==> path == JsonView::Text(given->Ok_0.0) && digest == JsonView::Text(
                given->Ok_0.1,
            )
            &&& !(path is Text) ==> given == Err::<(Seq<char>, Seq<char>), Seq<char>>(
                "publication has no target"@,
            )
            &&& path is Text && !(digest is Text) ==> given == Err::<
                (Seq<char>, Seq<char>),
                Seq<char>,
            >("publication has no digest"@)
        }),
        publication_in(Err(message)) == Err::<(Seq<char>, Seq<char>), Seq<char>>(message),
{
}

} // verus!
