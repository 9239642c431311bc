//! How the demo publishes releases: the scripts that fill its repository, and the calls that roll
//! a group to a release.

use crate::commands::NAMESPACE;
use crate::demo::layout::{release_repository_flags, repository_flags_text};
use crate::soak::config::{join_path, joined_path};
use crate::text::{
    appended, decimal, decimal_digits, eq_ignoring_case, glue, glued, listed, same_but_case,
    str_views, trim, trimmed, view_of, views,
};
use vstd::prelude::*;

verus! {

/// What every script begins with: it stops at the first failure and has the store's credentials.
pub const SCRIPT_HEAD: &'static str = "set -e; export AWS_ACCESS_KEY_ID=minio AWS_SECRET_ACCESS_KEY=minio123; ";

/// The release that the fleet starts on.
pub const BASELINE_VERSION: &'static str = "22.0.0";

/// The group that a release is published through without being rolled to anyone.
pub const SEED_GROUP: &'static str = "release-seed";

/// The cohort that no node is of.
pub const SEED_COHORT: &'static str = "__release-seed-unmatched__";

// ----- filling the repository -----

/// The script that makes the repository and its keys, where they are not there.
pub fn init_script() -> (result: String)
    ensures
        result@ == glued(
            seq![
                SCRIPT_HEAD@,
                "if [ ! -f /data/release-keys/root.json ]; then mkdir -p /data/release-keys; "@,
                "updatectl trust-root --keys-dir /data/release-keys "@,
                repository_flags_text(),
                " --root-out /data/release-keys/root.json; fi"@,
            ],
        ),
{
    let repository = release_repository_flags();
    let parts: Vec<&str> = vec![
        SCRIPT_HEAD,
        "if [ ! -f /data/release-keys/root.json ]; then mkdir -p /data/release-keys; ",
        "updatectl trust-root --keys-dir /data/release-keys ",
        repository.as_str(),
        " --root-out /data/release-keys/root.json; fi",
    ];
    assert(str_views(parts@) =~= seq![
        SCRIPT_HEAD@,
        "if [ ! -f /data/release-keys/root.json ]; then mkdir -p /data/release-keys; "@,
        "updatectl trust-root --keys-dir /data/release-keys "@,
        repository_flags_text(),
        " --root-out /data/release-keys/root.json; fi"@,
    ]);
    glue(parts)
}

/// The script that publishes the release that the fleet starts on.
pub fn baseline_script(platform: &str) -> (result: String)
    ensures
        result@ == glued(
            seq![
                SCRIPT_HEAD@,
                "rm -rf /tmp/seed && mkdir -p /tmp/seed/bin /tmp/seed/config; "@,
                "cp /usr/local/bin/sampleapp /tmp/seed/bin/app; "@,
                "printf 'version = \""@,
                BASELINE_VERSION@,
                "\"\\n' >/tmp/seed/config/release.toml; "@,
                "updatectl deploy --keys-dir /data/release-keys "@,
                repository_flags_text(),
                " --namespace "@,
                NAMESPACE@,
                " --group "@,
                SEED_GROUP@,
                " --product app --channel stable --version "@,
                BASELINE_VERSION@,
                " --entrypoint bin/app --platform "@,
                platform@,
                " --source /tmp/seed"@,
            ],
        ),
{
    let repository = release_repository_flags();
    let parts: Vec<&str> = vec![
        SCRIPT_HEAD,
        "rm -rf /tmp/seed && mkdir -p /tmp/seed/bin /tmp/seed/config; ",
        "cp /usr/local/bin/sampleapp /tmp/seed/bin/app; ",
        "printf 'version = \"",
        BASELINE_VERSION,
        "\"\\n' >/tmp/seed/config/release.toml; ",
        "updatectl deploy --keys-dir /data/release-keys ",
        repository.as_str(),
        " --namespace ",
        NAMESPACE,
        " --group ",
        SEED_GROUP,
        " --product app --channel stable --version ",
        BASELINE_VERSION,
        " --entrypoint bin/app --platform ",
        platform,
        " --source /tmp/seed",
    ];
    assert(str_views(parts@) =~= seq![
        SCRIPT_HEAD@,
        "rm -rf /tmp/seed && mkdir -p /tmp/seed/bin /tmp/seed/config; "@,
        "cp /usr/local/bin/sampleapp /tmp/seed/bin/app; "@,
        "printf 'version = \""@,
        BASELINE_VERSION@,
        "\"\\n' >/tmp/seed/config/release.toml; "@,
        "updatectl deploy --keys-dir /data/release-keys "@,
        repository_flags_text(),
        " --namespace "@,
        NAMESPACE@,
        " --group "@,
        SEED_GROUP@,
        " --product app --channel stable --version "@,
        BASELINE_VERSION@,
        " --entrypoint bin/app --platform "@,
        platform@,
        " --source /tmp/seed"@,
    ]);
    glue(parts)
}

/// The script that publishes the node reconciler of the fleet and prints the digest of its set.
pub fn provider_script(platform: &str, timeout_millis: u64) -> (result: String)
    ensures
        result@ == glued(
            seq![
                SCRIPT_HEAD@,
                "rm -rf /tmp/rube && mkdir -p /tmp/rube/bin; "@,
                "cp /usr/local/bin/demo-lifecycle /tmp/rube/bin/lifecycle; "@,
                "chmod 0755 /tmp/rube/bin/lifecycle; "@,
                "art=$(updatectl publish-provider-artifact --keys-dir /data/release-keys "@,
                repository_flags_text(),
                " --product demo-enterprise-lifecycle --version 1.0.0 --entrypoint bin/lifecycle --source /tmp/rube --platform "@,
                platform@,
                "); set -- $art; "@,
                "reconciler=$(updatectl publish-provider-set --keys-dir /data/release-keys "@,
                repository_flags_text(),
                " --id rube-goldberg --provider-path \"$1\" --provider-sha256 \"$2\" --provider-timeout-ms "@,
                decimal_digits(timeout_millis as nat),
                "); echo \"$reconciler\" | awk '{print $NF}'"@,
            ],
        ),
{
    let repository = release_repository_flags();
    let timeout = decimal(timeout_millis);
    let parts: Vec<&str> = vec![
        SCRIPT_HEAD,
        "rm -rf /tmp/rube && mkdir -p /tmp/rube/bin; ",
        "cp /usr/local/bin/demo-lifecycle /tmp/rube/bin/lifecycle; ",
        "chmod 0755 /tmp/rube/bin/lifecycle; ",
        "art=$(updatectl publish-provider-artifact --keys-dir /data/release-keys ",
        repository.as_str(),
        " --product demo-enterprise-lifecycle --version 1.0.0 --entrypoint bin/lifecycle --source /tmp/rube --platform ",
        platform,
        "); set -- $art; ",
        "reconciler=$(updatectl publish-provider-set --keys-dir /data/release-keys ",
        repository.as_str(),
        " --id rube-goldberg --provider-path \"$1\" --provider-sha256 \"$2\" --provider-timeout-ms ",
        timeout.as_str(),
        "); echo \"$reconciler\" | awk '{print $NF}'",
    ];
    assert(str_views(parts@) =~= seq![
        SCRIPT_HEAD@,
        "rm -rf /tmp/rube && mkdir -p /tmp/rube/bin; "@,
        "cp /usr/local/bin/demo-lifecycle /tmp/rube/bin/lifecycle; "@,
        "chmod 0755 /tmp/rube/bin/lifecycle; "@,
        "art=$(updatectl publish-provider-artifact --keys-dir /data/release-keys "@,
        repository_flags_text(),
        " --product demo-enterprise-lifecycle --version 1.0.0 --entrypoint bin/lifecycle --source /tmp/rube --platform "@,
        platform@,
        "); set -- $art; "@,
        "reconciler=$(updatectl publish-provider-set --keys-dir /data/release-keys "@,
        repository_flags_text(),
        " --id rube-goldberg --provider-path \"$1\" --provider-sha256 \"$2\" --provider-timeout-ms "@,
        decimal_digits(timeout_millis as nat),
        "); echo \"$reconciler\" | awk '{print $NF}'"@,
    ]);
    glue(parts)
}

/// What the filled repository is known by.
pub struct ReleaseBootstrap {
    pub release_root: String,
    pub baseline_path: String,
    pub baseline_sha: String,
    pub provider_sha: String,
}

/// What the filled repository is known by, from its root, the path and digest of the release that
/// the fleet starts on, and what publishing the node reconciler printed.
pub fn bootstrap_minio_release_repo(
    release_root: String,
    baseline_path: &str,
    baseline_sha: &str,
    provider: &str,
) -> (result: Result<ReleaseBootstrap, String>)
    ensures
        match result {
            Ok(bootstrap) => {
                &&& trimmed(provider@).len() > 0
                &&& bootstrap.release_root == release_root
                &&& bootstrap.baseline_path@ == trimmed(baseline_path@)
                &&& bootstrap.baseline_sha@ == trimmed(baseline_sha@)
                &&& bootstrap.provider_sha@ == trimmed(provider@)
            },
            Err(message) => trimmed(provider@).len() == 0 && message@
                == "publish-provider-set printed no set sha"@,
        },
{
    let provider_sha = trim(provider);
    if provider_sha.unicode_len() == 0 {
        return Err("publish-provider-set printed no set sha".to_owned());
    }
    Ok(
        ReleaseBootstrap {
            release_root,
            baseline_path: trim(baseline_path).to_owned(),
            baseline_sha: trim(baseline_sha).to_owned(),
            provider_sha: provider_sha.to_owned(),
        },
    )
}

// ----- rolling a group -----

/// The directory that a release is built in.
pub fn bundle_path(data: &str, version: &str) -> (result: String)
    ensures
        result@ == joined_path(joined_path(data@, "demo-loop-fixtures"@), version@),
{
    join_path(join_path(data, "demo-loop-fixtures").as_str(), version)
}

/// What a release's configuration says of it.
pub fn release_toml(version: &str) -> (result: String)
    ensures
        result@ == "version = \""@ + version@ + "\"\n"@,
{
    let mut text = String::from_str("version = \"");
    text.append(version);
    text.append("\"\n");
    text
}

/// The entry point of a release that no node can start.
pub const CORRUPT_ENTRYPOINT: &'static str = "intentionally corrupt entrypoint\n";

/// The identity under which a group is rolled to a version.
pub open spec fn deployment_identity(group: Seq<char>, version: Seq<char>) -> Seq<char> {
    group + "@"@ + version
}

/// The identity under which a group is rolled to a version.
pub fn write_identity(group: &str, version: &str) -> (result: String)
    ensures
        result@ == deployment_identity(group@, version@),
{
    let mut name = String::from_str(group);
    name.append("@");
    name.append(version);
    name
}

/// A setting, or what stands in for one that is not set.
pub open spec fn setting(value: Option<Seq<char>>, default: Seq<char>) -> Seq<char> {
    match value {
        Some(value) => value,
        None => default,
    }
}

/// A setting, or what stands in for one that is not set.
pub fn setting_or(value: Option<String>, default: &str) -> (result: String)
    ensures
        result@ == setting(view_of(value), default@),
{
    match value {
        Some(value) => value,
        None => default.to_owned(),
    }
}

/// Whether a switch is on: it says so in one of four ways, whatever the case of their letters.
pub open spec fn is_switched_on(value: Seq<char>) -> bool {
    ||| same_but_case(value, "1"@)
    ||| same_but_case(value, "true"@)
    ||| same_but_case(value, "yes"@)
    ||| same_but_case(value, "on"@)
}

/// Whether a switch is on; one that is not set is not.
pub fn switched_on(value: &Option<String>) -> (result: bool)
    ensures
        result == (view_of(*value) is Some && is_switched_on(view_of(*value)->Some_0)),
{
    match value {
        Some(value) => eq_ignoring_case(value.as_str(), "1") || eq_ignoring_case(
            value.as_str(),
            "true",
        ) || eq_ignoring_case(value.as_str(), "yes") || eq_ignoring_case(value.as_str(), "on"),
        None => false,
    }
}

/// Where releases are published to, and with what.
pub struct PublishTarget {
    pub keys_dir: String,
    pub bucket: String,
    pub prefix: String,
    pub endpoint: String,
    pub region: String,
    pub namespace: String,
    pub platform: String,
    /// The path and digest of the reconciler that a release is signed with.
    pub provider: Option<(String, String)>,
}

/// The arguments that publish a release and roll a group to it.
pub open spec fn deploy_text(
    target: PublishTarget,
    group: Seq<char>,
    version: Seq<char>,
    source: Seq<char>,
) -> Seq<Seq<char>> {
    let base = seq![
        "deploy"@,
        "--keys-dir"@,
        target.keys_dir@,
        "--bucket"@,
        target.bucket@,
        "--prefix"@,
        target.prefix@,
        "--endpoint"@,
        target.endpoint@,
        "--region"@,
        target.region@,
        "--namespace"@,
        target.namespace@,
        "--group"@,
        group,
        "--product"@,
        "app"@,
        "--channel"@,
        "stable"@,
        "--version"@,
        version,
        "--entrypoint"@,
        "bin/app"@,
        "--platform"@,
        target.platform@,
        "--source"@,
        source,
    ];
    match target.provider {
        Some((path, sha)) => base + seq![
            "--provider-set-path"@,
            path@,
            "--provider-set-sha256"@,
            sha@,
        ],
        None => base,
    }
}

/// The arguments that publish a release and roll a group to it.
pub fn deploy_group(target: &PublishTarget, group: &str, version: &str, source: &str) -> (result:
    Vec<String>)
    ensures
        views(result@) == deploy_text(*target, group@, version@, source@),
{
    let base = listed(
        vec![
            "deploy",
            "--keys-dir",
            target.keys_dir.as_str(),
            "--bucket",
            target.bucket.as_str(),
            "--prefix",
            target.prefix.as_str(),
            "--endpoint",
            target.endpoint.as_str(),
            "--region",
            target.region.as_str(),
            "--namespace",
            target.namespace.as_str(),
            "--group",
            group,
            "--product",
            "app",
            "--channel",
            "stable",
            "--version",
            version,
            "--entrypoint",
            "bin/app",
            "--platform",
            target.platform.as_str(),
            "--source",
            source,
        ],
    );
    match &target.provider {
        Some((path, sha)) => appended(
            base,
            listed(
                vec!["--provider-set-path", path.as_str(), "--provider-set-sha256", sha.as_str()],
            ),
        ),
        None => base,
    }
}

/// The message about a release that could not be rolled.
pub fn deploy_failure(group: &str, version: &str) -> (result: String)
    ensures
        result@ == "updatectl deploy failed for "@ + group@ + " "@ + version@,
{
    let mut message = String::from_str("updatectl deploy failed for ");
    message.append(group);
    message.append(" ");
    message.append(version);
    message
}

/// Where a Magnolia release lies in the repository.
pub fn magnolia_path(version: &str, platform: &str) -> (result: String)
    ensures
        result@ == "products/magnolia/stable/"@ + version@ + "/"@ + platform@ + "/app"@,
{
    let mut path = String::from_str("products/magnolia/stable/");
    path.append(version);
    path.append("/");
    path.append(platform);
    path.append("/app");
    path
}

/// Every flag of a deploy is followed by what was given for it; the reconciler is named exactly where
/// there is one.
pub proof fn deploys_say_what_was_given(
    target: PublishTarget,
    group: Seq<char>,
    version: Seq<char>,
    source: Seq<char>,
)
    ensures
        ({
            let said = deploy_text(target, group, version, source);
            &&& said[0] == "deploy"@
            &&& is_given(said, "--keys-dir"@, target.keys_dir@)
            &&& is_given(said, "--bucket"@, target.bucket@)
            &&& is_given(said, "--prefix"@, target.prefix@)
            &&& is_given(said, "--endpoint"@, target.endpoint@)
            &&& is_given(said, "--region"@, target.region@)
            &&& is_given(said, "--namespace"@, target.namespace@)
            &&& is_given(said, "--group"@, group)
            &&& is_given(said, "--version"@, version)
            &&& is_given(said, "--platform"@, target.platform@)
            &&& is_given(said, "--source"@, source)
            &&& target.provider is Some ==> said.len() == 31 && is_given(
                said,
                "--provider-set-path"@,
                target.provider->Some_0.0@,
            ) && is_given(said, "--provider-set-sha256"@, target.provider->Some_0.1@)
            &&& target.provider is None ==> said.len() == 27
        }),
{
    let said = deploy_text(target, group, version, source);
    assert(said[1] == "--keys-dir"@ && said[2] == target.keys_dir@);
    assert(said[3] == "--bucket"@ && said[4] == target.bucket@);
    assert(said[5] == "--prefix"@ && said[6] == target.prefix@);
    assert(said[7] == "--endpoint"@ && said[8] == target.endpoint@);
    assert(said[9] == "--region"@ && said[10] == target.region@);
    assert(said[11] == "--namespace"@ && said[12] == target.namespace@);
    assert(said[13] == "--group"@ && said[14] == group);
    assert(said[19] == "--version"@ && said[20] == version);
    assert(said[23] == "--platform"@ && said[24] == target.platform@);
    assert(said[25] == "--source"@ && said[26] == source);
    if target.provider is Some {
        assert(said[27] == "--provider-set-path"@ && said[28] == target.provider->Some_0.0@);
        assert(said[29] == "--provider-set-sha256"@ && said[30] == target.provider->Some_0.1@);
    }
}

/// Whether a flag is followed by a value.
pub open spec fn is_given(arguments: Seq<Seq<char>>, flag: Seq<char>, value: Seq<char>) -> bool {
    exists|i: int|
        0 <= i < arguments.len() - 1 && #[trigger] arguments[i] == flag && arguments[i + 1] == value
}

/// A setting stands as it is, even where it is empty; only one that is missing is stood in for. A switch
/// is on exactly where it says one of four words, and one that says nothing is off.
pub proof fn settings_stand_as_they_are(value: Seq<char>, default: Seq<char>)
    ensures
        setting(Some(value), default) == value,
        setting(None, default) == default,
        is_switched_on(value) <==> same_but_case(value, "1"@) || same_but_case(value, "true"@)
            || same_but_case(value, "yes"@) || same_but_case(value, "on"@),
        value.len() == 0 ==> !is_switched_on(value),
        is_switched_on("1"@) && is_switched_on("true"@) && is_switched_on("yes"@)
            && is_switched_on("on"@),
{
    reveal_strlit("1");
    reveal_strlit("true");
    reveal_strlit("yes");
    reveal_strlit("on");
    assert("1"@.len() == 1 && "true"@.len() == 4 && "yes"@.len() == 3 && "on"@.len() == 2);
}

/// Two groups, or two versions of one group, are rolled under different identities.
pub proof fn identities_tell_versions_apart(group: Seq<char>, version: Seq<char>, other: Seq<char>)
    ensures
        deployment_identity(group, version) == deployment_identity(group, other) <==> version
            == other,
        deployment_identity(group, version).take(group.len() as int) == group,
{
    let first = deployment_identity(group, version);
    let second = deployment_identity(group, other);
    reveal_strlit("@");
    assert(first.skip(group.len() as int + 1) =~= version);
    assert(second.skip(group.len() as int + 1) =~= other);
    assert(first.take(group.len() as int) =~= group);
}

} // verus!
