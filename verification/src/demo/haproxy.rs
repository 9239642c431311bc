//! The demo's load balancers: their bundles, and the verdict on their upgrade.

use crate::commands::NAMESPACE;
use crate::demo::layout::{
    external_ordinal, release_repository_flags, repository_flags_text, DEMO_EXTERNAL_COUNT,
    DEMO_HAPROXY_ADMIN_PORT, DEMO_HAPROXY_BACKEND, DEMO_NODE_COUNT,
};
use crate::demo::releases::SCRIPT_HEAD;
use crate::enrollment::{member_text, write_member};
use crate::haproxy::{
    backend_line, config_middle, config_report, config_start, config_text, server_line,
    server_lines, server_on, server_view, servers_are_declared_line_by_line, servers_from,
    versions_differ_only_in_what_they_report, BackendServer,
};
use crate::text::{
    after_prefix, decimal, decimal_digits, first_word, first_word_of, glue, glued, has_suffix, join,
    joined, lines, lines_of, str_views, strip_prefix, trim, trimmed, views,
};
use vstd::prelude::*;

verus! {

/// Where the reconciler of the load balancers lies in the repository.
pub const HAPROXY_PROVIDER_PATH: &'static str = "provider-sets/haproxy-lifecycle.json";

/// The cohort that no load balancer is of.
pub const HAPROXY_SEED_COHORT: &'static str = "__haproxy-seed-unmatched__";

/// The fewest requests that a verdict rests on: with fewer, one failure would break the target.
pub const MIN_SAMPLES: u64 = 200;

/// The servers behind the load balancers: the agents outside the sets.
pub fn backend_servers() -> (result: Vec<BackendServer>)
    ensures
        result@.len() == DEMO_EXTERNAL_COUNT,
        forall|i: int|
            0 <= i < result@.len() ==> server_view(#[trigger] result@[i]) == server_on(
                (DEMO_NODE_COUNT + i) as nat,
            ),
{
    servers_from(external_ordinal(0), DEMO_EXTERNAL_COUNT)
}

/// The configuration of a load balancer of one version.
pub fn haproxy_cfg(version: &str, servers: &Vec<BackendServer>) -> (result: String)
    ensures
        result@ == config_text(
            version@,
            servers@,
            DEMO_HAPROXY_ADMIN_PORT as nat,
            DEMO_HAPROXY_BACKEND@,
        ),
{
    crate::haproxy::haproxy_cfg(version, servers, DEMO_HAPROXY_ADMIN_PORT, DEMO_HAPROXY_BACKEND)
}

/// A configuration is that of no servers, which ends with the line that opens the fleet's backend, and
/// one line for each server, in order; and of two versions, it differs in what it reports only.
pub proof fn configurations_are_alike(
    version: Seq<char>,
    other: Seq<char>,
    servers: Seq<BackendServer>,
)
    ensures
        ({
            let port = DEMO_HAPROXY_ADMIN_PORT as nat;
            let none = config_text(version, Seq::empty(), port, DEMO_HAPROXY_BACKEND@);
            let before = config_start(port);
            let after = config_middle(DEMO_HAPROXY_BACKEND@) + server_lines(servers);
            &&& has_suffix(none, "backend fleet\n"@)
            &&& config_text(version, servers, port, DEMO_HAPROXY_BACKEND@) == none + glued(
                Seq::new(servers.len(), |i: int| server_line(servers[i])),
            )
            &&& config_text(version, servers, port, DEMO_HAPROXY_BACKEND@) == before + config_report(
                version,
            ) + after
            &&& config_text(other, servers, port, DEMO_HAPROXY_BACKEND@) == before + config_report(other)
                + after
        }),
{
    reveal_strlit("backend fleet\n");
    reveal_strlit("backend ");
    reveal_strlit("fleet");
    reveal_strlit("\n");
    assert("backend fleet\n"@ =~= backend_line(DEMO_HAPROXY_BACKEND@));
    servers_are_declared_line_by_line(version, servers, DEMO_HAPROXY_ADMIN_PORT as nat, DEMO_HAPROXY_BACKEND@);
    versions_differ_only_in_what_they_report(
        version,
        other,
        servers,
        DEMO_HAPROXY_ADMIN_PORT as nat,
        DEMO_HAPROXY_BACKEND@,
    );
}

/// The script that publishes the reconciler of the load balancers and prints the digest of its set.
pub fn provider_script(platform: &str) -> (result: String)
    ensures
        result@ == glued(
            seq![
                SCRIPT_HEAD@,
                "rm -rf /tmp/hap-provider && mkdir -p /tmp/hap-provider/bin; "@,
                "cp /usr/local/share/haproxy/lifecycle /tmp/hap-provider/bin/lifecycle; "@,
                "cp /usr/local/share/haproxy/lib.sh /tmp/hap-provider/bin/lib.sh; "@,
                "chmod 0755 /tmp/hap-provider/bin/lifecycle; "@,
                "art=$(updatectl publish-provider-artifact --keys-dir /data/release-keys "@,
                repository_flags_text(),
                " --product haproxy-lifecycle --version 1.0.0 --entrypoint bin/lifecycle --source /tmp/hap-provider --platform "@,
                platform@,
                "); set -- $art; "@,
                "set_out=$(updatectl publish-provider-set --keys-dir /data/release-keys "@,
                repository_flags_text(),
                " --id haproxy-lifecycle --provider-path \"$1\" --provider-sha256 \"$2\" --provider-timeout-ms 15000); "@,
                "printf 'set %s\\n' \"$(echo $set_out | awk '{print $NF}')\""@,
            ],
        ),
{
    let repository = release_repository_flags();
    let parts: Vec<&str> = vec![
        SCRIPT_HEAD,
        "rm -rf /tmp/hap-provider && mkdir -p /tmp/hap-provider/bin; ",
        "cp /usr/local/share/haproxy/lifecycle /tmp/hap-provider/bin/lifecycle; ",
        "cp /usr/local/share/haproxy/lib.sh /tmp/hap-provider/bin/lib.sh; ",
        "chmod 0755 /tmp/hap-provider/bin/lifecycle; ",
        "art=$(updatectl publish-provider-artifact --keys-dir /data/release-keys ",
        repository.as_str(),
        " --product haproxy-lifecycle --version 1.0.0 --entrypoint bin/lifecycle --source /tmp/hap-provider --platform ",
        platform,
        "); set -- $art; ",
        "set_out=$(updatectl publish-provider-set --keys-dir /data/release-keys ",
        repository.as_str(),
        " --id haproxy-lifecycle --provider-path \"$1\" --provider-sha256 \"$2\" --provider-timeout-ms 15000); ",
        "printf 'set %s\\n' \"$(echo $set_out | awk '{print $NF}')\"",
    ];
    assert(str_views(parts@) =~= seq![
        SCRIPT_HEAD@,
        "rm -rf /tmp/hap-provider && mkdir -p /tmp/hap-provider/bin; "@,
        "cp /usr/local/share/haproxy/lifecycle /tmp/hap-provider/bin/lifecycle; "@,
        "cp /usr/local/share/haproxy/lib.sh /tmp/hap-provider/bin/lib.sh; "@,
        "chmod 0755 /tmp/hap-provider/bin/lifecycle; "@,
        "art=$(updatectl publish-provider-artifact --keys-dir /data/release-keys "@,
        repository_flags_text(),
        " --product haproxy-lifecycle --version 1.0.0 --entrypoint bin/lifecycle --source /tmp/hap-provider --platform "@,
        platform@,
        "); set -- $art; "@,
        "set_out=$(updatectl publish-provider-set --keys-dir /data/release-keys "@,
        repository_flags_text(),
        " --id haproxy-lifecycle --provider-path \"$1\" --provider-sha256 \"$2\" --provider-timeout-ms 15000); "@,
        "printf 'set %s\\n' \"$(echo $set_out | awk '{print $NF}')\""@,
    ]);
    glue(parts)
}

/// The first word behind `set ` of the first of some lines that has one.
pub open spec fn set_digest(rows: Seq<Seq<char>>) -> Option<Seq<char>>
    decreases rows.len(),
{
    if rows.len() == 0 {
        None
    } else {
        match after_prefix(rows[0], "set "@) {
            Some(rest) => match first_word_of(rest) {
                Some(word) => Some(word),
                None => set_digest(rows.skip(1)),
            },
            None => set_digest(rows.skip(1)),
        }
    }
}

/// The digest of the reconciler's set that publishing it printed.
pub fn provider_digest(output: &str) -> (result: Result<String, String>)
    ensures
        match result {
            Ok(digest) => set_digest(lines_of(output@)) == Some(digest@),
            Err(message) => set_digest(lines_of(output@)) is None && message@
                == "publish-provider-set printed no haproxy provider set sha"@,
        },
{
    let rows = lines(output);
    let ghost all = views(rows@);
    let mut index: usize = 0;
    assert(all.skip(0) =~= all);
    while index < rows.len()
        invariant
            index <= rows.len(),
            all == views(rows@),
            all == lines_of(output@),
            set_digest(all) == set_digest(all.skip(index as int)),
        decreases rows.len() - index,
    {
        assert(all.skip(index as int)[0] == rows@[index as int]@);
        assert(all.skip(index as int).skip(1) =~= all.skip(index + 1));
        match strip_prefix(rows[index].as_str(), "set ") {
            Some(rest) => {
                match first_word(rest.as_str()) {
                    Some(word) => {
                        return Ok(word);
                    },
                    None => {},
                }
            },
            None => {},
        }
        index = index + 1;
    }
    Err("publish-provider-set printed no haproxy provider set sha".to_owned())
}

/// The group that a version is published through without being rolled to anyone.
pub fn seed_group(version: &str) -> (result: String)
    ensures
        result@ == "haproxy-seed-"@ + version@,
{
    let mut name = String::from_str("haproxy-seed-");
    name.append(version);
    name
}

/// The script that puts a bundle together, but for its configuration.
pub const STAGE_SCRIPT: &'static str = "set -e; rm -rf /tmp/hap-app && mkdir -p /tmp/hap-app/bin /tmp/hap-app/config; hap=$(command -v haproxy || true); for c in \"$hap\" /usr/sbin/haproxy /usr/bin/haproxy; do if [ -x \"$c\" ]; then cp \"$c\" /tmp/hap-app/bin/haproxy; break; fi; done; [ -x /tmp/hap-app/bin/haproxy ] || { echo 'haproxy binary not found in release-server image' >&2; exit 1; }; chmod 0755 /tmp/hap-app/bin/haproxy; cp /usr/local/share/haproxy/launch /tmp/hap-app/bin/launch; chmod 0755 /tmp/hap-app/bin/launch";

/// The script that takes a bundle's configuration from standard input.
pub const CONFIGURE_SCRIPT: &'static str = "cat > /tmp/hap-app/config/haproxy.cfg";

/// The script that publishes a bundle of one version.
pub fn publish_haproxy_app(platform: &str, version: &str) -> (result: String)
    ensures
        result@ == glued(
            seq![
                SCRIPT_HEAD@,
                "updatectl deploy --keys-dir /data/release-keys "@,
                repository_flags_text(),
                " --namespace "@,
                NAMESPACE@,
                " --group haproxy-seed-"@,
                version@,
                " --product haproxy --channel stable --version "@,
                version@,
                " --entrypoint bin/launch --platform "@,
                platform@,
                " --source /tmp/hap-app"@,
            ],
        ),
{
    let repository = release_repository_flags();
    let parts: Vec<&str> = vec![
        SCRIPT_HEAD,
        "updatectl deploy --keys-dir /data/release-keys ",
        repository.as_str(),
        " --namespace ",
        NAMESPACE,
        " --group haproxy-seed-",
        version,
        " --product haproxy --channel stable --version ",
        version,
        " --entrypoint bin/launch --platform ",
        platform,
        " --source /tmp/hap-app",
    ];
    assert(str_views(parts@) =~= seq![
        SCRIPT_HEAD@,
        "updatectl deploy --keys-dir /data/release-keys "@,
        repository_flags_text(),
        " --namespace "@,
        NAMESPACE@,
        " --group haproxy-seed-"@,
        version@,
        " --product haproxy --channel stable --version "@,
        version@,
        " --entrypoint bin/launch --platform "@,
        platform@,
        " --source /tmp/hap-app"@,
    ]);
    glue(parts)
}

/// The signed releases of the load balancers.
pub struct HaproxyRelease {
    pub provider_path: String,
    pub provider_sha: String,
    pub v1_path: String,
    pub v1_sha: String,
    pub v2_path: String,
    pub v2_sha: String,
}

/// The path and digest of a published bundle, as they were read back.
pub struct Published {
    pub path: String,
    pub sha: String,
}

/// The signed releases of the load balancers, from what publishing their reconciler printed and
/// what was read back of the two bundles.
pub fn publish_haproxy_bundles(provider: &str, first: &Published, second: &Published) -> (result:
    Result<HaproxyRelease, String>)
    ensures
        match result {
            Ok(release) => {
                &&& set_digest(lines_of(provider@)) == Some(release.provider_sha@)
                &&& release.provider_path@ == HAPROXY_PROVIDER_PATH@
                &&& release.v1_path@ == trimmed(first.path@)
                &&& release.v1_sha@ == trimmed(first.sha@)
                &&& release.v2_path@ == trimmed(second.path@)
                &&& release.v2_sha@ == trimmed(second.sha@)
            },
            Err(message) => set_digest(lines_of(provider@)) is None && message@
                == "publish-provider-set printed no haproxy provider set sha"@,
        },
{
    let provider_sha = provider_digest(provider)?;
    Ok(
        HaproxyRelease {
            provider_path: HAPROXY_PROVIDER_PATH.to_owned(),
            provider_sha,
            v1_path: trim(first.path.as_str()).to_owned(),
            v1_sha: trim(first.sha.as_str()).to_owned(),
            v2_path: trim(second.path.as_str()).to_owned(),
            v2_sha: trim(second.sha.as_str()).to_owned(),
        },
    )
}

/// The servers as the health proxy lists them, each with its public key.
pub open spec fn keyed_members(servers: Seq<BackendServer>, keys: Seq<String>) -> Seq<Seq<char>> {
    Seq::new(
        servers.len(),
        |i: int| member_text(servers[i].node@, servers[i].address@, keys[i]@),
    )
}

/// The servers as the health proxy lists them, each with its public key.
pub fn healthproxy_members(servers: &Vec<BackendServer>, keys: &Vec<String>) -> (result: String)
    requires
        servers@.len() == keys@.len(),
    ensures
        result@ == joined(keyed_members(servers@, keys@), ","@),
{
    let ghost all = keyed_members(servers@, keys@);
    let mut members: Vec<String> = Vec::new();
    let mut index: usize = 0;
    assert(views(members@) =~= all.take(0));
    while index < servers.len()
        invariant
            index <= servers.len(),
            servers@.len() == keys@.len(),
            all == keyed_members(servers@, keys@),
            views(members@) == all.take(index as int),
        decreases servers.len() - index,
    {
        let ghost before = members@;
        let text = write_member(
            servers[index].node.as_str(),
            servers[index].address.as_str(),
            keys[index].as_str(),
        );
        members.push(text);
        assert(views(members@) =~= views(before).push(text@));
        assert(all.take(index + 1) =~= all.take(index as int).push(all[index as int]));
        index = index + 1;
    }
    assert(all.take(servers.len() as int) =~= all);
    join(&members, ",")
}

/// Whether the load probe is still short of the requests that a verdict rests on.
pub fn needs_samples(total: u64) -> (result: bool)
    ensures
        result == (total < MIN_SAMPLES),
{
    total < MIN_SAMPLES
}

/// Whether an upgrade can be judged by its traffic: the tier converged, its front reports the new
/// version, and the probe made enough requests. The first that does not hold is the verdict.
pub fn judge_upgrade(converged: Result<(), String>, reexeced: bool, total: u64) -> (result: Result<
    (),
    String,
>)
    ensures
        match converged {
            Err(error) => result is Err && result->Err_0@ == error@,
            Ok(_) => if !reexeced {
                result is Err && result->Err_0@
                    == "HAProxy converged to 2.0.0 but the front never reported the re-execed version"@
            } else if total < MIN_SAMPLES {
                result is Err && result->Err_0@ == "HAProxy load probe recorded too few samples ("@
                    + decimal_digits(total as nat) + ") to judge availability"@
            } else {
                result is Ok
            },
        },
{
    match converged {
        Err(error) => {
            return Err(error);
        },
        Ok(_) => {},
    }
    if !reexeced {
        return Err(
            "HAProxy converged to 2.0.0 but the front never reported the re-execed version".to_owned(),
        );
    }
    if total < MIN_SAMPLES {
        let mut message = String::from_str("HAProxy load probe recorded too few samples (");
        message.append(decimal(total).as_str());
        message.append(") to judge availability");
        return Err(message);
    }
    Ok(())
}

proof fn lemma_no_digest(rows: Seq<Seq<char>>)
    requires
        forall|i: int|
            0 <= i < rows.len() ==> (after_prefix(#[trigger] rows[i], "set "@) is None
                || first_word_of(after_prefix(rows[i], "set "@)->0) is None),
    ensures
        set_digest(rows) is None,
    decreases rows.len(),
{
    if rows.len() > 0 {
        let rest = rows.skip(1);
        assert(after_prefix(rows[0], "set "@) is None || first_word_of(
            after_prefix(rows[0], "set "@)->0,
        ) is None);
        assert forall|i: int| 0 <= i < rest.len() implies (after_prefix(
            #[trigger] rest[i],
            "set "@,
        ) is None || first_word_of(after_prefix(rest[i], "set "@)->0) is None) by {
            assert(rest[i] == rows[i + 1]);
        }
        lemma_no_digest(rest);
    }
}

/// The digest is the first word behind `set ` on the first line that has one; there is none where no line
/// has one.
pub proof fn the_digest_is_on_the_first_line_with_one(
    before: Seq<Seq<char>>,
    rest: Seq<char>,
    after: Seq<Seq<char>>,
)
    requires
        forall|i: int|
            0 <= i < before.len() ==> (after_prefix(#[trigger] before[i], "set "@) is None
                || first_word_of(after_prefix(before[i], "set "@)->0) is None),
        first_word_of(rest) is Some,
    ensures
        set_digest(before) is None,
        set_digest(before + seq!["set "@ + rest] + after) == first_word_of(rest),
    decreases before.len(),
{
    lemma_no_digest(before);
    let line = "set "@ + rest;
    let all = before + seq![line] + after;
    if before.len() > 0 {
        let others = before.skip(1);
        assert forall|i: int| 0 <= i < others.len() implies (after_prefix(
            #[trigger] others[i],
            "set "@,
        ) is None || first_word_of(after_prefix(others[i], "set "@)->0) is None) by {
            assert(others[i] == before[i + 1]);
        }
        the_digest_is_on_the_first_line_with_one(others, rest, after);
        assert(after_prefix(before[0], "set "@) is None || first_word_of(
            after_prefix(before[0], "set "@)->0,
        ) is None);
        assert(all[0] == before[0]);
        assert(all.skip(1) =~= others + seq![line] + after);
    } else {
        crate::text_laws::prefixes_and_suffixes_are_ends(line, "set "@, rest);
        assert(all[0] == line);
    }
}

/// Every server is listed with its address and its own key, in order.
pub proof fn every_server_is_listed_with_its_key(
    servers: Seq<BackendServer>,
    keys: Seq<String>,
    place: int,
)
    requires
        0 <= place < servers.len(),
    ensures
        keyed_members(servers, keys).len() == servers.len(),
        keyed_members(servers, keys)[place] == servers[place].node@ + "="@ + servers[place].address@
            + "="@ + keys[place]@,
{
}

} // verus!
