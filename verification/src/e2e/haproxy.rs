//! The load balancers of the end-to-end fleet, and the verdict on their upgrade in place.

use crate::commands::NAMESPACE;
use crate::demo::releases::SCRIPT_HEAD;
use crate::e2e::enrollment::{reserved_view, reserved_views, ReservedAgent, ReservedView};
use crate::e2e::fixture::{is_graph, GraphView, Release, ReleaseGraph};
use crate::e2e::layout::{
    external_ordinal, release_repository_flags, repository_flags_text, versioned_deployment_name,
    COHORT_LABEL, EXTERNAL_COUNT, HAPROXY_ADMIN_PORT, HAPROXY_BACKEND, HAPROXY_COHORT,
    HAPROXY_GROUP, HAPROXY_REPLICAS, HAPROXY_V1, HAPROXY_V2, KIND_LABEL, NODE_COUNT, NODE_LABEL,
};
use crate::e2e::probe::{Summary, SummaryView};
use crate::e2e::releases::seconds_up;
use crate::haproxy::{
    backend_line, config_middle, config_report, config_start, config_text, reports_running, server_line,
    server_lines, server_on, server_view, servers_are_declared_line_by_line, servers_from,
    versions_differ_only_in_what_they_report, BackendServer,
};
use crate::identity::{enrolled_name, resource_name};
use crate::naming::numbered;
use crate::resources::{label, target, Timeouts};
use crate::text::{
    decimal, decimal_digits, glue, glued, has_suffix, listed, same, str_views, trim, trimmed, views,
};
use vstd::prelude::*;

verus! {

/// How long the reconciler of the load balancers may take, in milliseconds.
pub const HAPROXY_PROVIDER_TIMEOUT_MS: u64 = 30_000;

/// The pod that probes the front.
pub const LOAD_PROBE_POD: &'static str = "haproxy-load-probe";

/// The pause between two requests, in milliseconds.
pub const LOAD_PROBE_INTERVAL_MS: u64 = 25;

/// The fewest requests, counted from the patch, that a verdict rests on.
pub const LOAD_PROBE_MIN_SAMPLES: u64 = 400;

/// The longest that the front may go without a response, in milliseconds.
pub const LOAD_PROBE_MAX_GAP_MS: u64 = 2000;

/// How many answers in a row prove that no old worker answers any more.
pub const REEXEC_ANSWERS: usize = 10;

// ----- the releases -----

/// The servers behind the load balancers: the agents outside the sets.
pub fn backend_servers() -> (result: Vec<BackendServer>)
    ensures
        result@.len() == EXTERNAL_COUNT,
        forall|i: int|
            0 <= i < result@.len() ==> server_view(#[trigger] result@[i]) == server_on(
                (NODE_COUNT + i) as nat,
            ),
{
    servers_from(external_ordinal(0), EXTERNAL_COUNT)
}

/// The configuration of a load balancer of one version.
pub fn haproxy_cfg(version: &str, servers: &Vec<BackendServer>) -> (result: String)
    ensures
        result@ == config_text(version@, servers@, HAPROXY_ADMIN_PORT as nat, HAPROXY_BACKEND@),
{
    crate::haproxy::haproxy_cfg(version, servers, HAPROXY_ADMIN_PORT, HAPROXY_BACKEND)
}

/// A configuration is that of no servers, which ends with the line that opens the fleet's backend, and
/// one line for each server, in order; and of two versions, it differs in what it reports only.
pub proof fn configurations_are_alike(
    version: Seq<char>,
    other: Seq<char>,
    servers: Seq<BackendServer>,
)
    ensures
        ({
            let port = HAPROXY_ADMIN_PORT as nat;
            let none = config_text(version, Seq::empty(), port, HAPROXY_BACKEND@);
            let before = config_start(port);
            let after = config_middle(HAPROXY_BACKEND@) + server_lines(servers);
            &&& has_suffix(none, "backend fleet\n"@)
            &&& config_text(version, servers, port, HAPROXY_BACKEND@) == none + glued(
                Seq::new(servers.len(), |i: int| server_line(servers[i])),
            )
            &&& config_text(version, servers, port, HAPROXY_BACKEND@) == before + config_report(
                version,
            ) + after
            &&& config_text(other, servers, port, HAPROXY_BACKEND@) == before + config_report(other)
                + after
        }),
{
    reveal_strlit("backend fleet\n");
    reveal_strlit("backend ");
    reveal_strlit("fleet");
    reveal_strlit("\n");
    assert("backend fleet\n"@ =~= backend_line(HAPROXY_BACKEND@));
    servers_are_declared_line_by_line(version, servers, HAPROXY_ADMIN_PORT as nat, HAPROXY_BACKEND@);
    versions_differ_only_in_what_they_report(
        version,
        other,
        servers,
        HAPROXY_ADMIN_PORT as nat,
        HAPROXY_BACKEND@,
    );
}

/// The script that puts a bundle together, but for its configuration.
pub const STAGE_SCRIPT: &'static str = "set -e; rm -rf /tmp/hap-app && mkdir -p /tmp/hap-app/bin /tmp/hap-app/config; hap=$(command -v haproxy || true); for c in \"$hap\" /usr/sbin/haproxy /usr/bin/haproxy; do if [ -x \"$c\" ]; then cp \"$c\" /tmp/hap-app/bin/haproxy; break; fi; done; [ -x /tmp/hap-app/bin/haproxy ] || { echo 'haproxy binary not found in release-server image' >&2; exit 1; }; chmod 0755 /tmp/hap-app/bin/haproxy; cp /usr/local/share/haproxy/lifecycle /tmp/hap-app/bin/lifecycle; cp /usr/local/share/haproxy/lib.sh /tmp/hap-app/bin/lib.sh; cp /usr/local/share/haproxy/launch /tmp/hap-app/bin/launch; chmod 0755 /tmp/hap-app/bin/launch";

/// The script that takes a bundle's configuration from standard input.
pub const CONFIGURE_SCRIPT: &'static str = "cat > /tmp/hap-app/config/haproxy.cfg";

/// The arguments that run a script where the releases are made, with standard input.
pub fn release_server_feed(script: &str) -> (result: Vec<String>)
    ensures
        views(result@) == seq![
            "-n"@,
            NAMESPACE@,
            "exec"@,
            "deployment/release-server"@,
            "-c"@,
            "release-server"@,
            "-i"@,
            "--"@,
            "sh"@,
            "-c"@,
            script@,
        ],
{
    listed(
        vec![
            "-n",
            NAMESPACE,
            "exec",
            "deployment/release-server",
            "-c",
            "release-server",
            "-i",
            "--",
            "sh",
            "-c",
            script,
        ],
    )
}

/// The script that publishes a bundle of one version.
pub fn publish_haproxy_app(platform: &str, version: &str) -> (result: String)
    ensures
        result@ == glued(
            seq![
                SCRIPT_HEAD@,
                "updatectl publish --keys-dir /data/release-keys "@,
                repository_flags_text(),
                " --output json --product haproxy --channel stable --version "@,
                version@,
                " --platform "@,
                platform@,
                " --source /tmp/hap-app --entrypoint bin/lifecycle --healthcheck bin/lifecycle --inspect bin/lifecycle --recover bin/lifecycle --replay safe --recovery-replay safe --timeout-seconds "@,
                decimal_digits(seconds_up(HAPROXY_PROVIDER_TIMEOUT_MS as nat)),
            ],
        ),
{
    let repository = release_repository_flags();
    let seconds: u64 = HAPROXY_PROVIDER_TIMEOUT_MS / 1000;
    assert(seconds as nat == seconds_up(HAPROXY_PROVIDER_TIMEOUT_MS as nat));
    let timeout = decimal(seconds);
    let parts: Vec<&str> = vec![
        SCRIPT_HEAD,
        "updatectl publish --keys-dir /data/release-keys ",
        repository.as_str(),
        " --output json --product haproxy --channel stable --version ",
        version,
        " --platform ",
        platform,
        " --source /tmp/hap-app --entrypoint bin/lifecycle --healthcheck bin/lifecycle --inspect bin/lifecycle --recover bin/lifecycle --replay safe --recovery-replay safe --timeout-seconds ",
        timeout.as_str(),
    ];
    assert(str_views(parts@) =~= seq![
        SCRIPT_HEAD@,
        "updatectl publish --keys-dir /data/release-keys "@,
        repository_flags_text(),
        " --output json --product haproxy --channel stable --version "@,
        version@,
        " --platform "@,
        platform@,
        " --source /tmp/hap-app --entrypoint bin/lifecycle --healthcheck bin/lifecycle --inspect bin/lifecycle --recover bin/lifecycle --replay safe --recovery-replay safe --timeout-seconds "@,
        decimal_digits(seconds_up(HAPROXY_PROVIDER_TIMEOUT_MS as nat)),
    ]);
    glue(parts)
}

/// The signed releases of the load balancers.
pub struct HaproxyRelease {
    pub v1_path: String,
    pub v1_sha: String,
    pub v2_path: String,
    pub v2_sha: String,
}

/// The signed releases of the load balancers, from what publishing each of them named.
pub fn publish_haproxy_bundles(first: (String, String), second: (String, String)) -> (result:
    HaproxyRelease)
    ensures
        result.v1_path@ == first.0@,
        result.v1_sha@ == first.1@,
        result.v2_path@ == second.0@,
        result.v2_sha@ == second.1@,
{
    HaproxyRelease { v1_path: first.0, v1_sha: first.1, v2_path: second.0, v2_sha: second.1 }
}

// ----- the tier -----

/// The cadence of the load balancers: fast, with a few seconds to install.
pub open spec fn haproxy_cadence() -> Timeouts {
    Timeouts {
        check_interval: 1,
        health_grace: 12,
        health_successes: 1,
        health_interval: 1,
        retry_after: None,
        refresh_retry: 1,
        confirmation_window: 3,
        supervisor_check_interval: None,
        drain_hold: None,
    }
}

pub(crate) fn use_haproxy_cadence() -> (result: Timeouts)
    ensures
        result == haproxy_cadence(),
{
    Timeouts {
        check_interval: 1,
        health_grace: 12,
        health_successes: 1,
        health_interval: 1,
        retry_after: None,
        refresh_retry: 1,
        confirmation_window: 3,
        supervisor_check_interval: None,
        drain_hold: None,
    }
}

/// The name of a load balancer.
pub open spec fn haproxy_node(ordinal: nat) -> Seq<char> {
    "haproxy-"@ + decimal_digits(ordinal)
}

/// The reservation of a load balancer. It is made, with its labels, before the node enrolls, so
/// that the node is never a member of the fleet that no group selects.
pub open spec fn haproxy_reservation(ordinal: nat) -> ReservedView {
    ReservedView {
        resource: enrolled_name(haproxy_node(ordinal)),
        labels: seq![
            (NODE_LABEL@, haproxy_node(ordinal)),
            (COHORT_LABEL@, HAPROXY_COHORT@),
            (KIND_LABEL@, "haproxy"@),
        ],
    }
}

/// The reservations of the load balancers.
pub fn reserve_haproxy_agents() -> (result: Vec<ReservedAgent>)
    ensures
        reserved_views(result@) == Seq::new(
            HAPROXY_REPLICAS as nat,
            |i: int| haproxy_reservation(i as nat),
        ),
{
    let mut result: Vec<ReservedAgent> = Vec::new();
    let mut ordinal: usize = 0;
    while ordinal < HAPROXY_REPLICAS
        invariant
            ordinal <= HAPROXY_REPLICAS,
            result@.len() == ordinal,
            forall|i: int|
                0 <= i < ordinal ==> reserved_view(#[trigger] result@[i]) == haproxy_reservation(
                    i as nat,
                ),
        decreases HAPROXY_REPLICAS - ordinal,
    {
        let node = numbered("haproxy-", ordinal);
        let agent = ReservedAgent {
            resource: resource_name(node.as_str()),
            labels: vec![
                label(NODE_LABEL, node.as_str()),
                label(COHORT_LABEL, HAPROXY_COHORT),
                label(KIND_LABEL, "haproxy"),
            ],
        };
        assert(reserved_view(agent) =~= haproxy_reservation(ordinal as nat));
        result.push(agent);
        ordinal = ordinal + 1;
    }
    assert(reserved_views(result@) =~= Seq::new(
        HAPROXY_REPLICAS as nat,
        |i: int| haproxy_reservation(i as nat),
    ));
    result
}

/// The resources of the load balancers.
pub fn haproxy_resources() -> (result: Vec<String>)
    ensures
        views(result@) == Seq::new(
            HAPROXY_REPLICAS as nat,
            |i: int| enrolled_name(haproxy_node(i as nat)),
        ),
{
    let mut result: Vec<String> = Vec::new();
    let mut ordinal: usize = 0;
    while ordinal < HAPROXY_REPLICAS
        invariant
            ordinal <= HAPROXY_REPLICAS,
            result@.len() == ordinal,
            forall|i: int|
                0 <= i < ordinal ==> (#[trigger] result@[i])@ == enrolled_name(
                    haproxy_node(i as nat),
                ),
        decreases HAPROXY_REPLICAS - ordinal,
    {
        result.push(resource_name(numbered("haproxy-", ordinal).as_str()));
        ordinal = ordinal + 1;
    }
    assert(views(result@) =~= Seq::new(
        HAPROXY_REPLICAS as nat,
        |i: int| enrolled_name(haproxy_node(i as nat)),
    ));
    result
}

// ----- the upgrade -----

/// What the load balancers are upgraded to: the second release, reached from the first.
pub open spec fn upgrade_graph(package: (Seq<char>, Seq<char>)) -> GraphView {
    GraphView {
        target: HAPROXY_V2@,
        releases: map![
            HAPROXY_V2@ => crate::e2e::fixture::ReleaseView {
                package,
                installable: true,
                upgrade_from: set![HAPROXY_V1@],
                rollback_from: Set::empty(),
            },
        ],
    }
}

/// The patch that upgrades the load balancers.
pub struct HaproxyUpgrade {
    pub name: String,
    pub application: ReleaseGraph,
}

/// The patch that upgrades the load balancers to a published target.
pub fn haproxy_upgrade(path: &str, sha: &str) -> (result: HaproxyUpgrade)
    ensures
        result.name@ == HAPROXY_GROUP@ + "-"@ + HAPROXY_V2@,
        is_graph(result.application),
        result.application@ == upgrade_graph((path@, sha@)),
{
    let release = Release {
        version: HAPROXY_V2.to_owned(),
        package: target(path, sha),
        installable: true,
        upgrade_from: vec![HAPROXY_V1.to_owned()],
        rollback_from: Vec::new(),
    };
    proof {
        let sources = views(release.upgrade_from@);
        assert(sources[0] == HAPROXY_V1@);
        assert forall|version: Seq<char>|
            #[trigger] sources.to_set().contains(version) <==> version == HAPROXY_V1@ by {
            if version == HAPROXY_V1@ {
                assert(sources[0] == version);
            }
        }
        assert(sources.to_set() =~= set![HAPROXY_V1@]);
        assert(views(release.rollback_from@).to_set() =~= Set::<Seq<char>>::empty());
    }
    let application = ReleaseGraph { target: HAPROXY_V2.to_owned(), releases: vec![release] };
    proof {
        assert(application.releases@.drop_last() =~= Seq::<Release>::empty());
        assert(application.releases@.last() == release);
        reveal_with_fuel(crate::e2e::fixture::release_map, 2);
        assert(application@ =~= upgrade_graph((path@, sha@)));
    }
    HaproxyUpgrade { name: versioned_deployment_name(HAPROXY_GROUP, HAPROXY_V2), application }
}

/// How many answers in a row reported the new version, after one more.
pub fn count_answers(consecutive: usize, body: &str) -> (result: usize)
    requires
        consecutive < usize::MAX,
    ensures
        result == (if trimmed(body@) == "haproxy "@ + HAPROXY_V2@ {
            consecutive + 1
        } else {
            0
        }),
{
    if reports_running(body, HAPROXY_V2) {
        consecutive + 1
    } else {
        0
    }
}

/// Whether enough answers in a row reported the new version.
pub fn is_reexecuted(consecutive: usize) -> (result: bool)
    ensures
        result == (consecutive >= REEXEC_ANSWERS),
{
    consecutive >= REEXEC_ANSWERS
}

/// The message about a front that never did what was expected.
pub fn front_timeout_message(what: &str) -> (result: String)
    ensures
        result@ == "HAProxy front never satisfied: "@ + what@,
{
    let mut message = String::from_str("HAProxy front never satisfied: ");
    message.append(what);
    message
}

/// The arguments that read the probe's log.
pub fn probe_log_args() -> (result: Vec<String>)
    ensures
        views(result@) == seq!["-n"@, NAMESPACE@, "logs"@, LOAD_PROBE_POD@, "--tail=5"@],
{
    listed(vec!["-n", NAMESPACE, "logs", LOAD_PROBE_POD, "--tail=5"])
}

/// The probe's latest summary, from its log; none where the log could not be read or states none.
pub fn probe_summary(logs: &Option<String>) -> (result: Option<Summary>)
    ensures
        match (*logs, result) {
            (Some(text), Some(summary)) => crate::e2e::probe::last_summary(
                crate::text::lines_of(text@),
            ) == Some(summary@),
            (Some(text), None) => crate::e2e::probe::last_summary(
                crate::text::lines_of(text@),
            ) is None,
            (None, _) => result is None,
        },
{
    match logs {
        Some(text) => Summary::from_logs(text.as_str()),
        None => None,
    }
}

/// Whether the probe observes the front.
pub fn is_observing(summary: &Option<Summary>) -> (result: bool)
    ensures
        result == (summary is Some && summary->0.total > 0),
{
    match summary {
        Some(found) => found.total > 0,
        None => false,
    }
}

/// The requests so far; none where there is no summary.
pub fn requests_so_far(summary: &Option<Summary>) -> (result: u64)
    ensures
        result == match *summary {
            Some(found) => found.total,
            None => 0,
        },
{
    match summary {
        Some(found) => found.total,
        None => 0,
    }
}

/// The requests of a summary that were made after so many others.
pub open spec fn requests_after(summary: SummaryView, before: u64) -> int {
    if summary.total >= before {
        summary.total - before
    } else {
        0
    }
}

/// Why an upgrade does not pass, if it does not: the probe must still run, must have made enough
/// requests since the patch, and must have lost none and waited for none too long.
pub open spec fn upgrade_error(phase: Seq<char>, summary: Option<SummaryView>, before: u64) -> Option<
    Seq<char>,
> {
    if trimmed(phase) != "Running"@ {
        Some(
            "the load probe pod is "@ + trimmed(phase)
                + " and not Running, so its summary does not cover the re-exec it would certify"@,
        )
    } else {
        match summary {
            None => Some("the load probe emitted no summary to judge the upgrade by"@),
            Some(seen) => if requests_after(seen, before) < LOAD_PROBE_MIN_SAMPLES {
                Some(
                    "the load probe recorded too few samples ("@ + decimal_digits(
                        requests_after(seen, before) as nat,
                    ) + " of "@ + decimal_digits(seen.total as nat)
                        + ") after the group was patched to judge the upgrade"@,
                )
            } else if seen.failed != 0 {
                Some(
                    "HAProxy upgrade dropped traffic: "@ + decimal_digits(seen.failed as nat)
                        + "/"@ + decimal_digits(seen.total as nat) + " requests failed (first: "@
                        + seen.first_failure + ")"@,
                )
            } else if seen.max_gap_ms > LOAD_PROBE_MAX_GAP_MS {
                Some(
                    "HAProxy upgrade stalled the front for "@ + decimal_digits(
                        seen.max_gap_ms as nat,
                    ) + "ms (bound "@ + decimal_digits(LOAD_PROBE_MAX_GAP_MS as nat)
                        + "ms) even though no request failed outright"@,
                )
            } else {
                None
            },
        }
    }
}

/// What a summary that may be missing says.
pub open spec fn summary_said(summary: Option<Summary>) -> Option<SummaryView> {
    match summary {
        Some(found) => Some(found@),
        None => None,
    }
}

/// Whether an upgrade passes; with the requests that were made since the patch.
pub fn drive_haproxy_upgrade(phase: &str, summary: &Option<Summary>, before: u64) -> (result: Result<
    u64,
    String,
>)
    ensures
        match result {
            Ok(during) => upgrade_error(phase@, summary_said(*summary), before) is None && during
                == requests_after(summary->0@, before),
            Err(message) => upgrade_error(phase@, summary_said(*summary), before) == Some(message@),
        },
{
    let state = trim(phase);
    if !same(state, "Running") {
        let mut message = String::from_str("the load probe pod is ");
        message.append(state);
        message.append(
            " and not Running, so its summary does not cover the re-exec it would certify",
        );
        return Err(message);
    }
    let seen = match summary {
        Some(seen) => seen,
        None => return Err(
            String::from_str("the load probe emitted no summary to judge the upgrade by"),
        ),
    };
    let during: u64 = if seen.total >= before {
        seen.total - before
    } else {
        0
    };
    if during < LOAD_PROBE_MIN_SAMPLES {
        let mut message = String::from_str("the load probe recorded too few samples (");
        message.append(decimal(during).as_str());
        message.append(" of ");
        message.append(decimal(seen.total).as_str());
        message.append(") after the group was patched to judge the upgrade");
        return Err(message);
    }
    if seen.failed != 0 {
        let mut message = String::from_str("HAProxy upgrade dropped traffic: ");
        message.append(decimal(seen.failed).as_str());
        message.append("/");
        message.append(decimal(seen.total).as_str());
        message.append(" requests failed (first: ");
        message.append(seen.first_failure.as_str());
        message.append(")");
        return Err(message);
    }
    if seen.max_gap_ms > LOAD_PROBE_MAX_GAP_MS {
        let mut message = String::from_str("HAProxy upgrade stalled the front for ");
        message.append(decimal(seen.max_gap_ms).as_str());
        message.append("ms (bound ");
        message.append(decimal(LOAD_PROBE_MAX_GAP_MS).as_str());
        message.append("ms) even though no request failed outright");
        return Err(message);
    }
    Ok(during)
}

/// An upgrade passes exactly when a probe that still runs made enough requests since the patch, lost
/// none of all its requests, and never waited longer than the bound.
pub proof fn upgrades_pass_without_a_lost_request(phase: Seq<char>, summary: SummaryView, before: u64)
    ensures
        upgrade_error(phase, Some(summary), before) is None <==> trimmed(phase) == "Running"@
            && summary.total >= before + LOAD_PROBE_MIN_SAMPLES && summary.failed == 0
            && summary.max_gap_ms <= LOAD_PROBE_MAX_GAP_MS,
        upgrade_error(phase, None, before) is Some,
{
}

/// An upgrade passes exactly where a probe that still runs made at least 400 requests since the patch,
/// lost none of all its requests and never waited for more than two seconds. What comes first of what
/// does not hold is the verdict.
pub proof fn upgrades_are_judged_by_their_traffic(
    phase: Seq<char>,
    summary: SummaryView,
    before: u64,
)
    ensures
        ({
            let made = if summary.total >= before {
                summary.total - before
            } else {
                0
            };
            let error = upgrade_error(phase, Some(summary), before);
            let runs = trimmed(phase) == "Running"@;
            &&& error is None <==> runs && made >= 400 && summary.failed == 0 && summary.max_gap_ms
                <= 2000
            &&& runs && made < 400 ==> error == Some(
                "the load probe recorded too few samples ("@ + decimal_digits(made as nat)
                    + " of "@ + decimal_digits(summary.total as nat)
                    + ") after the group was patched to judge the upgrade"@,
            )
            &&& runs && made >= 400 && summary.failed > 0 ==> error == Some(
                "HAProxy upgrade dropped traffic: "@ + decimal_digits(summary.failed as nat) + "/"@
                    + decimal_digits(summary.total as nat) + " requests failed (first: "@
                    + summary.first_failure + ")"@,
            )
            &&& requests_after(summary, before) == made
        }),
        trimmed(phase) == "Running"@ ==> upgrade_error(phase, None, before) == Some(
            "the load probe emitted no summary to judge the upgrade by"@,
        ),
{
}

/// The load balancers are upgraded to the second release, which is reached from the first and from
/// nothing else, or installed from nothing.
pub proof fn the_upgrade_leads_from_the_first_release(
    package: (Seq<char>, Seq<char>),
    source: Seq<char>,
)
    ensures
        upgrade_graph(package).target == "2.0.0"@,
        upgrade_graph(package).releases[HAPROXY_V2@].package == package,
        upgrade_graph(package).releases[HAPROXY_V2@].installable,
        upgrade_graph(package).releases[HAPROXY_V2@].rollback_from == Set::<Seq<char>>::empty(),
        upgrade_graph(package).releases.dom() == set![HAPROXY_V2@],
        crate::e2e::fixture::leads_on(upgrade_graph(package), None),
        crate::e2e::fixture::leads_on(upgrade_graph(package), Some(source)) <==> source == "1.0.0"@
            || source == "2.0.0"@,
{
    assert(set![HAPROXY_V1@].contains(source) <==> source == HAPROXY_V1@);
    assert(upgrade_graph(package).releases.dom() =~= set![HAPROXY_V2@]);
}

/// A load balancer is reserved under the name that it enrolls under, and labelled with its node, its
/// cohort and its kind.
pub proof fn load_balancers_are_reserved_with_their_labels(ordinal: nat)
    ensures
        haproxy_reservation(ordinal).resource == enrolled_name(
            "haproxy-"@ + decimal_digits(ordinal),
        ),
        haproxy_reservation(ordinal).labels.contains(
            (NODE_LABEL@, "haproxy-"@ + decimal_digits(ordinal)),
        ),
        haproxy_reservation(ordinal).labels.contains((COHORT_LABEL@, HAPROXY_COHORT@)),
        haproxy_reservation(ordinal).labels.contains((KIND_LABEL@, "haproxy"@)),
{
    let labels = haproxy_reservation(ordinal).labels;
    assert(labels[0] == (NODE_LABEL@, "haproxy-"@ + decimal_digits(ordinal)));
    assert(labels[1] == (COHORT_LABEL@, HAPROXY_COHORT@));
    assert(labels[2] == (KIND_LABEL@, "haproxy"@));
}

/// A load balancer asks every second what to run and whether it is healthy, has twelve seconds to
/// become so, and one success is enough.
pub proof fn load_balancers_have_a_few_seconds_to_install()
    ensures
        haproxy_cadence().check_interval == haproxy_cadence().health_interval
            == haproxy_cadence().refresh_retry == 1,
        haproxy_cadence().health_grace == 12 && haproxy_cadence().confirmation_window == 3,
        haproxy_cadence().health_successes == 1,
        haproxy_cadence().retry_after is None && haproxy_cadence().drain_hold is None,
        haproxy_cadence().supervisor_check_interval is None,
{
}

} // verus!
