//! The scenarios that exercise the control plane: what each one names, does and concludes.

use crate::commands::{kubectl_value, says, value_args, value_says};
use crate::demo::releases::SCRIPT_HEAD;
use crate::e2e::layout::{
    cohort_group, cohort_group_text, cohort_set_index, release_repository_flags,
    repository_flags_text, set_name, set_name_text, versioned_deployment_name, COHORT_SIZE,
    GROUPS_PER_SET, NAMESPACE,
};
use crate::identity::{agent_resource_name, enrolled_name, is_hex};
use crate::naming::{agent_hostname, agent_name};
use crate::resources::{target_view, TargetReference};
use crate::text::{
    glue, glued, holds, join, joined, quoted, quoted_text, same, str_views, trim, trimmed, view_of,
    views,
};
use vstd::prelude::*;

verus! {

// ----- deploying a release -----

/// The step of a script that makes a release's entry point: a copy of the sample application, or
/// something that no node can start.
pub open spec fn entry_point_step(broken: bool) -> Seq<char> {
    if broken {
        "printf 'intentionally corrupt entrypoint\\n' >/tmp/gen/bin/app"@
    } else {
        "cp /usr/local/bin/sampleapp /tmp/gen/bin/app"@
    }
}

/// The flags that name the reconciler that a release ships with, by its path and digest.
pub open spec fn provider_flags(provider: (Seq<char>, Seq<char>)) -> Seq<char> {
    " --provider-set-path "@ + provider.0 + " --provider-set-sha256 "@ + provider.1
}

fn write_provider_flags(provider: &TargetReference) -> (result: String)
    ensures
        result@ == provider_flags(target_view(*provider)),
{
    let mut flags = String::from_str(" --provider-set-path ");
    flags.append(provider.path.as_str());
    flags.append(" --provider-set-sha256 ");
    flags.append(provider.sha256.as_str());
    flags
}

/// The step of a script that rolls a group to a release.
pub open spec fn deploy_step(
    group: Seq<char>,
    version: Seq<char>,
    platform: Seq<char>,
    provider: (Seq<char>, Seq<char>),
) -> Seq<char> {
    glued(
        seq![
            "updatectl deploy --keys-dir /data/release-keys "@,
            repository_flags_text(),
            " --namespace "@,
            NAMESPACE@,
            " --group "@,
            group,
            " --product app --channel stable --version "@,
            version,
            " --entrypoint bin/app --platform "@,
            platform,
            " --source /tmp/gen"@,
            provider_flags(provider),
        ],
    )
}

fn write_deploy_step(
    group: &str,
    version: &str,
    platform: &str,
    provider: &TargetReference,
) -> (result: String)
    ensures
        result@ == deploy_step(group@, version@, platform@, target_view(*provider)),
{
    let repository = release_repository_flags();
    let flags = write_provider_flags(provider);
    let parts: Vec<&str> = vec![
        "updatectl deploy --keys-dir /data/release-keys ",
        repository.as_str(),
        " --namespace ",
        NAMESPACE,
        " --group ",
        group,
        " --product app --channel stable --version ",
        version,
        " --entrypoint bin/app --platform ",
        platform,
        " --source /tmp/gen",
        flags.as_str(),
    ];
    assert(str_views(parts@) =~= seq![
        "updatectl deploy --keys-dir /data/release-keys "@,
        repository_flags_text(),
        " --namespace "@,
        NAMESPACE@,
        " --group "@,
        group@,
        " --product app --channel stable --version "@,
        version@,
        " --entrypoint bin/app --platform "@,
        platform@,
        " --source /tmp/gen"@,
        provider_flags(target_view(*provider)),
    ]);
    glue(parts)
}

/// The steps that roll some groups to a release.
pub open spec fn deploy_steps(
    groups: Seq<Seq<char>>,
    version: Seq<char>,
    platform: Seq<char>,
    provider: (Seq<char>, Seq<char>),
) -> Seq<Seq<char>> {
    Seq::new(groups.len(), |i: int| deploy_step(groups[i], version, platform, provider))
}

/// The script that publishes a release and rolls some groups to it.
pub open spec fn deploy_script(
    groups: Seq<Seq<char>>,
    version: Seq<char>,
    broken: bool,
    platform: Seq<char>,
    provider: (Seq<char>, Seq<char>),
) -> Seq<char> {
    glued(
        seq![
            SCRIPT_HEAD@,
            "rm -rf /tmp/gen && mkdir -p /tmp/gen/bin /tmp/gen/config; "@,
            entry_point_step(broken),
            "; chmod 0755 /tmp/gen/bin/app; printf 'version = \""@,
            version,
            "\"\\n' >/tmp/gen/config/release.toml; "@,
            joined(deploy_steps(groups, version, platform, provider), "; "@),
        ],
    )
}

/// What deploying a release takes: the script to run, and then the identity that each group's
/// deployment is given.
pub struct DeployPlan {
    pub script: String,
    pub identities: Vec<String>,
}

/// What deploying a release to some groups takes. A deployment needs a group to be read back from.
pub fn deploy_release(
    groups: &Vec<String>,
    version: &str,
    broken: bool,
    platform: &str,
    provider: &TargetReference,
) -> (result: Result<DeployPlan, String>)
    ensures
        match result {
            Ok(plan) => {
                &&& groups@.len() > 0
                &&& plan.script@ == deploy_script(
                    views(groups@),
                    version@,
                    broken,
                    platform@,
                    target_view(*provider),
                )
                &&& views(plan.identities@) == Seq::new(
                    groups@.len(),
                    |i: int| groups@[i]@ + "-"@ + version@,
                )
            },
            Err(message) => groups@.len() == 0 && message@
                == "a deploy needs at least one group"@,
        },
{
    if groups.len() == 0 {
        return Err(String::from_str("a deploy needs at least one group"));
    }
    let mut steps: Vec<String> = Vec::new();
    let mut identities: Vec<String> = Vec::new();
    let mut index: usize = 0;
    while index < groups.len()
        invariant
            index <= groups.len(),
            steps@.len() == index,
            identities@.len() == index,
            forall|i: int|
                0 <= i < index ==> (#[trigger] steps@[i])@ == deploy_step(
                    groups@[i]@,
                    version@,
                    platform@,
                    target_view(*provider),
                ),
            forall|i: int|
                0 <= i < index ==> (#[trigger] identities@[i])@ == groups@[i]@ + "-"@ + version@,
        decreases groups.len() - index,
    {
        let group = groups[index].as_str();
        steps.push(write_deploy_step(group, version, platform, provider));
        identities.push(versioned_deployment_name(group, version));
        index = index + 1;
    }
    let ghost wanted = deploy_steps(views(groups@), version@, platform@, target_view(*provider));
    assert(views(steps@) =~= wanted);
    assert(views(identities@) =~= Seq::new(
        groups@.len(),
        |i: int| groups@[i]@ + "-"@ + version@,
    ));
    let deploys = join(&steps, "; ");
    let entry_point = if broken {
        "printf 'intentionally corrupt entrypoint\\n' >/tmp/gen/bin/app"
    } else {
        "cp /usr/local/bin/sampleapp /tmp/gen/bin/app"
    };
    let parts: Vec<&str> = vec![
        SCRIPT_HEAD,
        "rm -rf /tmp/gen && mkdir -p /tmp/gen/bin /tmp/gen/config; ",
        entry_point,
        "; chmod 0755 /tmp/gen/bin/app; printf 'version = \"",
        version,
        "\"\\n' >/tmp/gen/config/release.toml; ",
        deploys.as_str(),
    ];
    assert(str_views(parts@) =~= seq![
        SCRIPT_HEAD@,
        "rm -rf /tmp/gen && mkdir -p /tmp/gen/bin /tmp/gen/config; "@,
        entry_point_step(broken),
        "; chmod 0755 /tmp/gen/bin/app; printf 'version = \""@,
        version@,
        "\"\\n' >/tmp/gen/config/release.toml; "@,
        joined(wanted, "; "@),
    ]);
    Ok(DeployPlan { script: glue(parts), identities })
}

/// The message about a release that could not be deployed.
pub fn deploy_failure(version: &str) -> (result: String)
    ensures
        result@ == "updatectl deploy failed for "@ + version@,
{
    let mut message = String::from_str("updatectl deploy failed for ");
    message.append(version);
    message
}

// ----- single values -----

/// The arguments that read the version that a node reports, and whether it is ready.
pub fn reported_args(resource: &str) -> (result: Vec<String>)
    ensures
        views(result@) == value_args(
            "updateagent"@,
            resource@,
            "{.status.reportedVersion} {.status.reportedReady}"@,
        ),
{
    kubectl_value("updateagent", resource, "{.status.reportedVersion} {.status.reportedReady}")
}

/// Whether what was read says that a node is ready on a version.
pub fn reports_version(outcome: &Option<String>, version: &str) -> (result: bool)
    ensures
        result == says(view_of(*outcome), version@ + " true"@),
{
    let mut expected = String::from_str(version);
    expected.append(" true");
    value_says(outcome, expected.as_str())
}

/// The arguments that read a flag of a node's status.
pub fn status_flag_args(resource: &str, flag: &str) -> (result: Vec<String>)
    ensures
        views(result@) == value_args("updateagent"@, resource@, "{.status."@ + flag@ + "}"@),
{
    let mut path = String::from_str("{.status.");
    path.append(flag);
    path.append("}");
    kubectl_value("updateagent", resource, path.as_str())
}

/// Whether what was read says that a flag is set.
pub fn agent_status_flag(outcome: &Option<String>) -> (result: bool)
    ensures
        result == says(view_of(*outcome), "true"@),
{
    value_says(outcome, "true")
}

/// The script that signals a node's agent, found by its name, and nothing else.
pub fn signal_agent(signal: &str) -> (result: String)
    ensures
        result@ == glued(
            seq![
                "set -e; found=0; for d in /proc/[0-9]*; do "@,
                "c=$(cat $d/comm 2>/dev/null || true); "@,
                "case \"$c\" in updated-agent) kill -"@,
                signal@,
                " ${d#/proc/} && found=1;; esac; done; [ $found = 1 ]"@,
            ],
        ),
{
    let parts: Vec<&str> = vec![
        "set -e; found=0; for d in /proc/[0-9]*; do ",
        "c=$(cat $d/comm 2>/dev/null || true); ",
        "case \"$c\" in updated-agent) kill -",
        signal,
        " ${d#/proc/} && found=1;; esac; done; [ $found = 1 ]",
    ];
    assert(str_views(parts@) =~= seq![
        "set -e; found=0; for d in /proc/[0-9]*; do "@,
        "c=$(cat $d/comm 2>/dev/null || true); "@,
        "case \"$c\" in updated-agent) kill -"@,
        signal@,
        " ${d#/proc/} && found=1;; esac; done; [ $found = 1 ]"@,
    ]);
    glue(parts)
}

/// The message about an agent that could not be signalled.
pub fn signal_failure(pod: &str, signal: &str, error: &str) -> (result: String)
    ensures
        result@ == "could not send SIG"@ + signal@ + " to "@ + pod@ + "'s agent: "@ + error@,
{
    let mut message = String::from_str("could not send SIG");
    message.append(signal);
    message.append(" to ");
    message.append(pod);
    message.append("'s agent: ");
    message.append(error);
    message
}

// ----- cohorts of a scenario -----

/// A member of a cohort: its pod, and its resource.
pub struct Member {
    pub pod: String,
    pub resource: String,
}

/// A member as its pod and resource.
pub open spec fn member_view(member: Member) -> (Seq<char>, Seq<char>) {
    (member.pod@, member.resource@)
}

/// The cohort that a scenario exercises.
pub struct ScenarioCohort {
    pub group: String,
    pub set: String,
    pub members: Vec<Member>,
}

/// The cohort that a scenario exercises, with its group, its set and its members.
pub fn scenario_cohort(cohort: usize) -> (result: ScenarioCohort)
    requires
        cohort < crate::e2e::layout::COHORT_COUNT,
    ensures
        result.group@ == cohort_group_text(cohort as nat),
        result.set@ == set_name_text((cohort / GROUPS_PER_SET) as nat),
        result.members@.len() == COHORT_SIZE,
        forall|i: int|
            0 <= i < COHORT_SIZE ==> member_view(#[trigger] result.members@[i]) == (
                agent_name((cohort * COHORT_SIZE + i) as nat),
                enrolled_name(agent_name((cohort * COHORT_SIZE + i) as nat)),
            ),
{
    let mut members: Vec<Member> = Vec::new();
    let mut index: usize = 0;
    while index < COHORT_SIZE
        invariant
            index <= COHORT_SIZE,
            cohort < crate::e2e::layout::COHORT_COUNT,
            members@.len() == index,
            forall|i: int|
                0 <= i < index ==> member_view(#[trigger] members@[i]) == (
                    agent_name((cohort * COHORT_SIZE + i) as nat),
                    enrolled_name(agent_name((cohort * COHORT_SIZE + i) as nat)),
                ),
        decreases COHORT_SIZE - index,
    {
        let ordinal: usize = cohort * COHORT_SIZE + index;
        members.push(
            Member { pod: agent_hostname(ordinal), resource: agent_resource_name(ordinal) },
        );
        index = index + 1;
    }
    ScenarioCohort {
        group: cohort_group(cohort),
        set: set_name(cohort_set_index(cohort)),
        members,
    }
}

/// The cohort whose release is rolled back, the two that are wired to each other, the one whose set
/// is frozen and the one that is quarantined.
pub const ROLLBACK_COHORT: usize = 0;

pub const PRODUCER_COHORT: usize = 2;

pub const CONSUMER_COHORT: usize = 3;

pub const FROZEN_COHORT: usize = 8;

pub const QUARANTINED_COHORT: usize = 10;

// ----- node controls -----

/// Whether a group has settled around a benched node: the other node has advanced, and the group
/// is ready.
pub fn settled_around(sibling_advanced: bool, ready: &Option<String>, condition_true: &str) -> (result:
    bool)
    ensures
        result == (sibling_advanced && view_of(*ready) == Some(condition_true@)),
{
    let is_ready = match ready {
        Some(status) => same(status.as_str(), condition_true),
        None => false,
    };
    sibling_advanced && is_ready
}

/// What was read once a group had settled around a benched node.
pub struct BenchEvidence {
    /// Whether the benched node was moved all the same.
    pub moved: bool,
    /// How many nodes the group says are held.
    pub held_agents: String,
    pub cordoned: bool,
    pub held: bool,
}

/// Why a benched node was not treated as one, if it was not.
pub open spec fn bench_error(
    evidence: BenchEvidence,
    node: Seq<char>,
    resource: Seq<char>,
    group: Seq<char>,
    version: Seq<char>,
) -> Option<Seq<char>> {
    if evidence.moved {
        Some(node + " was held, so it must NOT have been moved to "@ + version)
    } else if trimmed(evidence.held_agents@) != "1"@ {
        Some(
            group + ".status.heldAgents reads "@ + quoted_text(evidence.held_agents@)
                + "; a forgotten hold must be a visible count, not a mystery"@,
        )
    } else if !evidence.cordoned || !evidence.held {
        Some(resource + "'s own status does not carry its hold and cordon"@)
    } else {
        None
    }
}

/// Whether a benched node was treated as one.
pub fn judge_bench(
    evidence: &BenchEvidence,
    node: &str,
    resource: &str,
    group: &str,
    version: &str,
) -> (result: Result<(), String>)
    ensures
        match result {
            Ok(_) => bench_error(*evidence, node@, resource@, group@, version@) is None,
            Err(message) => bench_error(*evidence, node@, resource@, group@, version@) == Some(
                message@,
            ),
        },
{
    if evidence.moved {
        let mut message = String::from_str(node);
        message.append(" was held, so it must NOT have been moved to ");
        message.append(version);
        return Err(message);
    }
    if !same(trim(evidence.held_agents.as_str()), "1") {
        let mut message = String::from_str(group);
        message.append(".status.heldAgents reads ");
        message.append(quoted(evidence.held_agents.as_str()).as_str());
        message.append("; a forgotten hold must be a visible count, not a mystery");
        return Err(message);
    }
    if !evidence.cordoned || !evidence.held {
        let mut message = String::from_str(resource);
        message.append("'s own status does not carry its hold and cordon");
        return Err(message);
    }
    Ok(())
}

/// The address of a node, from what was read; a message that says where it is missed.
pub fn address_in(node: &str, outcome: &str, place: &str) -> (result: Result<String, String>)
    ensures
        match result {
            Ok(address) => address@ == trimmed(outcome@) && address@.len() > 0,
            Err(message) => trimmed(outcome@).len() == 0 && message@ == node@
                + " has no address to "@ + place@,
        },
{
    let address = trim(outcome);
    if address.unicode_len() == 0 {
        let mut message = String::from_str(node);
        message.append(" has no address to ");
        message.append(place);
        Err(message)
    } else {
        Ok(address.to_owned())
    }
}

/// Whether a released node is back: it reports the version, and its address is in rotation.
pub fn is_back(reports: &Vec<bool>, addresses: &Vec<String>, address: &str) -> (result: bool)
    ensures
        result == ((forall|i: int| 0 <= i < reports@.len() ==> #[trigger] reports@[i]) && views(
            addresses@,
        ).contains(address@)),
{
    all_hold(reports) && holds(addresses, address)
}

/// Whether a node is out of rotation: its address is not among those of the service.
pub fn has_left(addresses: &Vec<String>, address: &str) -> (result: bool)
    ensures
        result == !views(addresses@).contains(address@),
{
    !holds(addresses, address)
}

/// Whether every one of some nodes does what was asked of it.
pub fn all_hold(flags: &Vec<bool>) -> (result: bool)
    ensures
        result == (forall|i: int| 0 <= i < flags@.len() ==> #[trigger] flags@[i]),
{
    let mut index: usize = 0;
    while index < flags.len()
        invariant
            index <= flags.len(),
            forall|i: int| 0 <= i < index ==> #[trigger] flags@[i],
        decreases flags.len() - index,
    {
        if !flags[index] {
            assert(!flags@[index as int]);
            return false;
        }
        index = index + 1;
    }
    true
}

fn one_holds(flags: &Vec<bool>) -> (result: bool)
    ensures
        result == (exists|i: int| 0 <= i < flags@.len() && #[trigger] flags@[i]),
{
    let mut index: usize = 0;
    while index < flags.len()
        invariant
            index <= flags.len(),
            forall|i: int| 0 <= i < index ==> !#[trigger] flags@[i],
        decreases flags.len() - index,
    {
        if flags[index] {
            assert(flags@[index as int]);
            return true;
        }
        index = index + 1;
    }
    false
}

// ----- staleness -----

/// The message about a rollout that advanced past a silent node.
pub fn silent_node_passed(peer: &str, version: &str) -> (result: String)
    ensures
        result@ == peer@ + " was moved to "@ + version@
            + " while its group's other node was silent: the rollout advanced past a node nothing is known about"@,
{
    let mut message = String::from_str(peer);
    message.append(" was moved to ");
    message.append(version);
    message.append(
        " while its group's other node was silent: the rollout advanced past a node nothing is known about",
    );
    message
}

// ----- regression rollback -----

/// The steps of the rollback scenario, in order.
#[derive(Clone, Copy, PartialEq, Eq, Structural, Debug)]
pub enum RollbackStep {
    /// Lets the cohort's sets answer a regression with a rollback.
    AllowRollback,
    DeployBroken,
    /// Waits until the cohort holds its predecessor and a node has rejected the bytes.
    AwaitContained,
    /// Waits until the set records the halt as answered by a rollback.
    AwaitAnswered,
    RestartController,
    /// Waits until the restarted controller shows that it still refuses the bytes.
    AwaitRemembered,
    DeployFixed,
    AwaitConverged,
    /// Waits until the halt is gone.
    AwaitCleared,
    /// Lets the sets answer a regression with a halt again.
    RestoreHalt,
    Done,
}

/// The step after a step.
pub open spec fn rollback_after(step: RollbackStep) -> RollbackStep {
    match step {
        RollbackStep::AllowRollback => RollbackStep::DeployBroken,
        RollbackStep::DeployBroken => RollbackStep::AwaitContained,
        RollbackStep::AwaitContained => RollbackStep::AwaitAnswered,
        RollbackStep::AwaitAnswered => RollbackStep::RestartController,
        RollbackStep::RestartController => RollbackStep::AwaitRemembered,
        RollbackStep::AwaitRemembered => RollbackStep::DeployFixed,
        RollbackStep::DeployFixed => RollbackStep::AwaitConverged,
        RollbackStep::AwaitConverged => RollbackStep::AwaitCleared,
        RollbackStep::AwaitCleared => RollbackStep::RestoreHalt,
        RollbackStep::RestoreHalt => RollbackStep::Done,
        RollbackStep::Done => RollbackStep::Done,
    }
}

/// What was read for the rollback scenario: of each member whether it is ready on the predecessor,
/// on the corrected release, and whether it has rejected the broken one; which deployments the set
/// has halted; and whether it has rolled the broken one back.
pub struct RollbackEvidence {
    pub on_predecessor: Vec<bool>,
    pub on_fixed: Vec<bool>,
    pub rejecting: Vec<bool>,
    pub halted: Vec<String>,
    pub rolled_back: bool,
}

/// Whether what a step waits for is there; a step that waits for nothing has nothing to miss.
pub open spec fn rollback_met(
    step: RollbackStep,
    evidence: RollbackEvidence,
    deployment: Seq<char>,
) -> bool {
    let holding = forall|i: int|
        0 <= i < evidence.on_predecessor@.len() ==> #[trigger] evidence.on_predecessor@[i];
    let rejected = exists|i: int|
        0 <= i < evidence.rejecting@.len() && #[trigger] evidence.rejecting@[i];
    let halted = views(evidence.halted@).contains(deployment);
    match step {
        RollbackStep::AwaitContained => holding && rejected,
        RollbackStep::AwaitAnswered => halted && evidence.rolled_back,
        RollbackStep::AwaitRemembered => halted && evidence.rolled_back && holding,
        RollbackStep::AwaitConverged => forall|i: int|
            0 <= i < evidence.on_fixed@.len() ==> #[trigger] evidence.on_fixed@[i],
        RollbackStep::AwaitCleared => !halted,
        _ => true,
    }
}

/// What a step waits for, and for how long.
pub struct RollbackWait {
    pub seconds: usize,
    pub what: &'static str,
}

/// The seconds that a step waits; none where it waits for nothing.
pub open spec fn rollback_seconds(step: RollbackStep) -> Option<usize> {
    match step {
        RollbackStep::AwaitContained | RollbackStep::AwaitConverged => Some(240),
        RollbackStep::AwaitAnswered | RollbackStep::AwaitRemembered | RollbackStep::AwaitCleared =>
            Some(120),
        _ => None,
    }
}

impl RollbackStep {
    /// The step after this one.
    pub fn next(self) -> (result: RollbackStep)
        ensures
            result == rollback_after(self),
    {
        match self {
            RollbackStep::AllowRollback => RollbackStep::DeployBroken,
            RollbackStep::DeployBroken => RollbackStep::AwaitContained,
            RollbackStep::AwaitContained => RollbackStep::AwaitAnswered,
            RollbackStep::AwaitAnswered => RollbackStep::RestartController,
            RollbackStep::RestartController => RollbackStep::AwaitRemembered,
            RollbackStep::AwaitRemembered => RollbackStep::DeployFixed,
            RollbackStep::DeployFixed => RollbackStep::AwaitConverged,
            RollbackStep::AwaitConverged => RollbackStep::AwaitCleared,
            RollbackStep::AwaitCleared => RollbackStep::RestoreHalt,
            RollbackStep::RestoreHalt => RollbackStep::Done,
            RollbackStep::Done => RollbackStep::Done,
        }
    }

    /// What this step waits for, and for how long; none where it waits for nothing.
    pub fn wait(self) -> (result: Option<RollbackWait>)
        ensures
            match result {
                Some(wait) => rollback_seconds(self) == Some(wait.seconds),
                None => rollback_seconds(self) is None,
            },
            self == RollbackStep::AwaitContained ==> result->0.what@
                == "the cohort to contain the broken release and hold its predecessor"@,
            self == RollbackStep::AwaitAnswered ==> result->0.what@
                == "the set to record the halt as answered by a rollback"@,
            self == RollbackStep::AwaitRemembered ==> result->0.what@
                == "the veto to carry the halt across the controller restart"@,
            self == RollbackStep::AwaitConverged ==> result->0.what@
                == "the cohort to converge onto the corrected release"@,
            self == RollbackStep::AwaitCleared ==> result->0.what@
                == "the answered halt to clear once nothing names the body"@,
    {
        match self {
            RollbackStep::AwaitContained => Some(
                RollbackWait {
                    seconds: 240,
                    what: "the cohort to contain the broken release and hold its predecessor",
                },
            ),
            RollbackStep::AwaitAnswered => Some(
                RollbackWait {
                    seconds: 120,
                    what: "the set to record the halt as answered by a rollback",
                },
            ),
            RollbackStep::AwaitRemembered => Some(
                RollbackWait {
                    seconds: 120,
                    what: "the veto to carry the halt across the controller restart",
                },
            ),
            RollbackStep::AwaitConverged => Some(
                RollbackWait {
                    seconds: 240,
                    what: "the cohort to converge onto the corrected release",
                },
            ),
            RollbackStep::AwaitCleared => Some(
                RollbackWait {
                    seconds: 120,
                    what: "the answered halt to clear once nothing names the body",
                },
            ),
            _ => None,
        }
    }

    /// Whether what this step waits for is there.
    pub fn is_met(self, evidence: &RollbackEvidence, deployment: &str) -> (result: bool)
        ensures
            result == rollback_met(self, *evidence, deployment@),
    {
        match self {
            RollbackStep::AwaitContained => all_hold(&evidence.on_predecessor) && one_holds(
                &evidence.rejecting,
            ),
            RollbackStep::AwaitAnswered => holds(&evidence.halted, deployment)
                && evidence.rolled_back,
            RollbackStep::AwaitRemembered => holds(&evidence.halted, deployment)
                && evidence.rolled_back && all_hold(&evidence.on_predecessor),
            RollbackStep::AwaitConverged => all_hold(&evidence.on_fixed),
            RollbackStep::AwaitCleared => !holds(&evidence.halted, deployment),
            _ => true,
        }
    }
}

/// The step that comes a number of steps after the first.
pub open spec fn rollback_step(count: nat) -> RollbackStep
    decreases count,
{
    if count == 0 {
        RollbackStep::AllowRollback
    } else {
        rollback_after(rollback_step((count - 1) as nat))
    }
}

/// The scenario ends, after ten steps, and leaves the sets as they were; the controller is restarted
/// between the two waits that see the halt, so the second rests on a record and not on memory.
pub proof fn the_rollback_scenario_ends_where_it_began()
    ensures
        rollback_step(9) == RollbackStep::RestoreHalt,
        rollback_step(10) == RollbackStep::Done,
        rollback_step(3) == RollbackStep::AwaitAnswered,
        rollback_step(4) == RollbackStep::RestartController,
        rollback_step(5) == RollbackStep::AwaitRemembered,
{
    reveal_with_fuel(rollback_step, 11);
}

// ----- dataflow -----

/// Whether every consumer carries a value: one of what it observed is exactly that.
pub open spec fn carried_by_all(observed: Seq<Vec<Vec<u8>>>, value: Seq<u8>) -> bool {
    forall|i: int| 0 <= i < observed.len() ==> carried_by(#[trigger] observed[i]@, value)
}

/// Whether one of some observations is exactly a value.
pub open spec fn carried_by(observed: Seq<Vec<u8>>, value: Seq<u8>) -> bool {
    exists|i: int| 0 <= i < observed.len() && (#[trigger] observed[i])@ == value
}

fn same_bytes(left: &Vec<u8>, right: &Vec<u8>) -> (result: bool)
    ensures
        result == (left@ == right@),
{
    if left.len() != right.len() {
        return false;
    }
    let mut index: usize = 0;
    while index < left.len()
        invariant
            index <= left.len(),
            left@.len() == right@.len(),
            forall|i: int| 0 <= i < index ==> left@[i] == right@[i],
        decreases left.len() - index,
    {
        if left[index] != right[index] {
            assert(left@[index as int] != right@[index as int]);
            return false;
        }
        index = index + 1;
    }
    assert(left@ =~= right@);
    true
}

fn is_carried(observed: &Vec<Vec<u8>>, value: &Vec<u8>) -> (result: bool)
    ensures
        result == carried_by(observed@, value@),
{
    let mut index: usize = 0;
    while index < observed.len()
        invariant
            index <= observed.len(),
            forall|i: int| 0 <= i < index ==> (#[trigger] observed@[i])@ != value@,
        decreases observed.len() - index,
    {
        if same_bytes(&observed[index], value) {
            assert(observed@[index as int]@ == value@);
            return true;
        }
        index = index + 1;
    }
    false
}

/// Whether every consumer carries a value, byte for byte. `observed` lists what each of them has
/// observed.
pub fn inputs_carry(observed: &Vec<Vec<Vec<u8>>>, value: &Vec<u8>) -> (result: bool)
    ensures
        result == carried_by_all(observed@, value@),
{
    let mut index: usize = 0;
    while index < observed.len()
        invariant
            index <= observed.len(),
            forall|i: int| 0 <= i < index ==> carried_by(#[trigger] observed@[i]@, value@),
        decreases observed.len() - index,
    {
        if !is_carried(&observed[index], value) {
            assert(!carried_by(observed@[index as int]@, value@));
            return false;
        }
        index = index + 1;
    }
    true
}

// ----- schedules -----

/// A minute of the day as a clock shows it.
pub open spec fn clock_text(minute: nat) -> Seq<char> {
    crate::text::two_digits(minute / 60) + ":"@ + crate::text::two_digits(minute % 60)
}

fn write_clock(minute: u64) -> (result: String)
    ensures
        result@ == clock_text(minute as nat),
{
    let mut text = crate::text::padded(minute / 60);
    text.append(":");
    text.append(crate::text::padded(minute % 60).as_str());
    text
}

/// A window of rollouts, as the clock shows its ends.
pub struct RolloutWindow {
    pub start: String,
    pub end: String,
}

/// A window of one minute, six hours after a minute of the day: closed at that minute, whichever it
/// is.
pub fn closed_window(minute: u64) -> (result: RolloutWindow)
    requires
        minute < 1440,
    ensures
        result.start@ == clock_text(((minute + 360) % 1440) as nat),
        result.end@ == clock_text(((minute + 361) % 1440) as nat),
{
    RolloutWindow {
        start: write_clock((minute + 360) % 1440),
        end: write_clock((minute + 361) % 1440),
    }
}

/// The window is closed for the next six hours: it opens no sooner.
pub proof fn the_window_stays_closed(minute: int, later: int)
    requires
        0 <= minute < 1440,
        0 <= later < 360,
    ensures
        (minute + later) % 1440 != (minute + 360) % 1440,
{
}

/// Whether a set says that a group's correction is an emergency.
pub fn lists_emergency(words: &Vec<String>, group: &str) -> (result: bool)
    ensures
        result == views(words@).contains(group@),
{
    holds(words, group)
}

/// The message about a group that moved while its set was closed.
pub fn moved_while_closed(group: &str, version: &str) -> (result: String)
    ensures
        result@ == group@ + " moved off "@ + version@ + " while its set's schedule was closed"@,
{
    let mut message = String::from_str(group);
    message.append(" moved off ");
    message.append(version);
    message.append(" while its set's schedule was closed");
    message
}

// ----- quarantine -----

/// A digest that no release can have.
pub const IMPOSSIBLE_DIGEST: &'static str = "zzzzzzzzzzzzzzzzzzzzzzzzzzzzzzzzzzzzzzzzzzzzzzzzzzzzzzzzzzzzzzzz";

/// The digest that stands for none is as long as a digest, and is not written as one.
pub proof fn the_impossible_digest_is_none()
    ensures
        IMPOSSIBLE_DIGEST@.len() == 64,
        exists|i: int| 0 <= i < 64 && !is_hex(#[trigger] IMPOSSIBLE_DIGEST@[i]),
{
    reveal_strlit("zzzzzzzzzzzzzzzzzzzzzzzzzzzzzzzzzzzzzzzzzzzzzzzzzzzzzzzzzzzzzzzz");
    assert(!is_hex(IMPOSSIBLE_DIGEST@[0]));
}

/// Whether a group is in quarantine, by the reason it gives; one that gives none is not known to be.
pub fn is_quarantined(reason: &Option<String>) -> (result: bool)
    ensures
        result == (view_of(*reason) == Some("InvalidDeployment"@)),
{
    match reason {
        Some(text) => same(text.as_str(), "InvalidDeployment"),
        None => false,
    }
}

/// Whether a group has left its quarantine: it gives another reason.
pub fn is_released(reason: &Option<String>) -> (result: bool)
    ensures
        result == (reason is Some && view_of(*reason) != Some("InvalidDeployment"@)),
{
    match reason {
        Some(text) => !same(text.as_str(), "InvalidDeployment"),
        None => false,
    }
}

/// The message about a node that moved while its group was in quarantine.
pub fn moved_in_quarantine(member: &str, version: &str) -> (result: String)
    ensures
        result@ == member@ + " left "@ + version@
            + " while its group was quarantined — an ungated swap"@,
{
    let mut message = String::from_str(member);
    message.append(" left ");
    message.append(version);
    message.append(" while its group was quarantined — an ungated swap");
    message
}

/// A benched node was treated as one exactly when it was not moved, its group shows one held node, and it
/// shows both its hold and its cordon.
pub proof fn a_benched_node_shows(
    evidence: BenchEvidence,
    node: Seq<char>,
    resource: Seq<char>,
    group: Seq<char>,
    version: Seq<char>,
)
    ensures
        bench_error(evidence, node, resource, group, version) is None <==> !evidence.moved && trimmed(
            evidence.held_agents@,
        ) == "1"@ && evidence.cordoned && evidence.held,
{
}

/// What each step of the rollback scenario waits for: containment takes every node on the predecessor and
/// one that rejected; an answered halt is listed and rolled back; one that is remembered holds every node
/// besides; convergence takes every node on the corrected release; and a cleared halt is listed no more.
pub proof fn rollback_waits_take_all_their_evidence(
    evidence: RollbackEvidence,
    deployment: Seq<char>,
    index: int,
)
    ensures
        rollback_met(RollbackStep::AwaitContained, evidence, deployment) && 0 <= index
            < evidence.on_predecessor@.len() ==> evidence.on_predecessor@[index],
        rollback_met(RollbackStep::AwaitContained, evidence, deployment) ==> exists|i: int|
            0 <= i < evidence.rejecting@.len() && #[trigger] evidence.rejecting@[i],
        rollback_met(RollbackStep::AwaitAnswered, evidence, deployment) <==> views(
            evidence.halted@,
        ).contains(deployment) && evidence.rolled_back,
        rollback_met(RollbackStep::AwaitRemembered, evidence, deployment) ==> views(
            evidence.halted@,
        ).contains(deployment) && evidence.rolled_back,
        rollback_met(RollbackStep::AwaitRemembered, evidence, deployment) && 0 <= index
            < evidence.on_predecessor@.len() ==> evidence.on_predecessor@[index],
        rollback_met(RollbackStep::AwaitConverged, evidence, deployment) && 0 <= index
            < evidence.on_fixed@.len() ==> evidence.on_fixed@[index],
        rollback_met(RollbackStep::AwaitCleared, evidence, deployment) <==> !views(
            evidence.halted@,
        ).contains(deployment),
        (forall|i: int| 0 <= i < evidence.on_predecessor@.len() ==> #[trigger] evidence.on_predecessor@[i])
            && (exists|i: int| 0 <= i < evidence.rejecting@.len() && #[trigger] evidence.rejecting@[i])
            ==> rollback_met(RollbackStep::AwaitContained, evidence, deployment),
        (forall|i: int| 0 <= i < evidence.on_predecessor@.len() ==> #[trigger] evidence.on_predecessor@[i])
            && views(evidence.halted@).contains(deployment) && evidence.rolled_back ==> rollback_met(
            RollbackStep::AwaitRemembered,
            evidence,
            deployment,
        ),
        (forall|i: int| 0 <= i < evidence.on_fixed@.len() ==> #[trigger] evidence.on_fixed@[i])
            ==> rollback_met(RollbackStep::AwaitConverged, evidence, deployment),
{
}

/// The rollback scenario takes its steps in one order, and waits two minutes for a record and four for
/// the cohort.
pub proof fn the_rollback_scenario_takes_its_steps_in_order()
    ensures
        rollback_step(0) == RollbackStep::AllowRollback,
        rollback_step(1) == RollbackStep::DeployBroken,
        rollback_step(2) == RollbackStep::AwaitContained,
        rollback_step(6) == RollbackStep::DeployFixed,
        rollback_step(7) == RollbackStep::AwaitConverged,
        rollback_step(8) == RollbackStep::AwaitCleared,
        rollback_after(RollbackStep::Done) == RollbackStep::Done,
        rollback_seconds(RollbackStep::AwaitContained) == Some(240usize),
        rollback_seconds(RollbackStep::AwaitConverged) == Some(240usize),
        rollback_seconds(RollbackStep::AwaitAnswered) == Some(120usize),
        rollback_seconds(RollbackStep::AwaitRemembered) == Some(120usize),
        rollback_seconds(RollbackStep::AwaitCleared) == Some(120usize),
        rollback_seconds(RollbackStep::DeployBroken) is None,
        rollback_seconds(RollbackStep::DeployFixed) is None,
        rollback_seconds(RollbackStep::RestartController) is None,
{
    reveal_with_fuel(rollback_step, 11);
}

/// A value is carried only where every consumer has observed it, byte for byte, and it is where every one
/// has.
pub proof fn every_consumer_carries_the_value(observed: Seq<Vec<Vec<u8>>>, value: Seq<u8>, index: int)
    requires
        0 <= index < observed.len(),
    ensures
        carried_by_all(observed, value) ==> exists|j: int|
            0 <= j < observed[index]@.len() && (#[trigger] observed[index]@[j])@ == value,
        (forall|j: int|
            0 <= j < observed[index]@.len() ==> (#[trigger] observed[index]@[j])@ != value)
            ==> !carried_by_all(observed, value),
        observed.len() == 1 ==> (carried_by_all(observed, value) <==> exists|j: int|
            0 <= j < observed[index]@.len() && (#[trigger] observed[index]@[j])@ == value),
{
    if carried_by_all(observed, value) {
        assert(carried_by(observed[index]@, value));
    }
    if exists|j: int| 0 <= j < observed[index]@.len() && (#[trigger] observed[index]@[j])@ == value {
        assert(carried_by(observed[index]@, value));
    }
}

/// A clock shows each minute of the day in its own way, hours before minutes.
pub proof fn clocks_tell_minutes_apart(left: nat, right: nat)
    requires
        left < 1440,
        right < 1440,
    ensures
        clock_text(left) == clock_text(right) ==> left == right,
        clock_text(left).len() == 5,
        clock_text(left)[2] == ':',
        clock_text(left).take(2) == crate::text::two_digits(left / 60),
        clock_text(left).skip(3) == crate::text::two_digits(left % 60),
{
    lemma_two_long(left / 60);
    lemma_two_long(left % 60);
    lemma_two_long(right / 60);
    lemma_two_long(right % 60);
    reveal_strlit(":");
    assert(clock_text(left).take(2) =~= crate::text::two_digits(left / 60));
    assert(clock_text(left).skip(3) =~= crate::text::two_digits(left % 60));
    assert(clock_text(right).take(2) =~= crate::text::two_digits(right / 60));
    assert(clock_text(right).skip(3) =~= crate::text::two_digits(right % 60));
    if clock_text(left) == clock_text(right) {
        crate::naming::two_digits_are_injective(left / 60, right / 60);
        crate::naming::two_digits_are_injective(left % 60, right % 60);
    }
}

proof fn lemma_two_long(number: nat)
    requires
        number < 100,
    ensures
        crate::text::two_digits(number).len() == 2,
{
    reveal_strlit("0");
    reveal_with_fuel(crate::text::decimal_digits, 3);
}

/// A release is broken exactly where its entry point is no program, and publishing it differs in nothing
/// else.
pub proof fn only_the_entry_point_is_broken(
    groups: Seq<Seq<char>>,
    version: Seq<char>,
    platform: Seq<char>,
    provider: (Seq<char>, Seq<char>),
) -> (ends: (Seq<char>, Seq<char>))
    ensures
        entry_point_step(true)
            == "printf 'intentionally corrupt entrypoint\\n' >/tmp/gen/bin/app"@,
        entry_point_step(false) == "cp /usr/local/bin/sampleapp /tmp/gen/bin/app"@,
        deploy_script(groups, version, true, platform, provider) == ends.0 + entry_point_step(true)
            + ends.1,
        deploy_script(groups, version, false, platform, provider) == ends.0 + entry_point_step(
            false,
        ) + ends.1,
{
    let head = SCRIPT_HEAD@ + "rm -rf /tmp/gen && mkdir -p /tmp/gen/bin /tmp/gen/config; "@;
    let tail = "; chmod 0755 /tmp/gen/bin/app; printf 'version = \""@ + version
        + "\"\\n' >/tmp/gen/config/release.toml; "@ + joined(
        deploy_steps(groups, version, platform, provider),
        "; "@,
    );
    lemma_script(groups, version, true, platform, provider, head, tail);
    lemma_script(groups, version, false, platform, provider, head, tail);
    (head, tail)
}

proof fn lemma_script(
    groups: Seq<Seq<char>>,
    version: Seq<char>,
    broken: bool,
    platform: Seq<char>,
    provider: (Seq<char>, Seq<char>),
    head: Seq<char>,
    tail: Seq<char>,
)
    requires
        head == SCRIPT_HEAD@ + "rm -rf /tmp/gen && mkdir -p /tmp/gen/bin /tmp/gen/config; "@,
        tail == "; chmod 0755 /tmp/gen/bin/app; printf 'version = \""@ + version
            + "\"\\n' >/tmp/gen/config/release.toml; "@ + joined(
            deploy_steps(groups, version, platform, provider),
            "; "@,
        ),
    ensures
        deploy_script(groups, version, broken, platform, provider) == head + entry_point_step(broken)
            + tail,
{
    let parts = seq![
        SCRIPT_HEAD@,
        "rm -rf /tmp/gen && mkdir -p /tmp/gen/bin /tmp/gen/config; "@,
        entry_point_step(broken),
        "; chmod 0755 /tmp/gen/bin/app; printf 'version = \""@,
        version,
        "\"\\n' >/tmp/gen/config/release.toml; "@,
        joined(deploy_steps(groups, version, platform, provider), "; "@),
    ];
    reveal_with_fuel(glued, 8);
    let six = parts.drop_last();
    let five = six.drop_last();
    let four = five.drop_last();
    let three = four.drop_last();
    let two = three.drop_last();
    let one = two.drop_last();
    assert(one.drop_last().len() == 0);
    assert(parts.last() == parts[6] && six.last() == parts[5] && five.last() == parts[4]
        && four.last() == parts[3] && three.last() == parts[2] && two.last() == parts[1]
        && one.last() == parts[0]);
    assert(glued(parts) =~= head + entry_point_step(broken) + tail);
}

/// A release is rolled to every group, in order, each with the reconciler that it is signed with.
pub proof fn every_group_is_rolled(
    groups: Seq<Seq<char>>,
    version: Seq<char>,
    platform: Seq<char>,
    provider: (Seq<char>, Seq<char>),
    place: int,
)
    requires
        0 <= place < groups.len(),
    ensures
        deploy_steps(groups, version, platform, provider).len() == groups.len(),
        deploy_steps(groups, version, platform, provider)[place] == deploy_step(
            groups[place],
            version,
            platform,
            provider,
        ),
        provider_flags(provider) == " --provider-set-path "@ + provider.0
            + " --provider-set-sha256 "@ + provider.1,
{
}

/// A step of the rollback scenario that does not wait has nothing to miss, whatever was read.
pub proof fn only_waits_can_be_missed(
    step: RollbackStep,
    evidence: RollbackEvidence,
    deployment: Seq<char>,
)
    ensures
        rollback_seconds(step) is None ==> rollback_met(step, evidence, deployment),
{
}

} // verus!
