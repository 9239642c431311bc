//! The soak fleet: which agent belongs where, when it has converged, and when a group has rejected
//! a release.

use crate::demo::fleet::lemma_filter_push;
use crate::labels::{get_label, label_of, Label};
use crate::naming::{agent_hostname, agent_name};
use crate::resources::{label, pairs};
use crate::soak::config::text_or;
use crate::soak::plan::{soak_group, soak_groups};
use crate::soak::rounds::{find_version, version_for};
use crate::soak::state::{desired_view, GroupVersion};
use crate::text::{decimal, decimal_digits, join, joined, same, view_of, views};
use vstd::prelude::*;

verus! {

/// The label of everything the soak fleet manages.
pub const SOAK_FLEET_LABEL: &'static str = "soak.updated.dev/fleet";

pub const SOAK_FLEET_VALUE: &'static str = "managed";

/// The label that says which group an agent belongs to.
pub const SOAK_COHORT_LABEL: &'static str = "soak.updated.dev/cohort";

/// The label that says which node an agent is.
pub const SOAK_NODE_LABEL: &'static str = "soak.updated.dev/node";

/// The group of an agent.
pub open spec fn group_of(ordinal: int) -> Seq<char> {
    soak_groups()[ordinal % 3]
}

/// The group of an agent.
pub fn agent_group(ordinal: usize) -> (result: &'static str)
    ensures
        result@ == group_of(ordinal as int),
{
    soak_group(ordinal % 3)
}

// ----- enrollment -----

/// An agent as far as its enrollment goes.
pub struct EnrolledAgent {
    /// Whether it enrolled itself, as against being listed.
    pub enrolled: bool,
    pub labels: Vec<Label>,
}

/// What an agent's enrollment still needs.
pub enum Enrollment {
    /// It is not there yet.
    Awaited,
    /// Its labels are to be replaced by these.
    Relabel(Vec<Label>),
    Settled,
}

/// The labels that an agent is to carry, and no others.
pub open spec fn assigned_labels(ordinal: nat) -> Seq<(Seq<char>, Seq<char>)> {
    seq![
        (SOAK_COHORT_LABEL@, group_of(ordinal as int)),
        (SOAK_NODE_LABEL@, agent_name(ordinal)),
    ]
}

/// Whether labels are those that an agent is to carry.
pub open spec fn carries_assignment(labels: Seq<Label>, ordinal: nat) -> bool {
    &&& view_of(label_of(labels, SOAK_COHORT_LABEL@)) == Some(group_of(ordinal as int))
    &&& view_of(label_of(labels, SOAK_NODE_LABEL@)) == Some(agent_name(ordinal))
    &&& forall|i: int|
        0 <= i < labels.len() ==> (#[trigger] labels[i]).key@ == SOAK_COHORT_LABEL@
            || labels[i].key@ == SOAK_NODE_LABEL@
}

fn is_text(found: &Option<String>, text: &str) -> (result: bool)
    ensures
        result == (view_of(*found) == Some(text@)),
{
    match found {
        Some(value) => same(value.as_str(), text),
        None => false,
    }
}

fn has_assignment(labels: &Vec<Label>, ordinal: usize) -> (result: bool)
    ensures
        result == carries_assignment(labels@, ordinal as nat),
{
    if !is_text(&get_label(labels, SOAK_COHORT_LABEL), agent_group(ordinal)) {
        return false;
    }
    if !is_text(&get_label(labels, SOAK_NODE_LABEL), agent_hostname(ordinal).as_str()) {
        return false;
    }
    let mut index: usize = 0;
    while index < labels.len()
        invariant
            index <= labels.len(),
            forall|i: int|
                0 <= i < index ==> (#[trigger] labels@[i]).key@ == SOAK_COHORT_LABEL@
                    || labels@[i].key@ == SOAK_NODE_LABEL@,
        decreases labels.len() - index,
    {
        let key = labels[index].key.as_str();
        if !same(key, SOAK_COHORT_LABEL) && !same(key, SOAK_NODE_LABEL) {
            assert(labels@[index as int].key@ == key@);
            return false;
        }
        index = index + 1;
    }
    true
}

/// What the enrollment of the agent with this ordinal still needs.
pub fn check_enrollment(agent: &Option<EnrolledAgent>, ordinal: usize) -> (result: Enrollment)
    ensures
        match (*agent, result) {
            (None, _) => result is Awaited,
            (Some(found), Enrollment::Awaited) => !found.enrolled,
            (Some(found), Enrollment::Settled) => found.enrolled && carries_assignment(
                found.labels@,
                ordinal as nat,
            ),
            (Some(found), Enrollment::Relabel(labels)) => found.enrolled && !carries_assignment(
                found.labels@,
                ordinal as nat,
            ) && pairs(labels@) == assigned_labels(ordinal as nat),
        },
{
    match agent {
        None => Enrollment::Awaited,
        Some(found) => {
            if !found.enrolled {
                return Enrollment::Awaited;
            }
            if has_assignment(&found.labels, ordinal) {
                return Enrollment::Settled;
            }
            let labels: Vec<Label> = vec![
                label(SOAK_COHORT_LABEL, agent_group(ordinal)),
                label(SOAK_NODE_LABEL, agent_hostname(ordinal).as_str()),
            ];
            assert(pairs(labels@) =~= assigned_labels(ordinal as nat));
            Enrollment::Relabel(labels)
        },
    }
}

/// Replacing an agent's labels settles it: a second look finds nothing to do.
pub proof fn relabelling_settles(labels: Seq<Label>, ordinal: nat)
    requires
        pairs(labels) == assigned_labels(ordinal),
    ensures
        carries_assignment(labels, ordinal),
{
    let goal = assigned_labels(ordinal);
    assert(pairs(labels).len() == 2);
    assert(pairs(labels)[0] == goal[0] && pairs(labels)[1] == goal[1]);
    assert(labels.last() == labels[1] && labels.drop_last().last() == labels[0]);
    reveal_strlit("soak.updated.dev/cohort");
    reveal_strlit("soak.updated.dev/node");
    assert(SOAK_COHORT_LABEL@.len() != SOAK_NODE_LABEL@.len());
    reveal_with_fuel(label_of, 3);
}

// ----- convergence -----

/// What an agent reports.
pub struct AgentReport {
    pub group: Option<String>,
    pub version: Option<String>,
    pub ready: Option<bool>,
}

/// Whether an agent was selected into a group and reports, ready, its version.
pub open spec fn has_converged(report: AgentReport, group: Seq<char>, version: Seq<char>) -> bool {
    view_of(report.group) == Some(group) && view_of(report.version) == Some(version)
        && report.ready == Some(true)
}

/// Whether an agent was selected into a group and reports, ready, its version.
pub fn agent_is_converged(report: &AgentReport, group: &str, version: &str) -> (result: bool)
    ensures
        result == has_converged(*report, group@, version@),
        result ==> report.ready == Some(true),
{
    let ready = match report.ready {
        Some(ready) => ready,
        None => false,
    };
    is_text(&report.group, group) && is_text(&report.version, version) && ready
}

fn use_text_or(text: &Option<String>, missing: &str) -> (result: String)
    ensures
        result@ == text_or(*text, missing@),
{
    match text {
        Some(found) => found.clone(),
        None => missing.to_owned(),
    }
}

/// How an agent lags, in a message.
pub open spec fn lag_text(ordinal: nat, agent: Option<AgentReport>) -> Seq<char> {
    match agent {
        None => agent_name(ordinal) + "=missing"@,
        Some(report) => agent_name(ordinal) + "="@ + text_or(report.group, "unassigned"@) + "/"@
            + text_or(report.version, "unknown"@) + "/"@ + (if report.ready == Some(true) {
            "true"@
        } else {
            "false"@
        }),
    }
}

fn write_lag(ordinal: usize, agent: &Option<AgentReport>) -> (result: String)
    ensures
        result@ == lag_text(ordinal as nat, *agent),
{
    let mut text = agent_hostname(ordinal);
    match agent {
        None => {
            text.append("=missing");
        },
        Some(report) => {
            text.append("=");
            text.append(use_text_or(&report.group, "unassigned").as_str());
            text.append("/");
            text.append(use_text_or(&report.version, "unknown").as_str());
            text.append("/");
            let ready = match report.ready {
                Some(ready) => ready,
                None => false,
            };
            text.append(
                if ready {
                    "true"
                } else {
                    "false"
                },
            );
        },
    }
    text
}

/// Whether an agent has converged on what is desired of its group.
pub open spec fn agent_is_settled(
    agent: Option<AgentReport>,
    ordinal: int,
    desired: Seq<(Seq<char>, Seq<char>)>,
) -> bool {
    match (agent, version_for(desired, group_of(ordinal))) {
        (Some(report), Some(version)) => has_converged(report, group_of(ordinal), version),
        _ => false,
    }
}

/// How the first `count` agents stand: how many have converged and how the others lag; a message
/// where nothing is desired of the group of one of them.
pub open spec fn fleet_standing(
    agents: Seq<Option<AgentReport>>,
    desired: Seq<(Seq<char>, Seq<char>)>,
    count: int,
) -> Result<(nat, Seq<Seq<char>>), Seq<char>>
    decreases count,
{
    if count <= 0 {
        Ok((0, Seq::empty()))
    } else {
        match fleet_standing(agents, desired, count - 1) {
            Err(message) => Err(message),
            Ok(standing) => if version_for(desired, group_of(count - 1)) is None {
                Err("no desired version for "@ + group_of(count - 1))
            } else if agent_is_settled(agents[count - 1], count - 1, desired) {
                Ok((standing.0 + 1, standing.1))
            } else {
                Ok((standing.0, standing.1.push(lag_text((count - 1) as nat, agents[count - 1]))))
            },
        }
    }
}

/// How a fleet stands.
pub struct Standing {
    pub converged: usize,
    pub lagging: Vec<String>,
}

/// How a fleet stands; the agents come in the order of their ordinals.
pub fn check_fleet(agents: &Vec<Option<AgentReport>>, desired: &Vec<GroupVersion>) -> (result: Result<
    Standing,
    String,
>)
    ensures
        match (result, fleet_standing(agents@, desired_view(desired@), agents@.len() as int)) {
            (Ok(found), Ok(standing)) => found.converged == standing.0 && views(found.lagging@)
                == standing.1,
            (Err(found), Err(message)) => found@ == message,
            _ => false,
        },
{
    let ghost wanted = desired_view(desired@);
    let mut converged: usize = 0;
    let mut lagging: Vec<String> = Vec::new();
    let mut index: usize = 0;
    assert(views(lagging@) =~= Seq::<Seq<char>>::empty());
    while index < agents.len()
        invariant
            index <= agents.len(),
            converged <= index,
            wanted == desired_view(desired@),
            fleet_standing(agents@, wanted, index as int) == Ok::<
                (nat, Seq<Seq<char>>),
                Seq<char>,
            >((converged as nat, views(lagging@))),
        decreases agents.len() - index,
    {
        let group = agent_group(index);
        let version = match find_version(desired, group) {
            Some(version) => version,
            None => {
                let mut message = String::from_str("no desired version for ");
                message.append(group);
                proof {
                    lemma_standing_stops(agents@, wanted, index + 1, agents@.len() as int);
                }
                return Err(message);
            },
        };
        let settled = match &agents[index] {
            Some(report) => agent_is_converged(report, group, version.as_str()),
            None => false,
        };
        assert(settled == agent_is_settled(agents@[index as int], index as int, wanted));
        if settled {
            converged = converged + 1;
        } else {
            let ghost before = lagging@;
            let lag = write_lag(index, &agents[index]);
            lagging.push(lag);
            assert(views(lagging@) =~= views(before).push(lag@));
        }
        index = index + 1;
    }
    Ok(Standing { converged, lagging })
}

proof fn lemma_standing_stops(
    agents: Seq<Option<AgentReport>>,
    desired: Seq<(Seq<char>, Seq<char>)>,
    count: int,
    total: int,
)
    requires
        0 <= count <= total,
        fleet_standing(agents, desired, count) is Err,
    ensures
        fleet_standing(agents, desired, total) == fleet_standing(agents, desired, count),
    decreases total - count,
{
    if count < total {
        lemma_standing_stops(agents, desired, count, total - 1);
    }
}

/// A fleet counts as converged exactly when every one of its agents reports, ready, the version
/// desired of its group.
pub proof fn a_fleet_converges_with_its_last_agent(
    agents: Seq<Option<AgentReport>>,
    desired: Seq<(Seq<char>, Seq<char>)>,
    count: int,
)
    requires
        0 <= count <= agents.len(),
        fleet_standing(agents, desired, count) is Ok,
    ensures
        fleet_standing(agents, desired, count)->Ok_0.0 <= count,
        fleet_standing(agents, desired, count)->Ok_0.0 + fleet_standing(
            agents,
            desired,
            count,
        )->Ok_0.1.len() == count,
        (fleet_standing(agents, desired, count)->Ok_0.0 == count) <==> (forall|i: int|
            0 <= i < count ==> agent_is_settled(#[trigger] agents[i], i, desired)),
    decreases count,
{
    if count > 0 {
        a_fleet_converges_with_its_last_agent(agents, desired, count - 1);
        let standing = fleet_standing(agents, desired, count - 1)->Ok_0;
        if standing.0 == count - 1 && agent_is_settled(agents[count - 1], count - 1, desired) {
            assert forall|i: int| 0 <= i < count implies agent_is_settled(
                #[trigger] agents[i],
                i,
                desired,
            ) by {}
        }
    }
}

/// An agent counts as converged exactly when it reports the group and the version to the letter and
/// reports that it is ready: one that reports that it is not, or reports nothing of it, never does.
pub proof fn converged_agents_report_ready(report: AgentReport, group: Seq<char>, version: Seq<char>)
    ensures
        report.ready == Some(false) ==> !has_converged(report, group, version),
        report.ready is None ==> !has_converged(report, group, version),
        report.group is None || report.version is None ==> !has_converged(report, group, version),
        has_converged(report, group, version) <==> report.ready == Some(true) && report.group is Some
            && report.group->Some_0@ == group && report.version is Some && report.version->Some_0@
            == version,
{
}

/// Whether the agent with an ordinal reports, ready, the group and version that are its own.
pub open spec fn reports_as_desired(
    agents: Seq<Option<AgentReport>>,
    desired: Seq<(Seq<char>, Seq<char>)>,
) -> spec_fn(int) -> bool {
    |ordinal: int|
        {
            &&& agents[ordinal] is Some
            &&& agents[ordinal]->Some_0.ready == Some(true)
            &&& view_of(agents[ordinal]->Some_0.group) == Some(soak_groups()[ordinal % 3])
            &&& view_of(agents[ordinal]->Some_0.version) is Some
            &&& view_of(agents[ordinal]->Some_0.version) == version_for(
                desired,
                soak_groups()[ordinal % 3],
            )
        }
}

/// As many agents of a fleet count as converged as report, ready, the group of their ordinal and the
/// version desired of it; each of the others is listed as lagging.
pub proof fn converged_agents_are_counted(
    agents: Seq<Option<AgentReport>>,
    desired: Seq<(Seq<char>, Seq<char>)>,
    count: int,
)
    requires
        0 <= count <= agents.len(),
        fleet_standing(agents, desired, count) is Ok,
    ensures
        fleet_standing(agents, desired, count)->Ok_0.0 == Seq::new(
            count as nat,
            |i: int| i,
        ).filter(reports_as_desired(agents, desired)).len(),
        fleet_standing(agents, desired, count)->Ok_0.0 + fleet_standing(
            agents,
            desired,
            count,
        )->Ok_0.1.len() == count,
    decreases count,
{
    let ordinals = Seq::new(count as nat, |i: int| i);
    reveal(Seq::filter);
    if count > 0 {
        converged_agents_are_counted(agents, desired, count - 1);
        let before = Seq::new((count - 1) as nat, |i: int| i);
        assert(ordinals =~= before.push(count - 1));
        lemma_filter_push(before, count - 1, reports_as_desired(agents, desired));
        assert(agent_is_settled(agents[count - 1], count - 1, desired) == reports_as_desired(
            agents,
            desired,
        )(count - 1));
    }
}

/// A fleet with an agent that is missing, reports another group, or does not report that it is ready
/// counts fewer converged agents than it has.
pub proof fn an_agent_that_is_not_ready_holds_its_fleet_back(
    agents: Seq<Option<AgentReport>>,
    desired: Seq<(Seq<char>, Seq<char>)>,
    count: int,
    ordinal: int,
)
    requires
        0 <= ordinal < count <= agents.len(),
        fleet_standing(agents, desired, count) is Ok,
        agents[ordinal] is None || agents[ordinal]->Some_0.ready != Some(true) || view_of(
            agents[ordinal]->Some_0.group,
        ) != Some(soak_groups()[ordinal % 3]),
    ensures
        fleet_standing(agents, desired, count)->Ok_0.0 < count,
        fleet_standing(agents, desired, count)->Ok_0.1.len() > 0,
{
    a_fleet_converges_with_its_last_agent(agents, desired, count);
    assert(!agent_is_settled(agents[ordinal], ordinal, desired));
}

/// A fleet has no standing exactly when nothing is desired of the group of one of its agents.
pub proof fn a_standing_takes_a_version_for_every_group(
    agents: Seq<Option<AgentReport>>,
    desired: Seq<(Seq<char>, Seq<char>)>,
    count: int,
)
    requires
        0 <= count <= agents.len(),
    ensures
        fleet_standing(agents, desired, count) is Err <==> exists|i: int|
            0 <= i < count && version_for(desired, soak_groups()[#[trigger] (i % 3)]) is None,
    decreases count,
{
    if count > 0 {
        a_standing_takes_a_version_for_every_group(agents, desired, count - 1);
        let last = count - 1;
        if version_for(desired, soak_groups()[last % 3]) is None {
            assert(version_for(desired, soak_groups()[last % 3]) is None);
        }
    }
}

/// The message about a fleet that did not converge in time.
pub fn fleet_timeout_message(timeout: u64, lagging: &Vec<String>) -> (result: String)
    ensures
        result@ == "fleet did not converge within "@ + decimal_digits(timeout as nat)
            + "s; lagging ["@ + joined(views(lagging@), ", "@) + "]"@,
{
    let mut message = String::from_str("fleet did not converge within ");
    message.append(decimal(timeout).as_str());
    message.append("s; lagging [");
    message.append(join(lagging, ", ").as_str());
    message.append("]");
    message
}

// ----- rejection -----

/// The words in which the controller states a verdict.
pub struct StatusWords {
    pub ready_condition: String,
    pub halted_condition: String,
    pub condition_true: String,
    pub condition_false: String,
    pub rejected_reason: String,
    pub regression_reason: String,
}

/// A condition of a group.
pub struct GroupCondition {
    pub condition_type: String,
    pub status: String,
    pub reason: String,
    pub observed_generation: Option<i64>,
}

/// What the controller says of a group.
pub struct GroupStatus {
    pub observed_generation: Option<i64>,
    pub conditions: Vec<GroupCondition>,
}

/// Whether a condition is one of the two verdicts on a generation: not ready because rejected, or
/// halted on evidence of a regression.
pub open spec fn is_verdict(condition: GroupCondition, generation: i64, words: StatusWords) -> bool {
    condition.observed_generation == Some(generation) && ((condition.condition_type@
        == words.ready_condition@ && condition.status@ == words.condition_false@
        && condition.reason@ == words.rejected_reason@) || (condition.condition_type@
        == words.halted_condition@ && condition.status@ == words.condition_true@
        && condition.reason@ == words.regression_reason@))
}

fn states_verdict(condition: &GroupCondition, generation: i64, words: &StatusWords) -> (result: bool)
    ensures
        result == is_verdict(*condition, generation, *words),
{
    let observed = match condition.observed_generation {
        Some(seen) => seen == generation,
        None => false,
    };
    let kind = condition.condition_type.as_str();
    let status = condition.status.as_str();
    let reason = condition.reason.as_str();
    observed && ((same(kind, words.ready_condition.as_str()) && same(
        status,
        words.condition_false.as_str(),
    ) && same(reason, words.rejected_reason.as_str())) || (same(
        kind,
        words.halted_condition.as_str(),
    ) && same(status, words.condition_true.as_str()) && same(
        reason,
        words.regression_reason.as_str(),
    )))
}

/// Whether the controller has looked at a generation and rejected it.
pub open spec fn rejection_observed(status: GroupStatus, generation: i64, words: StatusWords) -> bool {
    status.observed_generation == Some(generation) && exists|i: int|
        0 <= i < status.conditions@.len() && is_verdict(
            #[trigger] status.conditions@[i],
            generation,
            words,
        )
}

/// Whether the controller has looked at a generation and rejected it.
pub fn status_observed_rejection(status: &GroupStatus, generation: i64, words: &StatusWords) -> (result:
    bool)
    ensures
        result == rejection_observed(*status, generation, *words),
{
    let observed = match status.observed_generation {
        Some(seen) => seen == generation,
        None => false,
    };
    if !observed {
        return false;
    }
    let mut index: usize = 0;
    while index < status.conditions.len()
        invariant
            index <= status.conditions.len(),
            status.observed_generation == Some(generation),
            forall|i: int|
                0 <= i < index ==> !is_verdict(
                    #[trigger] status.conditions@[i],
                    generation,
                    *words,
                ),
        decreases status.conditions.len() - index,
    {
        if states_verdict(&status.conditions[index], generation, words) {
            assert(is_verdict(status.conditions@[index as int], generation, *words));
            return true;
        }
        index = index + 1;
    }
    false
}

/// Whether a group with this generation and status has rejected its release; one without either
/// has not.
pub fn group_has_rejected(
    generation: Option<i64>,
    status: &Option<GroupStatus>,
    words: &StatusWords,
) -> (result: bool)
    ensures
        result == match (generation, *status) {
            (Some(current), Some(found)) => rejection_observed(found, current, *words),
            _ => false,
        },
{
    match (generation, status) {
        (Some(current), Some(found)) => status_observed_rejection(found, current, words),
        _ => false,
    }
}

/// Whether every agent of a group runs a version.
pub open spec fn runs_everywhere(
    agents: Seq<Option<AgentReport>>,
    group: Seq<char>,
    version: Seq<char>,
) -> bool {
    forall|i: int|
        0 <= i < agents.len() && group_of(i) == group ==> match #[trigger] agents[i] {
            Some(report) => has_converged(report, group, version),
            None => false,
        }
}

/// Whether every agent of a group runs the version that was stable before; a message where there
/// was none.
pub fn group_is_stable(
    agents: &Vec<Option<AgentReport>>,
    group: &str,
    stable: &Vec<GroupVersion>,
) -> (result: Result<bool, String>)
    ensures
        match (result, version_for(desired_view(stable@), group@)) {
            (Ok(found), Some(version)) => found == runs_everywhere(agents@, group@, version),
            (Err(message), None) => message@ == "no stable version for "@ + group@,
            _ => false,
        },
{
    let version = match find_version(stable, group) {
        Some(version) => version,
        None => {
            let mut message = String::from_str("no stable version for ");
            message.append(group);
            return Err(message);
        },
    };
    let mut index: usize = 0;
    while index < agents.len()
        invariant
            index <= agents.len(),
            version_for(desired_view(stable@), group@) == Some(version@),
            forall|i: int|
                0 <= i < index && group_of(i) == group@ ==> match #[trigger] agents@[i] {
                    Some(report) => has_converged(report, group@, version@),
                    None => false,
                },
        decreases agents.len() - index,
    {
        if same(agent_group(index), group) {
            let converged = match &agents[index] {
                Some(report) => agent_is_converged(report, group, version.as_str()),
                None => false,
            };
            if !converged {
                assert(group_of(index as int) == group@);
                assert(match agents@[index as int] {
                    Some(report) => !has_converged(report, group@, version@),
                    None => true,
                });
                return Ok(false);
            }
        }
        index = index + 1;
    }
    Ok(true)
}

/// A group counts as back on its version exactly when every agent whose ordinal belongs to it reports,
/// ready, that group and that version.
pub proof fn a_group_is_back_with_its_last_agent(
    agents: Seq<Option<AgentReport>>,
    group: Seq<char>,
    version: Seq<char>,
)
    ensures
        runs_everywhere(agents, group, version) <==> (forall|i: int|
            0 <= i < agents.len() && soak_groups()[i % 3] == group ==> (#[trigger] agents[i]) is Some
                && agents[i]->Some_0.ready == Some(true) && view_of(agents[i]->Some_0.group) == Some(
                group,
            ) && view_of(agents[i]->Some_0.version) == Some(version)),
{
    if runs_everywhere(agents, group, version) {
        assert forall|i: int| 0 <= i < agents.len() && soak_groups()[i % 3] == group implies (
        #[trigger] agents[i]) is Some && agents[i]->Some_0.ready == Some(true) && view_of(
            agents[i]->Some_0.group,
        ) == Some(group) && view_of(agents[i]->Some_0.version) == Some(version) by {
            assert(group_of(i) == group);
        }
    }
    if forall|i: int|
        0 <= i < agents.len() && soak_groups()[i % 3] == group ==> (#[trigger] agents[i]) is Some
            && agents[i]->Some_0.ready == Some(true) && view_of(agents[i]->Some_0.group) == Some(
            group,
        ) && view_of(agents[i]->Some_0.version) == Some(version) {
        assert forall|i: int| 0 <= i < agents.len() && group_of(i) == group implies match (
        #[trigger] agents[i]) {
            Some(report) => has_converged(report, group, version),
            None => false,
        } by {
            assert(soak_groups()[i % 3] == group);
        }
    }
}

/// A rejection counts only of the generation that was looked at last, on a condition about that very
/// generation which says not ready because rejected, or halted because of a regression.
pub proof fn a_rejection_is_of_the_current_generation(
    status: GroupStatus,
    generation: i64,
    words: StatusWords,
)
    ensures
        status.observed_generation != Some(generation) ==> !rejection_observed(
            status,
            generation,
            words,
        ),
        status.conditions@.len() == 0 ==> !rejection_observed(status, generation, words),
        rejection_observed(status, generation, words) <==> status.observed_generation == Some(
            generation,
        ) && exists|i: int|
            {
                &&& 0 <= i < status.conditions@.len()
                &&& (#[trigger] status.conditions@[i]).observed_generation == Some(generation)
                &&& {
                    ||| {
                        &&& status.conditions@[i].condition_type@ == words.ready_condition@
                        &&& status.conditions@[i].status@ == words.condition_false@
                        &&& status.conditions@[i].reason@ == words.rejected_reason@
                    }
                    ||| {
                        &&& status.conditions@[i].condition_type@ == words.halted_condition@
                        &&& status.conditions@[i].status@ == words.condition_true@
                        &&& status.conditions@[i].reason@ == words.regression_reason@
                    }
                }
            },
{
    if rejection_observed(status, generation, words) {
        let i = choose|i: int|
            0 <= i < status.conditions@.len() && is_verdict(
                #[trigger] status.conditions@[i],
                generation,
                words,
            );
        assert(status.conditions@[i].observed_generation == Some(generation));
    }
}

/// The message about a group that did not reject and recover in time.
pub fn rejection_timeout_message(group: &str, timeout: u64) -> (result: String)
    ensures
        result@ == group@ + " did not reach the expected rejected-and-recovered state within "@
            + decimal_digits(timeout as nat) + "s"@,
{
    let mut message = String::from_str(group);
    message.append(" did not reach the expected rejected-and-recovered state within ");
    message.append(decimal(timeout).as_str());
    message.append("s");
    message
}

/// An agent's labels settle it exactly when its group and its name are those of its ordinal and it
/// carries no label but those two.
pub proof fn assignments_are_two_labels(labels: Seq<Label>, ordinal: nat)
    ensures
        carries_assignment(labels, ordinal) <==> {
            &&& view_of(label_of(labels, "soak.updated.dev/cohort"@)) == Some(
                soak_groups()[ordinal as int % 3],
            )
            &&& view_of(label_of(labels, "soak.updated.dev/node"@)) == Some(
                "agent-"@ + decimal_digits(ordinal),
            )
            &&& forall|i: int|
                0 <= i < labels.len() ==> (#[trigger] labels[i]).key@ == "soak.updated.dev/cohort"@
                    || labels[i].key@ == "soak.updated.dev/node"@
        },
{
}

/// An agent that lags is named with its group, its version and whether it is ready, as far as it has
/// reported them; only one that reports ready is called so.
pub proof fn lags_say_what_an_agent_reports(ordinal: nat, report: AgentReport)
    ensures
        lag_text(ordinal, None) == agent_name(ordinal) + "=missing"@,
        report.group is Some && report.version is Some && report.ready == Some(true) ==> lag_text(
            ordinal,
            Some(report),
        ) == agent_name(ordinal) + "="@ + report.group->0@ + "/"@ + report.version->0@ + "/"@
            + "true"@,
        report.group is Some && report.version is Some && report.ready != Some(true) ==> lag_text(
            ordinal,
            Some(report),
        ) == agent_name(ordinal) + "="@ + report.group->0@ + "/"@ + report.version->0@ + "/"@
            + "false"@,
        report.group is None && report.version is None && report.ready is None ==> lag_text(
            ordinal,
            Some(report),
        ) == agent_name(ordinal) + "="@ + "unassigned"@ + "/"@ + "unknown"@ + "/"@ + "false"@,
{
}

} // verus!
