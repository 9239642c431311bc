//! The resources that the soak controller keeps in place.

use crate::e2e::deployment::{
    deployment_with_name, group_set_of, group_set_resource, is_deployment, is_scoped,
    named_deployment, DeploymentSpec, DeploymentView, GroupSetSpec, GroupSetView, GroupSpec,
    GroupSpecView, RegressionResponse,
};
use crate::e2e::layout::{versioned_deployment_name, NAMESPACE, REPOSITORY_NAME};
use crate::resources::{label, pairs};
use crate::soak::fleet::{SOAK_COHORT_LABEL, SOAK_FLEET_LABEL, SOAK_FLEET_VALUE};
use crate::soak::plan::{soak_group, soak_groups};
use crate::soak::rounds::{find_version, version_for};
use crate::soak::state::{desired_view, group_names, GroupVersion};
use vstd::prelude::*;

verus! {

pub const SOAK_GROUP_SET: &'static str = "soak-fleet";

pub const SOAK_MAX_UNAVAILABLE: usize = 1;

pub const SOAK_MAX_CONCURRENT: u32 = 2;

pub const SOAK_MAX_REGRESSIONS: u32 = 1;

pub const SOAK_STUCK_AFTER_SECONDS: u64 = 300;

/// The deployment of a release to a soak group: it goes by the group and the version.
pub open spec fn soak_deployment(
    group: Seq<char>,
    version: Seq<char>,
    platform: Seq<char>,
    app_sha: Seq<char>,
    root_json: Seq<char>,
) -> DeploymentView {
    named_deployment(group, group + "-"@ + version, version, platform, app_sha, root_json)
}

/// The deployment of a release to a soak group.
pub fn deployment(group: &str, version: &str, platform: &str, app_sha: &str, root_json: &str) -> (result:
    DeploymentSpec)
    ensures
        is_deployment(result),
        result@ == soak_deployment(group@, version@, platform@, app_sha@, root_json@),
{
    let name = versioned_deployment_name(group, version);
    deployment_with_name(group, name.as_str(), version, platform, app_sha, root_json)
}

/// A soak group with a deployment.
pub open spec fn soak_group_view(name: Seq<char>, deployment: DeploymentView) -> GroupSpecView {
    GroupSpecView {
        name,
        namespace: NAMESPACE@,
        repository: REPOSITORY_NAME@,
        labels: seq![(SOAK_FLEET_LABEL@, SOAK_FLEET_VALUE@)],
        selector: seq![(SOAK_COHORT_LABEL@, name)],
        depends_on: Seq::empty(),
        inputs: Seq::empty(),
        deployment,
        max_unavailable: Some(SOAK_MAX_UNAVAILABLE),
        emergency_correction: false,
    }
}

/// A soak group with a deployment.
pub fn group(name: &str, deployment: DeploymentSpec) -> (result: GroupSpec)
    ensures
        result@ == soak_group_view(name@, deployment@),
        result.deployment == deployment,
{
    let group = GroupSpec {
        name: name.to_owned(),
        namespace: NAMESPACE,
        repository: REPOSITORY_NAME,
        labels: vec![label(SOAK_FLEET_LABEL, SOAK_FLEET_VALUE)],
        selector: vec![label(SOAK_COHORT_LABEL, name)],
        depends_on: Vec::new(),
        inputs: Vec::new(),
        deployment,
        max_unavailable: Some(SOAK_MAX_UNAVAILABLE),
        emergency_correction: false,
    };
    assert(crate::text::views(group.depends_on@) =~= Seq::<Seq<char>>::empty());
    assert(pairs(group.inputs@) =~= Seq::<(Seq<char>, Seq<char>)>::empty());
    assert(pairs(group.labels@) =~= seq![(SOAK_FLEET_LABEL@, SOAK_FLEET_VALUE@)]);
    assert(pairs(group.selector@) =~= seq![(SOAK_COHORT_LABEL@, name@)]);
    group
}

/// The set of all soak groups: one regression rolls it back.
pub open spec fn soak_set() -> GroupSetView {
    GroupSetView {
        max_regressions: Some(SOAK_MAX_REGRESSIONS),
        on_regression: RegressionResponse::Rollback,
        stuck_after_seconds: Some(SOAK_STUCK_AFTER_SECONDS),
        ..group_set_of(
            SOAK_GROUP_SET@,
            seq![(SOAK_FLEET_LABEL@, SOAK_FLEET_VALUE@)],
            Some(SOAK_MAX_CONCURRENT),
        )
    }
}

/// The set of all soak groups: one regression rolls it back.
pub fn group_set() -> (result: GroupSetSpec)
    ensures
        result@ == soak_set(),
{
    let selector = vec![label(SOAK_FLEET_LABEL, SOAK_FLEET_VALUE)];
    assert(pairs(selector@) =~= seq![(SOAK_FLEET_LABEL@, SOAK_FLEET_VALUE@)]);
    let mut set = group_set_resource(SOAK_GROUP_SET, selector, Some(SOAK_MAX_CONCURRENT));
    set.max_regressions = Some(SOAK_MAX_REGRESSIONS);
    set.on_regression = RegressionResponse::Rollback;
    set.stuck_after_seconds = Some(SOAK_STUCK_AFTER_SECONDS);
    set
}

/// The set of all soak groups belongs to the repository that they are assigned from.
pub proof fn the_set_is_scoped(name: Seq<char>, deployment: DeploymentView)
    ensures
        is_scoped(soak_set()),
        soak_set().repository == soak_group_view(name, deployment).repository,
{
}

/// Every soak group, whatever it runs, lies in the one set that bounds regressions.
pub proof fn every_group_is_guarded(name: Seq<char>, deployment: DeploymentView)
    ensures
        crate::resources::is_selected(
            soak_group_view(name, deployment).labels,
            soak_set().selector,
        ),
{
    let labels = soak_group_view(name, deployment).labels;
    assert(labels[0] == (SOAK_FLEET_LABEL@, SOAK_FLEET_VALUE@));
    assert forall|i: int| 0 <= i < 1 implies labels.contains(
        #[trigger] seq![(SOAK_FLEET_LABEL@, SOAK_FLEET_VALUE@)][i],
    ) by {
        assert(labels.contains(labels[0]));
    }
}

/// The versions that the control resources state, group by group; a message about the first group
/// that has none.
pub open spec fn control_versions(desired: Seq<(Seq<char>, Seq<char>)>, count: int) -> Result<
    Seq<(Seq<char>, Seq<char>)>,
    Seq<char>,
>
    decreases count,
{
    if count <= 0 {
        Ok(Seq::empty())
    } else {
        match control_versions(desired, count - 1) {
            Err(message) => Err(message),
            Ok(earlier) => match version_for(desired, soak_groups()[count - 1]) {
                None => Err("no persisted desired version for "@ + soak_groups()[count - 1]),
                Some(version) => Ok(earlier.push((soak_groups()[count - 1], version))),
            },
        }
    }
}

/// The versions that the control resources state, group by group.
pub fn plan_control(desired: &Vec<GroupVersion>) -> (result: Result<Vec<GroupVersion>, String>)
    ensures
        match (result, control_versions(desired_view(desired@), 3)) {
            (Ok(found), Ok(versions)) => desired_view(found@) == versions,
            (Err(found), Err(message)) => found@ == message,
            _ => false,
        },
{
    let ghost wanted = desired_view(desired@);
    let mut result: Vec<GroupVersion> = Vec::new();
    let mut index: usize = 0;
    assert(desired_view(result@) =~= Seq::<(Seq<char>, Seq<char>)>::empty());
    while index < 3
        invariant
            index <= 3,
            wanted == desired_view(desired@),
            control_versions(wanted, index as int) == Ok::<
                Seq<(Seq<char>, Seq<char>)>,
                Seq<char>,
            >(desired_view(result@)),
        decreases 3 - index,
    {
        let name = soak_group(index);
        match find_version(desired, name) {
            Some(version) => {
                let ghost before = result@;
                let entry = GroupVersion { group: name.to_owned(), version };
                result.push(entry);
                assert(desired_view(result@) =~= desired_view(before).push(
                    (entry.group@, entry.version@),
                ));
            },
            None => {
                let mut message = String::from_str("no persisted desired version for ");
                message.append(name);
                proof {
                    reveal_with_fuel(control_versions, 4);
                }
                return Err(message);
            },
        }
        index = index + 1;
    }
    Ok(result)
}

/// The control resources of a valid state state exactly what it desires.
pub proof fn valid_states_are_stated_in_full(state: crate::soak::state::CampaignView, seed: u64)
    requires
        crate::soak::state::is_valid(state, seed),
    ensures
        control_versions(state.desired, 3) == Ok::<Seq<(Seq<char>, Seq<char>)>, Seq<char>>(
            state.desired,
        ),
{
    crate::soak::rounds::valid_states_name_every_group(state, seed, 0);
    crate::soak::rounds::valid_states_name_every_group(state, seed, 1);
    crate::soak::rounds::valid_states_name_every_group(state, seed, 2);
    reveal_with_fuel(control_versions, 4);
    let names = group_names(state.desired);
    assert(names.len() == state.desired.len() && names =~= soak_groups());
    assert(names[0] == state.desired[0].0 && names[1] == state.desired[1].0 && names[2]
        == state.desired[2].0);
    assert(control_versions(state.desired, 3)->Ok_0 =~= state.desired);
}

// ----- what the control resources state -----

/// A soak group goes by its name, selects the agents of its cohort, runs what it was given, and lets one
/// agent at a time be unavailable. The set rolls back at one regression, lets two groups roll at once, and
/// calls a group stuck after five minutes.
pub proof fn groups_and_the_set_are_bounded(
    name: Seq<char>,
    deployment: DeploymentView,
    version: Seq<char>,
    platform: Seq<char>,
    app_sha: Seq<char>,
    root_json: Seq<char>,
)
    ensures
        ({
            let group = soak_group_view(name, deployment);
            let deployed = soak_deployment(name, version, platform, app_sha, root_json);
            &&& group.name == name
            &&& group.selector == seq![(SOAK_COHORT_LABEL@, name)]
            &&& group.labels == seq![(SOAK_FLEET_LABEL@, SOAK_FLEET_VALUE@)]
            &&& group.deployment == deployment
            &&& group.max_unavailable == Some(1usize)
            &&& !group.emergency_correction
            &&& group.depends_on.len() == 0 && group.inputs.len() == 0
            &&& soak_set().selector == seq![(SOAK_FLEET_LABEL@, SOAK_FLEET_VALUE@)]
            &&& soak_set().max_concurrent == Some(2u32)
            &&& soak_set().max_regressions == Some(1u32)
            &&& soak_set().on_regression == RegressionResponse::Rollback
            &&& soak_set().stuck_after_seconds == Some(300u64)
            &&& deployed.name == name + "-"@ + version
            &&& deployed.application.target == version
            &&& deployed.metadata_url == "https://release-"@ + name + "/metadata/"@
            &&& deployed.root_json == root_json
        }),
{
}

/// The control resources state the version that is desired of each of the three groups, in order; the
/// first group without one is what is said to be missing.
pub proof fn every_group_is_stated(desired: Seq<(Seq<char>, Seq<char>)>)
    ensures
        ({
            let stated = control_versions(desired, 3);
            let first = version_for(desired, "soak-a"@);
            let second = version_for(desired, "soak-b"@);
            let third = version_for(desired, "soak-c"@);
            &&& stated is Ok <==> first is Some && second is Some && third is Some
            &&& stated is Ok ==> stated->Ok_0 == seq![
                ("soak-a"@, first->0),
                ("soak-b"@, second->0),
                ("soak-c"@, third->0),
            ]
            &&& first is None ==> stated->Err_0 == "no persisted desired version for "@ + "soak-a"@
            &&& first is Some && second is None ==> stated->Err_0
                == "no persisted desired version for "@ + "soak-b"@
        }),
{
    reveal_with_fuel(control_versions, 4);
    assert(soak_groups()[0] == "soak-a"@ && soak_groups()[1] == "soak-b"@ && soak_groups()[2]
        == "soak-c"@);
    let first = version_for(desired, "soak-a"@);
    let second = version_for(desired, "soak-b"@);
    let third = version_for(desired, "soak-c"@);
    if first is Some && second is Some && third is Some {
        assert(control_versions(desired, 3)->Ok_0 =~= seq![
            ("soak-a"@, first->0),
            ("soak-b"@, second->0),
            ("soak-c"@, third->0),
        ]);
    }
}

} // verus!
