//! The demo's groups as documents, on the template of a group that is known to be complete.

use crate::demo::haproxy::HaproxyRelease;
use crate::demo::layout::{
    release_repository_url, repository_url_text, DEMO_HAPROXY_COHORT, DEMO_HAPROXY_GROUP,
    DEMO_HAPROXY_NEXT_PATH_ANNOTATION, DEMO_HAPROXY_NEXT_SHA_ANNOTATION,
};
use crate::demo::resources::{
    group_plan_view, group_plan_views, haproxy_plan, plan_haproxy_group, GroupPlan, GroupPlanView,
};
use crate::documents::{
    copy_deployment, copy_template, deployment_fault, group_document, group_value, is_kept, outcome,
    read_group, repository_document, repository_value, resourced, set_runtime, target_document,
    target_value, template_fault, template_in, texts_document, texts_value, tier_document,
    tier_value, timeouts_document, timeouts_value, with_runtime, with_runtime_text,
};
use crate::json::{
    flag_value, member_of, parsed_json, set_member, takes_members, text_value, value_content,
    value_contents, JsonView,
};
use crate::resources::{label, pairs};
use serde_json::Value;
use vstd::prelude::*;

verus! {

/// The repository that the demo's groups resolve their releases from.
pub open spec fn release_repository(root: Seq<char>) -> JsonView {
    repository_document(repository_url_text("metadata"@), repository_url_text("targets"@), root)
}

/// The repository that the demo's groups resolve their releases from.
pub fn minio_release_repository(release_root: &str) -> (result: Value)
    ensures
        value_content(result) == release_repository(release_root@),
{
    repository_value(
        release_repository_url("metadata").as_str(),
        release_repository_url("targets").as_str(),
        release_root,
    )
}

// ----- groups that only serve to publish -----

/// What a group that only serves to publish has its nodes run: what the template says, from the
/// demo's repository. Nothing where the group is no template.
pub open spec fn seed_document(group: JsonView, root: Seq<char>) -> Result<JsonView, Seq<char>> {
    match deployment_fault(group) {
        Some(message) => Err(message),
        None => Ok(resourced(template_in(group), release_repository(root))),
    }
}

/// What a group that only serves to publish has its nodes run, on the template of a group.
pub fn seed_on(group: &Value, release_root: &str) -> (result: Result<Value, String>)
    ensures
        outcome(result) == seed_document(value_content(*group), release_root@),
{
    match copy_deployment(group) {
        Ok(copy) => {
            let mut deployment = copy;
            set_member(
                &mut deployment,
                "releaseRepository",
                minio_release_repository(release_root),
            );
            Ok(deployment)
        },
        Err(message) => Err(message),
    }
}

/// What a group that only serves to publish has its nodes run, on the template of a printed group.
pub fn seed_deployment(edge: &str, release_root: &str) -> (result: Result<Value, String>)
    ensures
        outcome(result) == match parsed_json(edge@) {
            Ok(group) => seed_document(group, release_root@),
            Err(message) => Err(message),
        },
{
    match read_group(edge) {
        Ok(group) => seed_on(&group, release_root),
        Err(message) => Err(message),
    }
}

/// A group that only serves to publish has its nodes run everything as the template says, but for
/// the repository.
pub proof fn seeds_are_copies(template: JsonView, root: Seq<char>, name: Seq<char>)
    ensures
        member_of(resourced(template, release_repository(root)), "releaseRepository"@)
            == release_repository(root),
        name != "releaseRepository"@ ==> is_kept(
            template,
            resourced(template, release_repository(root)),
            name,
        ),
{
}

// ----- planned groups -----

/// What the nodes of a planned group run, where it is given by the group itself.
pub open spec fn planned(template: JsonView, plan: GroupPlanView) -> JsonView {
    let own = template.with("name"@, JsonView::Text(plan.deployment)).with(
        "application"@,
        target_document(plan.application),
    ).with("providerSet"@, target_document(plan.provider_set)).with(
        "reportUrl"@,
        JsonView::Text(plan.report_url),
    ).with("orderedInstallFallback"@, JsonView::Bool(plan.ordered_install_fallback));
    match plan.release_root {
        Some(root) => resourced(own, release_repository(root)),
        None => own,
    }
}

/// What the nodes of a planned group run, and how: as the template says, but for what is planned.
pub open spec fn planned_deployment(template: JsonView, plan: GroupPlanView) -> JsonView {
    let named = with_runtime_text(planned(template, plan), "product"@, plan.product);
    let managed = with_runtime_text(named, "mode"@, plan.mode);
    let told = match plan.arguments {
        Some(arguments) => with_runtime(managed, "args"@, texts_document(arguments)),
        None => managed,
    };
    let placed = with_runtime_text(told, "installRoot"@, plan.install_root);
    with_runtime(placed, "timeouts"@, timeouts_document(plan.timeouts))
}

proof fn lemma_runtime_is_kept(template: JsonView, plan: GroupPlanView)
    ensures
        planned(template, plan) is Object,
        is_kept(template, planned(template, plan), "runtime"@),
{
    reveal_strlit("runtime");
    reveal_strlit("name");
    reveal_strlit("application");
    reveal_strlit("providerSet");
    reveal_strlit("reportUrl");
    reveal_strlit("orderedInstallFallback");
    reveal_strlit("releaseRepository");
    assert("runtime"@.len() == 7 && "name"@.len() == 4 && "application"@.len() == 11);
    assert("providerSet"@.len() == 11 && "reportUrl"@.len() == 9);
    assert("orderedInstallFallback"@.len() == 22 && "releaseRepository"@.len() == 17);
}

fn set_runtime_text(deployment: &mut Value, name: &str, text: Option<&'static str>)
    requires
        takes_members(value_content(*old(deployment))),
        takes_members(member_of(value_content(*old(deployment)), "runtime"@)),
    ensures
        value_content(*final(deployment)) == with_runtime_text(
            value_content(*old(deployment)),
            name@,
            crate::demo::resources::literal_of(text),
        ),
        takes_members(value_content(*final(deployment))),
        takes_members(member_of(value_content(*final(deployment)), "runtime"@)),
{
    match text {
        Some(text) => {
            set_runtime(deployment, name, text_value(text));
        },
        None => {},
    }
}

/// What the nodes of a planned group run, on the template of a group.
pub fn deployment_on(group: &Value, plan: &GroupPlan) -> (result: Result<Value, String>)
    ensures
        outcome(result) == match template_fault(value_content(*group)) {
            Some(message) => Err::<JsonView, Seq<char>>(message),
            None => Ok::<JsonView, Seq<char>>(
                planned_deployment(template_in(value_content(*group)), group_plan_view(*plan)),
            ),
        },
{
    let mut deployment = match copy_template(group) {
        Ok(copy) => copy,
        Err(message) => {
            return Err(message);
        },
    };
    proof {
        lemma_runtime_is_kept(template_in(value_content(*group)), group_plan_view(*plan));
    }
    set_member(&mut deployment, "name", text_value(plan.deployment.as_str()));
    set_member(&mut deployment, "application", target_value(&plan.application));
    set_member(&mut deployment, "providerSet", target_value(&plan.provider_set));
    set_member(&mut deployment, "reportUrl", text_value(plan.report_url));
    set_member(
        &mut deployment,
        "orderedInstallFallback",
        flag_value(plan.ordered_install_fallback),
    );
    match &plan.release_root {
        Some(root) => {
            set_member(
                &mut deployment,
                "releaseRepository",
                minio_release_repository(root.as_str()),
            );
        },
        None => {},
    }
    assert(value_content(deployment) == planned(
        template_in(value_content(*group)),
        group_plan_view(*plan),
    ));
    set_runtime_text(&mut deployment, "product", plan.product);
    set_runtime_text(&mut deployment, "mode", plan.mode);
    match &plan.arguments {
        Some(arguments) => {
            set_runtime(&mut deployment, "args", texts_value(arguments));
        },
        None => {},
    }
    set_runtime_text(&mut deployment, "installRoot", plan.install_root);
    set_runtime(&mut deployment, "timeouts", timeouts_value(&plan.timeouts));
    Ok(deployment)
}

/// A planned group, on the template of a group.
pub open spec fn planned_group(group: JsonView, plan: GroupPlanView) -> JsonView {
    group_document(
        plan.name,
        plan.labels,
        plan.selector,
        planned_deployment(template_in(group), plan),
    )
}

/// A planned group, on the template of a group.
pub fn group_on(group: &Value, plan: &GroupPlan) -> (result: Result<Value, String>)
    ensures
        outcome(result) == match template_fault(value_content(*group)) {
            Some(message) => Err::<JsonView, Seq<char>>(message),
            None => Ok::<JsonView, Seq<char>>(
                planned_group(value_content(*group), group_plan_view(*plan)),
            ),
        },
{
    match deployment_on(group, plan) {
        Ok(deployment) => Ok(
            group_value(plan.name.as_str(), &plan.labels, &plan.selector, deployment),
        ),
        Err(message) => Err(message),
    }
}

/// A planned group, on the template of a printed group.
pub fn demo_group(edge: &str, plan: &GroupPlan) -> (result: Result<Value, String>)
    ensures
        outcome(result) == match parsed_json(edge@) {
            Ok(group) => match template_fault(group) {
                Some(message) => Err::<JsonView, Seq<char>>(message),
                None => Ok(planned_group(group, group_plan_view(*plan))),
            },
            Err(message) => Err(message),
        },
{
    match read_group(edge) {
        Ok(group) => group_on(&group, plan),
        Err(message) => Err(message),
    }
}

/// Planned groups, in order, on the template of a group.
pub open spec fn planned_groups(group: JsonView, plans: Seq<GroupPlanView>) -> Seq<JsonView> {
    Seq::new(plans.len(), |i: int| planned_group(group, plans[i]))
}

/// Planned groups, in order, on the template of a group.
pub fn groups_on(group: &Value, plans: &Vec<GroupPlan>) -> (result: Result<Vec<Value>, String>)
    ensures
        match result {
            Ok(found) => template_fault(value_content(*group)) is None && value_contents(found@)
                == planned_groups(value_content(*group), group_plan_views(plans@)),
            Err(message) => template_fault(value_content(*group)) == Some(message@),
        },
{
    let ghost content = value_content(*group);
    match copy_template(group) {
        Ok(_) => {},
        Err(message) => {
            return Err(message);
        },
    }
    let mut found: Vec<Value> = Vec::new();
    let mut index: usize = 0;
    while index < plans.len()
        invariant
            index <= plans.len(),
            content == value_content(*group),
            template_fault(content) is None,
            found@.len() == index,
            forall|i: int|
                0 <= i < index ==> value_content(#[trigger] found@[i]) == planned_group(
                    content,
                    group_plan_view(plans@[i]),
                ),
        decreases plans.len() - index,
    {
        match group_on(group, &plans[index]) {
            Ok(document) => {
                found.push(document);
            },
            Err(message) => {
                return Err(message);
            },
        }
        index = index + 1;
    }
    assert(value_contents(found@) =~= planned_groups(content, group_plan_views(plans@)));
    Ok(found)
}

/// The members of a deployment that a plan replaces.
pub open spec fn replaces(plan: GroupPlanView, name: Seq<char>) -> bool {
    name == "name"@ || name == "application"@ || name == "providerSet"@ || name == "reportUrl"@ || name
        == "orderedInstallFallback"@ || name == "runtime"@ || (name == "releaseRepository"@
        && plan.release_root is Some)
}

/// The members of how it is run that a plan replaces.
pub open spec fn replaces_runtime(plan: GroupPlanView, name: Seq<char>) -> bool {
    name == "timeouts"@ || (name == "product"@ && plan.product is Some) || (name == "mode"@
        && plan.mode is Some) || (name == "args"@ && plan.arguments is Some) || (name
        == "installRoot"@ && plan.install_root is Some)
}

/// A planned group has its nodes run everything as the template says, and in the way the template
/// says, but for what the plan replaces.
pub proof fn what_is_not_planned_stays(template: JsonView, plan: GroupPlanView, name: Seq<char>)
    ensures
        !replaces(plan, name) ==> is_kept(template, planned_deployment(template, plan), name),
        !replaces_runtime(plan, name) ==> is_kept(
            member_of(template, "runtime"@),
            member_of(planned_deployment(template, plan), "runtime"@),
            name,
        ),
{
    lemma_runtime_is_kept(template, plan);
}

// ----- the load balancers -----

/// What the load balancers run at first, on the template of a printed group.
pub fn haproxy_group_deployment(edge: &str, release_root: &str, release: &HaproxyRelease) -> (result:
    Result<Value, String>)
    ensures
        outcome(result) == match parsed_json(edge@) {
            Ok(group) => match template_fault(group) {
                Some(message) => Err::<JsonView, Seq<char>>(message),
                None => Ok(
                    planned_deployment(template_in(group), haproxy_plan(release_root@, *release)),
                ),
            },
            Err(message) => Err(message),
        },
{
    match read_group(edge) {
        Ok(group) => deployment_on(&group, &plan_haproxy_group(release_root, release)),
        Err(message) => Err(message),
    }
}

/// The group of the load balancers, with the release that they are to be upgraded to noted on it.
pub open spec fn haproxy_document(deployment: JsonView, release: HaproxyRelease) -> JsonView {
    tier_document(
        DEMO_HAPROXY_GROUP@,
        seq![
            (DEMO_HAPROXY_NEXT_PATH_ANNOTATION@, release.v2_path@),
            (DEMO_HAPROXY_NEXT_SHA_ANNOTATION@, release.v2_sha@),
        ],
        seq![("demo.updated.dev/cohort"@, DEMO_HAPROXY_COHORT@)],
        deployment,
    )
}

/// The group of the load balancers, on the template of a printed group.
pub fn prepare_haproxy_tier(edge: &str, release_root: &str, release: &HaproxyRelease) -> (result:
    Result<Value, String>)
    ensures
        outcome(result) == match parsed_json(edge@) {
            Ok(group) => match template_fault(group) {
                Some(message) => Err::<JsonView, Seq<char>>(message),
                None => Ok(
                    haproxy_document(
                        planned_deployment(
                            template_in(group),
                            haproxy_plan(release_root@, *release),
                        ),
                        *release,
                    ),
                ),
            },
            Err(message) => Err(message),
        },
{
    let deployment = match haproxy_group_deployment(edge, release_root, release) {
        Ok(deployment) => deployment,
        Err(message) => {
            return Err(message);
        },
    };
    let notes = vec![
        label(DEMO_HAPROXY_NEXT_PATH_ANNOTATION, release.v2_path.as_str()),
        label(DEMO_HAPROXY_NEXT_SHA_ANNOTATION, release.v2_sha.as_str()),
    ];
    let selector = vec![label("demo.updated.dev/cohort", DEMO_HAPROXY_COHORT)];
    assert(pairs(notes@) =~= seq![
        (DEMO_HAPROXY_NEXT_PATH_ANNOTATION@, release.v2_path@),
        (DEMO_HAPROXY_NEXT_SHA_ANNOTATION@, release.v2_sha@),
    ]);
    assert(pairs(selector@) =~= seq![("demo.updated.dev/cohort"@, DEMO_HAPROXY_COHORT@)]);
    Ok(tier_value(DEMO_HAPROXY_GROUP, &notes, &selector, deployment))
}

/// A planned group has its nodes run what the plan says, from where it says and in the way it says.
pub proof fn plans_are_followed(template: JsonView, plan: GroupPlanView)
    ensures
        ({
            let said = planned_deployment(template, plan);
            let how = member_of(said, "runtime"@);
            &&& member_of(said, "name"@) == JsonView::Text(plan.deployment)
            &&& member_of(said, "application"@) == target_document(plan.application)
            &&& member_of(said, "providerSet"@) == target_document(plan.provider_set)
            &&& member_of(said, "reportUrl"@) == JsonView::Text(plan.report_url)
            &&& member_of(said, "orderedInstallFallback"@) == JsonView::Bool(
                plan.ordered_install_fallback,
            )
            &&& plan.release_root is Some ==> member_of(said, "releaseRepository"@)
                == release_repository(plan.release_root->0)
            &&& plan.product is Some ==> member_of(how, "product"@) == JsonView::Text(
                plan.product->0,
            )
            &&& plan.mode is Some ==> member_of(how, "mode"@) == JsonView::Text(plan.mode->0)
            &&& plan.arguments is Some ==> member_of(how, "args"@) == texts_document(
                plan.arguments->0,
            )
            &&& plan.install_root is Some ==> member_of(how, "installRoot"@) == JsonView::Text(
                plan.install_root->0,
            )
            &&& member_of(how, "timeouts"@) == timeouts_document(plan.timeouts)
        }),
{
    reveal_strlit("name");
    reveal_strlit("application");
    reveal_strlit("providerSet");
    reveal_strlit("reportUrl");
    reveal_strlit("orderedInstallFallback");
    reveal_strlit("releaseRepository");
    reveal_strlit("runtime");
    assert("name"@.len() == 4 && "application"@.len() == 11 && "providerSet"@.len() == 11);
    assert("reportUrl"@.len() == 9 && "orderedInstallFallback"@.len() == 22);
    assert("releaseRepository"@.len() == 17 && "runtime"@.len() == 7);
    assert("application"@[0] == 'a' && "providerSet"@[0] == 'p');
    reveal_strlit("product");
    reveal_strlit("mode");
    reveal_strlit("args");
    reveal_strlit("installRoot");
    reveal_strlit("timeouts");
    assert("product"@.len() == 7 && "mode"@.len() == 4 && "args"@.len() == 4);
    assert("installRoot"@.len() == 11 && "timeouts"@.len() == 8);
    assert("mode"@[0] == 'm' && "args"@[0] == 'a');
}

/// Every plan becomes a group, in order, that carries the plan's name and labels, selects what the plan
/// selects and runs what it says. The repository is the one that releases are published to.
pub proof fn every_plan_becomes_a_group(group: JsonView, plans: Seq<GroupPlanView>, place: int, root: Seq<char>)
    requires
        0 <= place < plans.len(),
    ensures
        planned_groups(group, plans).len() == plans.len(),
        planned_groups(group, plans)[place] == group_document(
            plans[place].name,
            plans[place].labels,
            plans[place].selector,
            planned_deployment(template_in(group), plans[place]),
        ),
        member_of(release_repository(root), "metadataUrl"@) == JsonView::Text(
            repository_url_text("metadata"@),
        ),
        member_of(release_repository(root), "targetsUrl"@) == JsonView::Text(
            repository_url_text("targets"@),
        ),
        member_of(release_repository(root), "rootJson"@) == JsonView::Text(root),
{
    crate::document_laws::parts_say_what_they_are_given(
        (Seq::empty(), Seq::empty()),
        Seq::empty(),
        repository_url_text("metadata"@),
        repository_url_text("targets"@),
        root,
    );
}

/// The load balancers carry a note of the release that they are to be upgraded to.
pub proof fn load_balancers_note_their_next_release(deployment: JsonView, release: HaproxyRelease)
    ensures
        ({
            let said = haproxy_document(deployment, release);
            let notes = member_of(member_of(said, "metadata"@), "annotations"@);
            &&& template_in(said) == deployment
            &&& member_of(notes, DEMO_HAPROXY_NEXT_PATH_ANNOTATION@) == JsonView::Text(
                release.v2_path@,
            )
            &&& member_of(notes, DEMO_HAPROXY_NEXT_SHA_ANNOTATION@) == JsonView::Text(
                release.v2_sha@,
            )
        }),
{
    let notes = seq![
        (DEMO_HAPROXY_NEXT_PATH_ANNOTATION@, release.v2_path@),
        (DEMO_HAPROXY_NEXT_SHA_ANNOTATION@, release.v2_sha@),
    ];
    crate::document_laws::groups_say_what_they_select_and_run(
        DEMO_HAPROXY_GROUP@,
        Seq::empty(),
        notes,
        seq![("demo.updated.dev/cohort"@, DEMO_HAPROXY_COHORT@)],
        deployment,
    );
    reveal_strlit("demo.updated.dev/next-path");
    reveal_strlit("demo.updated.dev/next-sha256");
    assert(DEMO_HAPROXY_NEXT_PATH_ANNOTATION@.len() == 26);
    assert(DEMO_HAPROXY_NEXT_SHA_ANNOTATION@.len() == 28);
    crate::document_laws::labels_say_their_last_value(notes, 0, Seq::empty());
    crate::document_laws::labels_say_their_last_value(notes, 1, Seq::empty());
}

} // verus!
