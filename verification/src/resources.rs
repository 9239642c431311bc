//! The resources that a fleet is made of, as far as they vary.

use crate::labels::Label;
use vstd::prelude::*;

verus! {

/// How often a node does what, in seconds; how many successes make it healthy.
#[derive(Clone, Copy, PartialEq, Eq, Structural, Debug)]
pub struct Timeouts {
    pub check_interval: u64,
    pub health_grace: u64,
    pub health_successes: u64,
    pub health_interval: u64,
    pub retry_after: Option<u64>,
    pub refresh_retry: u64,
    pub confirmation_window: u64,
    pub supervisor_check_interval: Option<u64>,
    pub drain_hold: Option<u64>,
}

/// Where a target lies in a repository, and its digest.
pub struct TargetReference {
    pub path: String,
    pub sha256: String,
}

/// A target as its path and digest.
pub open spec fn target_view(target: TargetReference) -> (Seq<char>, Seq<char>) {
    (target.path@, target.sha256@)
}

/// A target.
pub fn target(path: &str, sha256: &str) -> (result: TargetReference)
    ensures
        target_view(result) == (path@, sha256@),
{
    TargetReference { path: path.to_owned(), sha256: sha256.to_owned() }
}

/// Labels as keys and values.
pub open spec fn pairs(labels: Seq<Label>) -> Seq<(Seq<char>, Seq<char>)> {
    Seq::new(labels.len(), |i: int| (labels[i].key@, labels[i].value@))
}

/// A label.
pub fn label(key: &str, value: &str) -> (result: Label)
    ensures
        result.key@ == key@,
        result.value@ == value@,
{
    Label { key: key.to_owned(), value: value.to_owned() }
}

/// Whether something with these labels is selected.
pub open spec fn is_selected(
    labels: Seq<(Seq<char>, Seq<char>)>,
    selector: Seq<(Seq<char>, Seq<char>)>,
) -> bool {
    forall|i: int| 0 <= i < selector.len() ==> labels.contains(#[trigger] selector[i])
}

/// A throttle set: what it selects, and how many of its groups may roll at once where that is
/// not left to the operator.
pub struct SetPlan {
    pub name: String,
    pub selector: Vec<Label>,
    pub max_concurrent: Option<u32>,
}

/// A throttle set.
#[verifier::ext_equal]
pub struct SetPlanView {
    pub name: Seq<char>,
    pub selector: Seq<(Seq<char>, Seq<char>)>,
    pub max_concurrent: Option<u32>,
}

/// What a planned set says.
pub open spec fn set_plan_view(plan: SetPlan) -> SetPlanView {
    SetPlanView {
        name: plan.name@,
        selector: pairs(plan.selector@),
        max_concurrent: plan.max_concurrent,
    }
}

/// What some planned sets say.
pub open spec fn set_plan_views(plans: Seq<SetPlan>) -> Seq<SetPlanView> {
    Seq::new(plans.len(), |i: int| set_plan_view(plans[i]))
}

/// A set of what carries one label.
pub fn plan_set(name: &str, key: &str, value: &str, max_concurrent: Option<u32>) -> (result: SetPlan)
    ensures
        set_plan_view(result) == (SetPlanView {
            name: name@,
            selector: seq![(key@, value@)],
            max_concurrent,
        }),
{
    let plan = SetPlan { name: name.to_owned(), selector: vec![label(key, value)], max_concurrent };
    assert(set_plan_view(plan).selector =~= seq![(key@, value@)]);
    plan
}

/// A service: what it selects; nothing, where something else gives it its endpoints.
pub struct ServicePlan {
    pub name: String,
    pub selector: Vec<Label>,
}

/// A service as its name and what it selects.
pub open spec fn service_plan_view(plan: ServicePlan) -> (Seq<char>, Seq<(Seq<char>, Seq<char>)>) {
    (plan.name@, pairs(plan.selector@))
}

/// Some services as their names and what they select.
pub open spec fn service_plan_views(plans: Seq<ServicePlan>) -> Seq<
    (Seq<char>, Seq<(Seq<char>, Seq<char>)>),
> {
    Seq::new(plans.len(), |i: int| service_plan_view(plans[i]))
}

/// The service in front of the agents that carry one label.
pub fn plan_service(name: &str, key: &str, value: &str) -> (result: ServicePlan)
    ensures
        service_plan_view(result) == (name@, seq![("app"@, "updated-agent"@), (key@, value@)]),
{
    let plan = ServicePlan {
        name: name.to_owned(),
        selector: vec![label("app", "updated-agent"), label(key, value)],
    };
    assert(pairs(plan.selector@) =~= seq![("app"@, "updated-agent"@), (key@, value@)]);
    plan
}

/// A service that selects nothing.
pub fn plan_bare_service(name: &str) -> (result: ServicePlan)
    ensures
        service_plan_view(result) == (name@, Seq::<(Seq<char>, Seq<char>)>::empty()),
{
    let plan = ServicePlan { name: name.to_owned(), selector: Vec::new() };
    assert(pairs(plan.selector@) =~= Seq::<(Seq<char>, Seq<char>)>::empty());
    plan
}

} // verus!
