//! What the demo's own programs may do to the cluster's resources.

use crate::text::str_views;
use vstd::prelude::*;

verus! {

/// What may be done to one kind of resource.
pub struct AccessRule {
    pub api_group: &'static str,
    pub resource: &'static str,
    pub verbs: Vec<&'static str>,
}

/// A role, and the account that holds it.
pub struct RolePlan {
    pub name: &'static str,
    pub account: &'static str,
    pub rules: Vec<AccessRule>,
}

/// What a rule says.
pub struct RuleView {
    pub api_group: Seq<char>,
    pub resource: Seq<char>,
    pub verbs: Seq<Seq<char>>,
}

/// What a role says.
#[verifier::ext_equal]
pub struct RoleView {
    pub name: Seq<char>,
    pub account: Seq<char>,
    pub rules: Seq<RuleView>,
}

/// What some rules say.
pub open spec fn rule_views(rules: Seq<AccessRule>) -> Seq<RuleView> {
    Seq::new(
        rules.len(),
        |i: int|
            RuleView {
                api_group: rules[i].api_group@,
                resource: rules[i].resource@,
                verbs: str_views(rules[i].verbs@),
            },
    )
}

impl View for RolePlan {
    type V = RoleView;

    open spec fn view(&self) -> RoleView {
        RoleView { name: self.name@, account: self.account@, rules: rule_views(self.rules@) }
    }
}

/// What a deploy does to the groups.
pub open spec fn group_rule() -> RuleView {
    RuleView {
        api_group: "updated.dev"@,
        resource: "updategroups"@,
        verbs: seq!["get"@, "list"@, "patch"@],
    }
}

/// What a deploy does to the sets of groups.
pub open spec fn set_rule() -> RuleView {
    RuleView {
        api_group: "updated.dev"@,
        resource: "updategroupsets"@,
        verbs: seq!["get"@, "list"@, "create"@, "patch"@],
    }
}

/// The role of what publishes releases: it has no account of its own.
pub open spec fn deployer_role() -> RoleView {
    RoleView {
        name: "release-server-deployer"@,
        account: "default"@,
        rules: seq![group_rule(), set_rule()],
    }
}

/// The role of the console.
pub open spec fn console_role() -> RoleView {
    RoleView {
        name: "updatec-demo"@,
        account: "updatec-demo"@,
        rules: seq![
            RuleView {
                api_group: "updated.dev"@,
                resource: "updateagents"@,
                verbs: seq!["get"@, "list"@, "patch"@],
            },
            group_rule(),
            set_rule(),
            RuleView {
                api_group: ""@,
                resource: "pods"@,
                verbs: seq!["get"@, "list"@, "watch"@, "delete"@, "patch"@],
            },
        ],
    }
}

/// The role of what programs the endpoints of the machines outside the cluster.
pub open spec fn reconciler_role() -> RoleView {
    RoleView {
        name: "external-healthproxy"@,
        account: "external-healthproxy"@,
        rules: seq![
            RuleView {
                api_group: "discovery.k8s.io"@,
                resource: "endpointslices"@,
                verbs: seq!["get"@, "list"@, "watch"@, "create"@, "update"@, "patch"@],
            },
        ],
    }
}

fn rule(api_group: &'static str, resource: &'static str, verbs: Vec<&'static str>) -> (result:
    AccessRule)
    ensures
        result.api_group@ == api_group@,
        result.resource@ == resource@,
        result.verbs == verbs,
{
    AccessRule { api_group, resource, verbs }
}

fn plan_group_rule() -> (result: AccessRule)
    ensures
        result.api_group@ == group_rule().api_group,
        result.resource@ == group_rule().resource,
        str_views(result.verbs@) == group_rule().verbs,
{
    let verbs = vec!["get", "list", "patch"];
    assert(str_views(verbs@) =~= group_rule().verbs);
    rule("updated.dev", "updategroups", verbs)
}

fn plan_set_rule() -> (result: AccessRule)
    ensures
        result.api_group@ == set_rule().api_group,
        result.resource@ == set_rule().resource,
        str_views(result.verbs@) == set_rule().verbs,
{
    let verbs = vec!["get", "list", "create", "patch"];
    assert(str_views(verbs@) =~= set_rule().verbs);
    rule("updated.dev", "updategroupsets", verbs)
}

/// The role of what publishes releases.
pub fn plan_deployer_role() -> (result: RolePlan)
    ensures
        result@ == deployer_role(),
{
    let rules = vec![plan_group_rule(), plan_set_rule()];
    assert(rule_views(rules@) =~= deployer_role().rules);
    RolePlan { name: "release-server-deployer", account: "default", rules }
}

/// The role of the console.
pub fn plan_console_role() -> (result: RolePlan)
    ensures
        result@ == console_role(),
{
    let agents = vec!["get", "list", "patch"];
    let pods = vec!["get", "list", "watch", "delete", "patch"];
    assert(str_views(agents@) =~= console_role().rules[0].verbs);
    assert(str_views(pods@) =~= console_role().rules[3].verbs);
    let rules = vec![
        rule("updated.dev", "updateagents", agents),
        plan_group_rule(),
        plan_set_rule(),
        rule("", "pods", pods),
    ];
    assert(rule_views(rules@) =~= console_role().rules);
    RolePlan { name: "updatec-demo", account: "updatec-demo", rules }
}

/// The role of what programs the endpoints of the machines outside the cluster.
pub fn plan_reconciler_role() -> (result: RolePlan)
    ensures
        result@ == reconciler_role(),
{
    let slices = vec!["get", "list", "watch", "create", "update", "patch"];
    assert(str_views(slices@) =~= reconciler_role().rules[0].verbs);
    let rules = vec![rule("discovery.k8s.io", "endpointslices", slices)];
    assert(rule_views(rules@) =~= reconciler_role().rules);
    RolePlan { name: "external-healthproxy", account: "external-healthproxy", rules }
}

/// Whether a role may do something to a kind of resource.
pub open spec fn may(role: RoleView, resource: Seq<char>, verb: Seq<char>) -> bool {
    exists|i: int|
        0 <= i < role.rules.len() && (#[trigger] role.rules[i]).resource == resource
            && role.rules[i].verbs.contains(verb)
}

/// None of the demo's programs may delete anything but pods, and only the console may delete those.
pub proof fn only_pods_may_be_deleted(resource: Seq<char>)
    ensures
        may(console_role(), resource, "delete"@) == (resource == "pods"@),
        !may(deployer_role(), resource, "delete"@),
        !may(reconciler_role(), resource, "delete"@),
{
    reveal_strlit("delete");
    reveal_strlit("get");
    reveal_strlit("list");
    reveal_strlit("watch");
    reveal_strlit("create");
    reveal_strlit("update");
    reveal_strlit("patch");
    let letters = "delete"@;
    assert(letters.len() == 6 && letters[0] == 'd');
    assert("update"@[0] == 'u' && "create"@[0] == 'c');
    let console = console_role();
    assert(console.rules[3].verbs[3] == "delete"@);
    assert(console.rules[3].verbs.contains("delete"@));
    assert(console.rules[3].resource == "pods"@);
    assert forall|i: int| 0 <= i < 3 implies !(#[trigger] console.rules[i]).verbs.contains(
        "delete"@,
    ) by {
        let verbs = console.rules[i].verbs;
        if verbs.contains("delete"@) {
            let at = choose|j: int| 0 <= j < verbs.len() && verbs[j] == "delete"@;
            assert(verbs[at] == "get"@ || verbs[at] == "list"@ || verbs[at] == "create"@ || verbs[at]
                == "patch"@);
        }
    }
    let deployer = deployer_role();
    assert forall|i: int| 0 <= i < 2 implies !(#[trigger] deployer.rules[i]).verbs.contains(
        "delete"@,
    ) by {
        let verbs = deployer.rules[i].verbs;
        if verbs.contains("delete"@) {
            let at = choose|j: int| 0 <= j < verbs.len() && verbs[j] == "delete"@;
            assert(verbs[at] == "get"@ || verbs[at] == "list"@ || verbs[at] == "create"@ || verbs[at]
                == "patch"@);
        }
    }
    let verbs = reconciler_role().rules[0].verbs;
    if verbs.contains("delete"@) {
        let at = choose|j: int| 0 <= j < verbs.len() && verbs[j] == "delete"@;
        assert(verbs[at] == "get"@ || verbs[at] == "list"@ || verbs[at] == "watch"@ || verbs[at]
            == "create"@ || verbs[at] == "update"@ || verbs[at] == "patch"@);
    }
}

/// The console, which deploys releases too, may do all that a deploy takes.
pub proof fn the_console_may_deploy(resource: Seq<char>, verb: Seq<char>)
    requires
        may(deployer_role(), resource, verb),
    ensures
        may(console_role(), resource, verb),
{
    let deployer = deployer_role();
    let console = console_role();
    let at = choose|i: int|
        0 <= i < deployer.rules.len() && (#[trigger] deployer.rules[i]).resource == resource
            && deployer.rules[i].verbs.contains(verb);
    assert(console.rules[at + 1] == deployer.rules[at]);
}

/// A role may do to a kind of resource exactly what it is given: a deploy reads and patches groups, and
/// makes and patches sets too; the console also reads and patches agents, and watches, deletes and
/// patches pods; the reconciler writes endpoint slices and touches nothing else.
pub proof fn roles_allow_what_they_are_given(resource: Seq<char>, verb: Seq<char>)
    ensures
        ({
            let reads = verb == "get"@ || verb == "list"@;
            let groups = resource == "updategroups"@ && (reads || verb == "patch"@);
            let sets = resource == "updategroupsets"@ && (reads || verb == "create"@ || verb
                == "patch"@);
            let agents = resource == "updateagents"@ && (reads || verb == "patch"@);
            let pods = resource == "pods"@ && (reads || verb == "watch"@ || verb == "delete"@ || verb
                == "patch"@);
            &&& may(deployer_role(), resource, verb) <==> groups || sets
            &&& may(console_role(), resource, verb) <==> groups || sets || agents || pods
            &&& may(reconciler_role(), resource, verb) <==> resource == "endpointslices"@ && (reads
                || verb == "watch"@ || verb == "create"@ || verb == "update"@ || verb == "patch"@)
        }),
{
    lemma_rule_verbs(group_rule(), verb);
    lemma_rule_verbs(set_rule(), verb);
    let deployer = deployer_role();
    assert(deployer.rules[0] == group_rule() && deployer.rules[1] == set_rule());
    let console = console_role();
    assert(console.rules[1] == group_rule() && console.rules[2] == set_rule());
    lemma_rule_verbs(console.rules[0], verb);
    lemma_rule_verbs(console.rules[3], verb);
    let reconciler = reconciler_role();
    lemma_rule_verbs(reconciler.rules[0], verb);
    assert(may(deployer, resource, verb) ==> (deployer.rules[0].resource == resource
        && deployer.rules[0].verbs.contains(verb)) || (deployer.rules[1].resource == resource
        && deployer.rules[1].verbs.contains(verb)));
    assert(may(console, resource, verb) ==> (console.rules[0].resource == resource
        && console.rules[0].verbs.contains(verb)) || (console.rules[1].resource == resource
        && console.rules[1].verbs.contains(verb)) || (console.rules[2].resource == resource
        && console.rules[2].verbs.contains(verb)) || (console.rules[3].resource == resource
        && console.rules[3].verbs.contains(verb)));
}

proof fn lemma_rule_verbs(rule: RuleView, verb: Seq<char>)
    requires
        rule.verbs.len() <= 6,
    ensures
        rule.verbs.contains(verb) <==> (0 < rule.verbs.len() && rule.verbs[0] == verb) || (1
            < rule.verbs.len() && rule.verbs[1] == verb) || (2 < rule.verbs.len() && rule.verbs[2]
            == verb) || (3 < rule.verbs.len() && rule.verbs[3] == verb) || (4 < rule.verbs.len()
            && rule.verbs[4] == verb) || (5 < rule.verbs.len() && rule.verbs[5] == verb),
{
}

} // verus!
