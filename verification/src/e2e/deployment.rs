//! Deployments, and the repositories, groups and sets they belong to.

use crate::e2e::fixture::{
    app_target, install, installed, is_graph, kind_graph, kind_release_graph, write_app_target,
    GraphView, ReleaseGraph, ASSIGNMENT_PREFIX, SIGNING_SECRET, STATE_MAX_SHARDS, STORAGE_SECRET,
};
use crate::e2e::layout::{
    repository_flags_text, repository_url_text, NAMESPACE, RELEASE_BUCKET, RELEASE_ENDPOINT,
    RELEASE_PUBLIC_ENDPOINT, RELEASE_REGION, REPOSITORY_NAME,
};
use crate::labels::Label;
use crate::resources::{label, pairs, target, Timeouts};
use crate::text::{quoted, quoted_text, same, view_of, views};
use vstd::prelude::*;

verus! {

// ----- deployments -----

/// The limits under which a node runs a release.
#[derive(Clone, Copy, PartialEq, Eq, Structural, Debug)]
pub struct RuntimeLimits {
    pub metadata_limit: u64,
    pub target_limit: u64,
    pub transport_timeout: u64,
    pub inactive_releases: u64,
    pub inactive_bytes: u64,
    pub inactive_repository_caches: u64,
    pub timeouts: Timeouts,
}

/// The limits under which every node runs a release.
pub open spec fn shared_limits() -> RuntimeLimits {
    RuntimeLimits {
        metadata_limit: 1_048_576,
        target_limit: 536_870_912,
        transport_timeout: 30,
        inactive_releases: 2,
        inactive_bytes: 1_073_741_824,
        inactive_repository_caches: 2,
        timeouts: Timeouts {
            check_interval: 1,
            health_grace: 30,
            health_successes: 2,
            health_interval: 1,
            retry_after: None,
            refresh_retry: 2,
            confirmation_window: 2,
            supervisor_check_interval: None,
            drain_hold: None,
        },
    }
}

/// How a node runs a release.
pub struct RuntimeSpec {
    pub product: &'static str,
    pub channel: &'static str,
    pub install_root: &'static str,
    pub limits: RuntimeLimits,
}

/// How a node runs a release.
#[verifier::ext_equal]
pub struct RuntimeView {
    pub product: Seq<char>,
    pub channel: Seq<char>,
    pub install_root: Seq<char>,
    pub limits: RuntimeLimits,
}

impl View for RuntimeSpec {
    type V = RuntimeView;

    open spec fn view(&self) -> RuntimeView {
        RuntimeView {
            product: self.product@,
            channel: self.channel@,
            install_root: self.install_root@,
            limits: self.limits,
        }
    }
}

/// How every node runs a release.
pub open spec fn shared_runtime() -> RuntimeView {
    RuntimeView {
        product: "app"@,
        channel: "stable"@,
        install_root: "/var/lib/updated"@,
        limits: shared_limits(),
    }
}

/// How every node runs a release.
pub fn runtime() -> (result: RuntimeSpec)
    ensures
        result@ == shared_runtime(),
{
    RuntimeSpec {
        product: "app",
        channel: "stable",
        install_root: "/var/lib/updated",
        limits: RuntimeLimits {
            metadata_limit: 1_048_576,
            target_limit: 536_870_912,
            transport_timeout: 30,
            inactive_releases: 2,
            inactive_bytes: 1_073_741_824,
            inactive_repository_caches: 2,
            timeouts: Timeouts {
                check_interval: 1,
                health_grace: 30,
                health_successes: 2,
                health_interval: 1,
                retry_after: None,
                refresh_retry: 2,
                confirmation_window: 2,
                supervisor_check_interval: None,
                drain_hold: None,
            },
        },
    }
}

/// What a group of nodes is to run, and from where.
pub struct DeploymentSpec {
    pub name: String,
    pub metadata_url: String,
    pub targets_url: String,
    pub root_json: String,
    pub application: ReleaseGraph,
    pub runtime: RuntimeSpec,
}

/// What a group of nodes is to run, from where, and how.
#[verifier::ext_equal]
pub struct DeploymentView {
    pub name: Seq<char>,
    pub metadata_url: Seq<char>,
    pub targets_url: Seq<char>,
    pub root_json: Seq<char>,
    pub application: GraphView,
    pub runtime: RuntimeView,
}

impl View for DeploymentSpec {
    type V = DeploymentView;

    open spec fn view(&self) -> DeploymentView {
        DeploymentView {
            name: self.name@,
            metadata_url: self.metadata_url@,
            targets_url: self.targets_url@,
            root_json: self.root_json@,
            application: self.application@,
            runtime: self.runtime@,
        }
    }
}

/// Whether a deployment is well formed: its graph lists every version once, and it runs as every
/// deployment does.
pub open spec fn is_deployment(deployment: DeploymentSpec) -> bool {
    is_graph(deployment.application) && deployment.runtime@ == shared_runtime()
}

/// A deployment of some releases from the repository at an origin.
pub open spec fn deployment_of(
    origin: Seq<char>,
    name: Seq<char>,
    root_json: Seq<char>,
    application: GraphView,
) -> DeploymentView {
    DeploymentView {
        name,
        metadata_url: "https://release-"@ + origin + "/metadata/"@,
        targets_url: "https://release-"@ + origin + "/targets/"@,
        root_json,
        application,
        runtime: shared_runtime(),
    }
}

fn origin_url(origin: &str, part: &str) -> (result: String)
    ensures
        result@ == "https://release-"@ + origin@ + part@,
{
    let mut url = String::from_str("https://release-");
    url.append(origin);
    url.append(part);
    url
}

fn deploy(origin: &str, name: &str, root_json: &str, application: ReleaseGraph) -> (result:
    DeploymentSpec)
    requires
        is_graph(application),
    ensures
        is_deployment(result),
        result@ == deployment_of(origin@, name@, root_json@, application@),
{
    DeploymentSpec {
        name: name.to_owned(),
        metadata_url: origin_url(origin, "/metadata/"),
        targets_url: origin_url(origin, "/targets/"),
        root_json: root_json.to_owned(),
        application,
        runtime: runtime(),
    }
}

/// The deployment of one release.
pub open spec fn named_deployment(
    origin: Seq<char>,
    name: Seq<char>,
    version: Seq<char>,
    platform: Seq<char>,
    app_sha: Seq<char>,
    root_json: Seq<char>,
) -> DeploymentView {
    deployment_of(
        origin,
        name,
        root_json,
        installed(version, (app_target(version, platform), app_sha)),
    )
}

/// The deployment of one release.
pub fn deployment_with_name(
    origin: &str,
    deployment_name: &str,
    version: &str,
    platform: &str,
    app_sha: &str,
    root_json: &str,
) -> (result: DeploymentSpec)
    ensures
        is_deployment(result),
        result@ == named_deployment(
            origin@,
            deployment_name@,
            version@,
            platform@,
            app_sha@,
            root_json@,
        ),
{
    let package = target(write_app_target(version, platform).as_str(), app_sha);
    deploy(origin, deployment_name, root_json, install(version, package))
}

/// However deployments differ, they run under the same bounds.
pub proof fn runtime_bounds_are_shared(
    left: (Seq<char>, Seq<char>, Seq<char>, GraphView),
    right: (Seq<char>, Seq<char>, Seq<char>, GraphView),
)
    ensures
        deployment_of(left.0, left.1, left.2, left.3).runtime == deployment_of(
            right.0,
            right.1,
            right.2,
            right.3,
        ).runtime,
{
}

/// Deployments of one release from one origin differ in nothing but the name they go by.
pub proof fn deployments_differ_only_in_their_names(
    origin: Seq<char>,
    left: Seq<char>,
    right: Seq<char>,
    version: Seq<char>,
    platform: Seq<char>,
    app_sha: Seq<char>,
    root_json: Seq<char>,
)
    ensures
        named_deployment(origin, left, version, platform, app_sha, root_json) == (DeploymentView {
            name: left,
            ..named_deployment(origin, right, version, platform, app_sha, root_json)
        }),
{
}

// ----- repositories -----

/// Who may enroll with a repository.
#[derive(Clone, Copy, PartialEq, Eq, Structural, Debug)]
pub enum EnrollmentMode {
    /// Whoever the gateway lets through.
    Open,
}

/// How nodes enroll with a repository, and the labels that they get by it.
pub struct EnrollmentSpec {
    pub mode: EnrollmentMode,
    pub labels: Vec<Label>,
}

/// The repository that a fleet is assigned from, with what a node runs that no group selects.
pub struct RepositorySpec {
    pub name: &'static str,
    pub namespace: &'static str,
    pub default_deployment: DeploymentSpec,
    pub signing_secret: &'static str,
    pub enrollment: EnrollmentSpec,
    pub bucket: &'static str,
    pub region: &'static str,
    pub storage_secret: &'static str,
    pub endpoint: &'static str,
    pub public_endpoint: &'static str,
    pub assignment_prefix: &'static str,
    pub state_max_shards: u8,
}

/// Whether this is the repository that a fleet is assigned from, with this default. Enrollment with
/// it is open, and gives a node no labels.
pub open spec fn is_repository(repository: RepositorySpec, deployment: DeploymentView) -> bool {
    &&& repository.default_deployment@ == deployment
    &&& repository.name@ == REPOSITORY_NAME@
    &&& repository.namespace@ == NAMESPACE@
    &&& repository.signing_secret@ == SIGNING_SECRET@
    &&& repository.enrollment.mode == EnrollmentMode::Open
    &&& repository.enrollment.labels@.len() == 0
    &&& repository.bucket@ == RELEASE_BUCKET@
    &&& repository.region@ == RELEASE_REGION@
    &&& repository.storage_secret@ == STORAGE_SECRET@
    &&& repository.endpoint@ == RELEASE_ENDPOINT@
    &&& repository.public_endpoint@ == RELEASE_PUBLIC_ENDPOINT@
    &&& repository.assignment_prefix@ == ASSIGNMENT_PREFIX@
    &&& repository.state_max_shards == STATE_MAX_SHARDS
}

/// The repository that a fleet is assigned from.
pub fn repository(default_deployment: DeploymentSpec) -> (result: RepositorySpec)
    ensures
        is_repository(result, default_deployment@),
        result.default_deployment == default_deployment,
{
    RepositorySpec {
        name: REPOSITORY_NAME,
        namespace: NAMESPACE,
        default_deployment,
        signing_secret: SIGNING_SECRET,
        enrollment: EnrollmentSpec { mode: EnrollmentMode::Open, labels: Vec::new() },
        bucket: RELEASE_BUCKET,
        region: RELEASE_REGION,
        storage_secret: STORAGE_SECRET,
        endpoint: RELEASE_ENDPOINT,
        public_endpoint: RELEASE_PUBLIC_ENDPOINT,
        assignment_prefix: ASSIGNMENT_PREFIX,
        state_max_shards: STATE_MAX_SHARDS,
    }
}

// ----- groups -----

/// A group: the labels it carries, the nodes it selects, what they run, and how many of them may be
/// unavailable at once.
pub struct GroupSpec {
    pub name: String,
    pub namespace: &'static str,
    pub repository: &'static str,
    pub labels: Vec<Label>,
    pub selector: Vec<Label>,
    /// The groups that it waits for.
    pub depends_on: Vec<String>,
    /// What it takes from other groups.
    pub inputs: Vec<Label>,
    pub deployment: DeploymentSpec,
    pub max_unavailable: Option<usize>,
    pub emergency_correction: bool,
}

/// A group.
#[verifier::ext_equal]
pub struct GroupSpecView {
    pub name: Seq<char>,
    pub namespace: Seq<char>,
    pub repository: Seq<char>,
    pub labels: Seq<(Seq<char>, Seq<char>)>,
    pub selector: Seq<(Seq<char>, Seq<char>)>,
    pub depends_on: Seq<Seq<char>>,
    pub inputs: Seq<(Seq<char>, Seq<char>)>,
    pub deployment: DeploymentView,
    pub max_unavailable: Option<usize>,
    pub emergency_correction: bool,
}

impl View for GroupSpec {
    type V = GroupSpecView;

    open spec fn view(&self) -> GroupSpecView {
        GroupSpecView {
            name: self.name@,
            namespace: self.namespace@,
            repository: self.repository@,
            labels: pairs(self.labels@),
            selector: pairs(self.selector@),
            depends_on: views(self.depends_on@),
            inputs: pairs(self.inputs@),
            deployment: self.deployment@,
            max_unavailable: self.max_unavailable,
            emergency_correction: self.emergency_correction,
        }
    }
}

/// The group of the small fleet's nodes with a role.
pub open spec fn role_group(name: Seq<char>, role: Seq<char>, deployment: DeploymentView) -> GroupSpecView {
    GroupSpecView {
        name,
        namespace: NAMESPACE@,
        repository: REPOSITORY_NAME@,
        labels: Seq::empty(),
        selector: seq![("updated.dev/role"@, role)],
        depends_on: Seq::empty(),
        inputs: Seq::empty(),
        deployment,
        max_unavailable: None,
        emergency_correction: false,
    }
}

/// The group of the small fleet's nodes with a role.
pub fn kind_group(name: &str, role: &str, deployment: DeploymentSpec) -> (result: GroupSpec)
    ensures
        result@ == role_group(name@, role@, deployment@),
        result.deployment == deployment,
{
    let group = GroupSpec {
        name: name.to_owned(),
        namespace: NAMESPACE,
        repository: REPOSITORY_NAME,
        labels: Vec::new(),
        selector: vec![label("updated.dev/role", role)],
        depends_on: Vec::new(),
        inputs: Vec::new(),
        deployment,
        max_unavailable: None,
        emergency_correction: false,
    };
    assert(views(group.depends_on@) =~= Seq::<Seq<char>>::empty());
    assert(pairs(group.inputs@) =~= Seq::<(Seq<char>, Seq<char>)>::empty());
    assert(pairs(group.labels@) =~= Seq::<(Seq<char>, Seq<char>)>::empty());
    assert(pairs(group.selector@) =~= seq![("updated.dev/role"@, role@)]);
    group
}

// ----- sets of groups -----

/// What a set does about a regression.
#[derive(Clone, Copy, PartialEq, Eq, Structural, Debug)]
pub enum RegressionResponse {
    Halt,
    Rollback,
}

/// A throttle set: the groups it selects, how many of them may roll at once, and what is done about
/// a regression.
pub struct GroupSetSpec {
    pub name: String,
    pub namespace: &'static str,
    pub repository: &'static str,
    pub selector: Vec<Label>,
    pub max_concurrent: Option<u32>,
    pub max_regressions: Option<u32>,
    pub on_regression: RegressionResponse,
    pub stuck_after_seconds: Option<u64>,
}

/// A throttle set.
#[verifier::ext_equal]
pub struct GroupSetView {
    pub name: Seq<char>,
    pub namespace: Seq<char>,
    pub repository: Seq<char>,
    pub selector: Seq<(Seq<char>, Seq<char>)>,
    pub max_concurrent: Option<u32>,
    pub max_regressions: Option<u32>,
    pub on_regression: RegressionResponse,
    pub stuck_after_seconds: Option<u64>,
}

impl View for GroupSetSpec {
    type V = GroupSetView;

    open spec fn view(&self) -> GroupSetView {
        GroupSetView {
            name: self.name@,
            namespace: self.namespace@,
            repository: self.repository@,
            selector: pairs(self.selector@),
            max_concurrent: self.max_concurrent,
            max_regressions: self.max_regressions,
            on_regression: self.on_regression,
            stuck_after_seconds: self.stuck_after_seconds,
        }
    }
}

/// What some throttle sets say.
pub open spec fn group_set_views(sets: Seq<GroupSetSpec>) -> Seq<GroupSetView> {
    Seq::new(sets.len(), |i: int| sets[i]@)
}

/// A throttle set of the repository, which bounds no regressions and halts at one.
pub open spec fn group_set_of(
    name: Seq<char>,
    selector: Seq<(Seq<char>, Seq<char>)>,
    max_concurrent: Option<u32>,
) -> GroupSetView {
    GroupSetView {
        name,
        namespace: NAMESPACE@,
        repository: REPOSITORY_NAME@,
        selector,
        max_concurrent,
        max_regressions: None,
        on_regression: RegressionResponse::Halt,
        stuck_after_seconds: None,
    }
}

/// A throttle set. It belongs to the repository, so that none is left without the controller that
/// owns it.
pub fn group_set_resource(name: &str, selector: Vec<Label>, max_concurrent: Option<u32>) -> (result:
    GroupSetSpec)
    ensures
        result@ == group_set_of(name@, pairs(selector@), max_concurrent),
{
    GroupSetSpec {
        name: name.to_owned(),
        namespace: NAMESPACE,
        repository: REPOSITORY_NAME,
        selector,
        max_concurrent,
        max_regressions: None,
        on_regression: RegressionResponse::Halt,
        stuck_after_seconds: None,
    }
}

/// Whether a set belongs to the repository that the fleet is assigned from.
pub open spec fn is_scoped(set: GroupSetView) -> bool {
    set.repository == REPOSITORY_NAME@ && set.namespace == NAMESPACE@
}

// ----- the small fleet -----

/// What the small fleet's resources are made from.
pub struct KindArguments {
    pub platform: String,
    pub v1_sha: String,
    pub v2_sha: String,
    pub v3_sha: String,
    pub root_path: String,
    pub mode: Option<String>,
}

/// The first thing wrong with the arguments, if anything is.
pub open spec fn argument_error(count: nat) -> Option<Seq<char>> {
    if count < 1 {
        Some("resources needs a platform"@)
    } else if count < 2 {
        Some("resources needs the v1 sha256"@)
    } else if count < 3 {
        Some("resources needs the v2 sha256"@)
    } else if count < 4 {
        Some("resources needs the v3 sha256"@)
    } else if count < 5 {
        Some("resources needs a root.json path"@)
    } else if count > 6 {
        Some("resources received unexpected arguments"@)
    } else {
        None
    }
}

/// Reads the arguments.
pub fn kind_arguments(arguments: &Vec<String>) -> (result: Result<KindArguments, String>)
    ensures
        match result {
            Ok(found) => argument_error(arguments@.len()) is None && found.platform@
                == arguments@[0]@ && found.v1_sha@ == arguments@[1]@ && found.v2_sha@
                == arguments@[2]@ && found.v3_sha@ == arguments@[3]@ && found.root_path@
                == arguments@[4]@ && view_of(found.mode) == (if arguments@.len() == 6 {
                Some(arguments@[5]@)
            } else {
                None
            }),
            Err(message) => argument_error(arguments@.len()) == Some(message@),
        },
{
    let count: usize = arguments.len();
    if count < 1 {
        return Err(String::from_str("resources needs a platform"));
    }
    if count < 2 {
        return Err(String::from_str("resources needs the v1 sha256"));
    }
    if count < 3 {
        return Err(String::from_str("resources needs the v2 sha256"));
    }
    if count < 4 {
        return Err(String::from_str("resources needs the v3 sha256"));
    }
    if count < 5 {
        return Err(String::from_str("resources needs a root.json path"));
    }
    if count > 6 {
        return Err(String::from_str("resources received unexpected arguments"));
    }
    let mode = if count == 6 {
        Some(arguments[5].clone())
    } else {
        None
    };
    Ok(
        KindArguments {
            platform: arguments[0].clone(),
            v1_sha: arguments[1].clone(),
            v2_sha: arguments[2].clone(),
            v3_sha: arguments[3].clone(),
            root_path: arguments[4].clone(),
            mode,
        },
    )
}

/// A deployment of the small fleet.
pub open spec fn kind_deployment(
    arguments: KindArguments,
    root: Seq<char>,
    origin: Seq<char>,
    version: Seq<char>,
) -> DeploymentView {
    deployment_of(
        origin,
        origin,
        root,
        kind_graph(
            arguments.platform@,
            version,
            seq![arguments.v1_sha@, arguments.v2_sha@, arguments.v3_sha@],
        ),
    )
}

fn make_kind_deployment(arguments: &KindArguments, root: &str, origin: &str, version: &str) -> (result:
    DeploymentSpec)
    ensures
        is_deployment(result),
        result@ == kind_deployment(*arguments, root@, origin@, version@),
{
    let graph = kind_release_graph(
        arguments.platform.as_str(),
        version,
        arguments.v1_sha.as_str(),
        arguments.v2_sha.as_str(),
        arguments.v3_sha.as_str(),
    );
    deploy(origin, origin, root, graph)
}

/// The resources of the small fleet, in the order in which they are written.
pub struct KindResources {
    pub groups: Vec<GroupSpec>,
    pub repository: Option<RepositorySpec>,
}

/// What some groups say.
pub open spec fn group_views(groups: Seq<GroupSpec>) -> Seq<GroupSpecView> {
    Seq::new(groups.len(), |i: int| groups[i]@)
}

/// The resources of the small fleet: its two groups and its repository; or, in the mode that is
/// to be refused, a group that claims the nodes of another.
pub fn kind_resources(arguments: &KindArguments, root: &str) -> (result: Result<
    KindResources,
    String,
>)
    ensures
        match (result, view_of(arguments.mode)) {
            (Ok(found), None) => group_views(found.groups@) == seq![
                role_group("edge"@, "edge"@, kind_deployment(*arguments, root@, "edge"@, "2.0.0"@)),
                role_group(
                    "batch"@,
                    "batch"@,
                    kind_deployment(*arguments, root@, "batch"@, "3.0.0"@),
                ),
            ] && found.repository is Some && is_repository(
                found.repository->0,
                kind_deployment(*arguments, root@, "default"@, "1.0.0"@),
            ),
            (Ok(found), Some(mode)) => mode == "overlap"@ && group_views(found.groups@) == seq![
                role_group(
                    "overlapping-edge"@,
                    "edge"@,
                    kind_deployment(*arguments, root@, "default"@, "1.0.0"@),
                ),
            ] && found.repository is None,
            (Err(message), Some(mode)) => mode != "overlap"@ && message@
                == "unknown resources mode "@ + quoted_text(mode),
            (Err(_), None) => false,
        },
        result matches Ok(found) ==> forall|i: int|
            0 <= i < found.groups@.len() ==> is_deployment((#[trigger] found.groups@[i]).deployment),
        result matches Ok(found) ==> found.repository is Some ==> is_deployment(
            found.repository->0.default_deployment,
        ),
{
    match &arguments.mode {
        None => {
            let edge = kind_group(
                "edge",
                "edge",
                make_kind_deployment(arguments, root, "edge", "2.0.0"),
            );
            let batch = kind_group(
                "batch",
                "batch",
                make_kind_deployment(arguments, root, "batch", "3.0.0"),
            );
            let groups: Vec<GroupSpec> = vec![edge, batch];
            assert(group_views(groups@) =~= seq![edge@, batch@]);
            let whole = repository(make_kind_deployment(arguments, root, "default", "1.0.0"));
            Ok(KindResources { groups, repository: Some(whole) })
        },
        Some(mode) => {
            if same(mode.as_str(), "overlap") {
                let overlap = kind_group(
                    "overlapping-edge",
                    "edge",
                    make_kind_deployment(arguments, root, "default", "1.0.0"),
                );
                let groups: Vec<GroupSpec> = vec![overlap];
                assert(group_views(groups@) =~= seq![overlap@]);
                Ok(KindResources { groups, repository: None })
            } else {
                let mut message = String::from_str("unknown resources mode ");
                message.append(quoted(mode.as_str()).as_str());
                Err(message)
            }
        },
    }
}

// ----- what is deployed -----

/// A deployment goes by its name and is fetched from its origin; that of one release has that release as
/// its target and installs it.
pub proof fn deployments_are_fetched_from_their_origin(
    origin: Seq<char>,
    name: Seq<char>,
    version: Seq<char>,
    platform: Seq<char>,
    app_sha: Seq<char>,
    root_json: Seq<char>,
)
    ensures
        ({
            let deployment = named_deployment(origin, name, version, platform, app_sha, root_json);
            &&& deployment.name == name
            &&& deployment.metadata_url == "https://release-"@ + origin + "/metadata/"@
            &&& deployment.targets_url == "https://release-"@ + origin + "/targets/"@
            &&& deployment.root_json == root_json
            &&& deployment.application.target == version
            &&& deployment.application.releases[version].package == (
                "products/app/stable/"@ + version + "/"@ + platform + "/app"@,
                app_sha,
            )
            &&& crate::e2e::fixture::leads_on(deployment.application, None)
            &&& deployment.runtime.product == "app"@
            &&& deployment.runtime.channel == "stable"@
            &&& deployment.runtime.install_root == "/var/lib/updated"@
            &&& deployment.runtime.limits.metadata_limit == 1024 * 1024
            &&& deployment.runtime.limits.target_limit == 512 * 1024 * 1024
            &&& deployment.runtime.limits.inactive_bytes == 1024 * 1024 * 1024
            &&& deployment.runtime.limits.timeouts.health_grace == 30
            &&& deployment.runtime.limits.timeouts.health_successes == 2
        }),
{
}

/// A deployment of the small fleet goes by its origin, and knows each of the three releases by the digest
/// that was given for it.
pub proof fn the_small_fleet_knows_three_releases(
    arguments: KindArguments,
    root: Seq<char>,
    origin: Seq<char>,
    version: Seq<char>,
)
    ensures
        ({
            let deployment = kind_deployment(arguments, root, origin, version);
            &&& deployment.name == origin
            &&& deployment.metadata_url == "https://release-"@ + origin + "/metadata/"@
            &&& deployment.root_json == root
            &&& deployment.application.target == version
            &&& crate::e2e::fixture::knows_source(
                deployment.application,
                "1.0.0"@,
                arguments.v1_sha@,
            )
            &&& crate::e2e::fixture::knows_source(
                deployment.application,
                "2.0.0"@,
                arguments.v2_sha@,
            )
            &&& crate::e2e::fixture::knows_source(
                deployment.application,
                "3.0.0"@,
                arguments.v3_sha@,
            )
        }),
{
    crate::e2e::fixture::lemma_versions_differ();
}

/// Five or six arguments are taken, and no other number; what is missing first is what is asked for.
pub proof fn five_or_six_arguments_are_taken(count: nat)
    ensures
        argument_error(count) is None <==> count == 5 || count == 6,
        count == 0 ==> argument_error(count) == Some("resources needs a platform"@),
        count == 1 ==> argument_error(count) == Some("resources needs the v1 sha256"@),
        count == 2 ==> argument_error(count) == Some("resources needs the v2 sha256"@),
        count == 3 ==> argument_error(count) == Some("resources needs the v3 sha256"@),
        count == 4 ==> argument_error(count) == Some("resources needs a root.json path"@),
        count > 6 ==> argument_error(count) == Some("resources received unexpected arguments"@),
{
}

/// A group of the small fleet selects the nodes with its role and waits for nothing. A throttle set
/// bounds no regressions and halts at one, and leaves open when a group is stuck.
pub proof fn groups_and_sets_are_as_they_were_asked_for(
    name: Seq<char>,
    role: Seq<char>,
    deployment: DeploymentView,
    selector: Seq<(Seq<char>, Seq<char>)>,
    max_concurrent: Option<u32>,
)
    ensures
        ({
            let group = role_group(name, role, deployment);
            let set = group_set_of(name, selector, max_concurrent);
            &&& group.name == name
            &&& group.selector == seq![("updated.dev/role"@, role)]
            &&& group.labels.len() == 0 && group.depends_on.len() == 0 && group.inputs.len() == 0
            &&& group.deployment == deployment
            &&& group.max_unavailable is None
            &&& !group.emergency_correction
            &&& set.name == name
            &&& set.selector == selector
            &&& set.max_concurrent == max_concurrent
            &&& set.max_regressions is None
            &&& set.on_regression == RegressionResponse::Halt
            &&& set.stuck_after_seconds is None
            &&& is_scoped(set)
        }),
{
}

/// A repository stores where releases are published to, hands nodes what it is given as the default,
/// and lets whoever comes enroll, without labels.
pub proof fn repositories_store_where_releases_are_published(
    repository: RepositorySpec,
    deployment: DeploymentView,
)
    requires
        is_repository(repository, deployment),
    ensures
        repository.default_deployment@ == deployment,
        repository.namespace@ == NAMESPACE@ && repository.name@ == REPOSITORY_NAME@,
        repository.enrollment.mode is Open && repository.enrollment.labels@ == Seq::<Label>::empty(),
        repository_flags_text() == "--bucket "@ + repository.bucket@ + " --prefix releases --endpoint "@
            + repository.endpoint@ + " --region "@ + repository.region@,
        repository_url_text(repository.name@) == repository.public_endpoint@ + "/"@
            + repository.bucket@ + "/releases/"@ + repository.name@ + "/"@,
        repository.signing_secret@ == SIGNING_SECRET@,
        repository.storage_secret@ == STORAGE_SECRET@,
        repository.assignment_prefix@ == ASSIGNMENT_PREFIX@,
        repository.state_max_shards == STATE_MAX_SHARDS,
{
    reveal_strlit(" --prefix ");
    reveal_strlit("releases");
    reveal_strlit(" --endpoint ");
    reveal_strlit(" --prefix releases --endpoint ");
    reveal_strlit("/");
    reveal_strlit("/releases/");
    assert(" --prefix "@ + "releases"@ + " --endpoint "@ =~= " --prefix releases --endpoint "@);
    assert("/"@ + "releases"@ + "/"@ =~= "/releases/"@);
    assert(repository_flags_text() =~= "--bucket "@ + repository.bucket@ + (" --prefix "@
        + "releases"@ + " --endpoint "@) + repository.endpoint@ + " --region "@ + repository.region@);
    assert(repository_url_text(repository.name@) =~= repository.public_endpoint@ + "/"@
        + repository.bucket@ + ("/"@ + "releases"@ + "/"@) + repository.name@ + "/"@);
}

/// Every node asks each second what it is to run, and once a second whether that is healthy, for half
/// a minute and until it was so twice in a row. What it no longer runs it keeps twice over, in no
/// more than twice the room of the largest release; a release has at most half a gibibyte, metadata
/// at most a mebibyte.
pub proof fn limits_leave_room_for_two_releases(
    origin: Seq<char>,
    name: Seq<char>,
    root_json: Seq<char>,
    application: GraphView,
)
    ensures
        ({
            let limits = deployment_of(origin, name, root_json, application).runtime.limits;
            &&& limits.metadata_limit == 1024 * 1024
            &&& limits.target_limit == 512 * limits.metadata_limit
            &&& limits.inactive_releases == 2
            &&& limits.inactive_bytes == limits.inactive_releases * limits.target_limit
            &&& limits.inactive_repository_caches == limits.inactive_releases
            &&& limits.transport_timeout == limits.timeouts.health_grace == 30
            &&& limits.timeouts.check_interval == limits.timeouts.health_interval == 1
            &&& limits.timeouts.health_successes == 2
            &&& limits.timeouts.refresh_retry == limits.timeouts.confirmation_window == 2
            &&& limits.timeouts.retry_after is None
            &&& limits.timeouts.supervisor_check_interval is None
            &&& limits.timeouts.drain_hold is None
        }),
{
}

} // verus!
