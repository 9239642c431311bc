//! Repositories, groups and deployments as documents.

use crate::documents::{
    labels_document, labels_value, reference_document, reference_value, repository_document, repository_value, resource_document,
    resource_value, texts_document, texts_value, timeouts_document, timeouts_value, with_natural,
    API_VERSION,
};
use crate::e2e::deployment::{
    DeploymentSpec, EnrollmentMode, EnrollmentSpec, GroupSpec, RepositorySpec, RuntimeSpec,
    RuntimeView,
};
use crate::e2e::groups::{graph_document, graph_value};
use crate::json::{
    bare, flag_value, member_of, natural, number_value, object_value, set_member, text_value, value_content,
    JsonView,
};
use crate::resources::pairs;
use crate::text::views;
use serde_json::Value;
use vstd::prelude::*;

verus! {

/// How a node runs a release.
pub open spec fn runtime_document(runtime: RuntimeView) -> JsonView {
    let limits = runtime.limits;
    bare().with("product"@, JsonView::Text(runtime.product)).with(
        "channel"@,
        JsonView::Text(runtime.channel),
    ).with("installRoot"@, JsonView::Text(runtime.install_root)).with(
        "repository"@,
        bare().with("metadataLimit"@, natural(limits.metadata_limit)).with(
            "targetLimit"@,
            natural(limits.target_limit),
        ).with("transportTimeoutSeconds"@, natural(limits.transport_timeout)),
    ).with(
        "storage"@,
        bare().with("inactiveReleases"@, natural(limits.inactive_releases)).with(
            "inactiveBytes"@,
            natural(limits.inactive_bytes),
        ).with("inactiveRepositoryCaches"@, natural(limits.inactive_repository_caches)),
    ).with("timeouts"@, timeouts_document(limits.timeouts))
}

/// How a node runs a release.
pub fn runtime_value(runtime: &RuntimeSpec) -> (result: Value)
    ensures
        value_content(result) == runtime_document(runtime@),
{
    let limits = &runtime.limits;
    let mut repository = object_value();
    set_member(&mut repository, "metadataLimit", number_value(limits.metadata_limit));
    set_member(&mut repository, "targetLimit", number_value(limits.target_limit));
    set_member(
        &mut repository,
        "transportTimeoutSeconds",
        number_value(limits.transport_timeout),
    );
    let mut storage = object_value();
    set_member(&mut storage, "inactiveReleases", number_value(limits.inactive_releases));
    set_member(&mut storage, "inactiveBytes", number_value(limits.inactive_bytes));
    set_member(
        &mut storage,
        "inactiveRepositoryCaches",
        number_value(limits.inactive_repository_caches),
    );
    let mut document = object_value();
    set_member(&mut document, "product", text_value(runtime.product));
    set_member(&mut document, "channel", text_value(runtime.channel));
    set_member(&mut document, "installRoot", text_value(runtime.install_root));
    set_member(&mut document, "repository", repository);
    set_member(&mut document, "storage", storage);
    set_member(&mut document, "timeouts", timeouts_value(&limits.timeouts));
    document
}

/// What a group of nodes is to run, from where, and how.
pub open spec fn deployment_document(deployment: DeploymentSpec) -> JsonView {
    bare().with("name"@, JsonView::Text(deployment.name@)).with(
        "releaseRepository"@,
        repository_document(
            deployment.metadata_url@,
            deployment.targets_url@,
            deployment.root_json@,
        ),
    ).with("application"@, graph_document(deployment.application)).with(
        "runtime"@,
        runtime_document(deployment.runtime@),
    )
}

/// What a group of nodes is to run, from where, and how.
pub fn deployment_value(deployment: &DeploymentSpec) -> (result: Value)
    ensures
        value_content(result) == deployment_document(*deployment),
{
    let repository = repository_value(
        deployment.metadata_url.as_str(),
        deployment.targets_url.as_str(),
        deployment.root_json.as_str(),
    );
    let mut document = object_value();
    set_member(&mut document, "name", text_value(deployment.name.as_str()));
    set_member(&mut document, "releaseRepository", repository);
    set_member(&mut document, "application", graph_value(&deployment.application));
    set_member(&mut document, "runtime", runtime_value(&deployment.runtime));
    document
}

/// The name and place of a resource.
pub open spec fn placed_document(name: Seq<char>, namespace: Seq<char>) -> JsonView {
    bare().with("name"@, JsonView::Text(name)).with("namespace"@, JsonView::Text(namespace))
}

fn placed_value(name: &str, namespace: &str) -> (result: Value)
    ensures
        value_content(result) == placed_document(name@, namespace@),
{
    let mut document = object_value();
    set_member(&mut document, "name", text_value(name));
    set_member(&mut document, "namespace", text_value(namespace));
    document
}

/// A group.
pub open spec fn update_group_document(group: GroupSpec) -> JsonView {
    let place = placed_document(group.name@, group.namespace@);
    let metadata = if group.labels@.len() > 0 {
        place.with("labels"@, labels_document(pairs(group.labels@)))
    } else {
        place
    };
    let own = bare().with("repositoryRef"@, reference_document(group.repository@)).with(
        "selector"@,
        bare().with("matchLabels"@, labels_document(pairs(group.selector@))),
    ).with("dependsOn"@, texts_document(views(group.depends_on@))).with(
        "inputs"@,
        labels_document(pairs(group.inputs@)),
    ).with("deployment"@, deployment_document(group.deployment)).with(
        "emergencyCorrection"@,
        JsonView::Bool(group.emergency_correction),
    );
    resource_document(API_VERSION@, "UpdateGroup"@, metadata).with(
        "spec"@,
        with_natural(
            own,
            "maxUnavailable"@,
            match group.max_unavailable {
                Some(count) => Some(count as u64),
                None => None,
            },
        ),
    )
}

/// A group.
pub fn update_group_value(group: &GroupSpec) -> (result: Value)
    ensures
        value_content(result) == update_group_document(*group),
{
    let mut metadata = placed_value(group.name.as_str(), group.namespace);
    if group.labels.len() > 0 {
        set_member(&mut metadata, "labels", labels_value(&group.labels));
    }
    let mut selector = object_value();
    set_member(&mut selector, "matchLabels", labels_value(&group.selector));
    let mut own = object_value();
    set_member(&mut own, "repositoryRef", reference_value(group.repository));
    set_member(&mut own, "selector", selector);
    set_member(&mut own, "dependsOn", texts_value(&group.depends_on));
    set_member(&mut own, "inputs", labels_value(&group.inputs));
    set_member(&mut own, "deployment", deployment_value(&group.deployment));
    set_member(&mut own, "emergencyCorrection", flag_value(group.emergency_correction));
    match group.max_unavailable {
        Some(count) => {
            set_member(&mut own, "maxUnavailable", number_value(count as u64));
        },
        None => {},
    }
    let mut document = resource_value(API_VERSION, "UpdateGroup", metadata);
    set_member(&mut document, "spec", own);
    document
}

/// How nodes enroll with a repository.
pub open spec fn enrollment_document(enrollment: EnrollmentSpec) -> JsonView {
    bare().with(
        "mode"@,
        JsonView::Text(
            match enrollment.mode {
                EnrollmentMode::Open => "open"@,
            },
        ),
    ).with("labels"@, labels_document(pairs(enrollment.labels@)))
}

/// The repository that a fleet is assigned from.
pub open spec fn update_repository_document(repository: RepositorySpec) -> JsonView {
    let storage = bare().with("bucket"@, JsonView::Text(repository.bucket@)).with(
        "region"@,
        JsonView::Text(repository.region@),
    ).with(
        "credentialsSecretRef"@,
        reference_document(repository.storage_secret@),
    ).with("endpoint"@, JsonView::Text(repository.endpoint@)).with(
        "publicEndpoint"@,
        JsonView::Text(repository.public_endpoint@),
    );
    let own = bare().with(
        "defaultDeployment"@,
        deployment_document(repository.default_deployment),
    ).with(
        "signingSecretRef"@,
        reference_document(repository.signing_secret@),
    ).with("enrollment"@, enrollment_document(repository.enrollment)).with("s3"@, storage).with(
        "assignmentPrefix"@,
        JsonView::Text(repository.assignment_prefix@),
    ).with("stateMaxShards"@, natural(repository.state_max_shards as u64));
    resource_document(
        API_VERSION@,
        "UpdateRepository"@,
        placed_document(repository.name@, repository.namespace@),
    ).with("spec"@, own)
}

/// The repository that a fleet is assigned from.
pub fn update_repository_value(repository: &RepositorySpec) -> (result: Value)
    ensures
        value_content(result) == update_repository_document(*repository),
{
    let mut storage = object_value();
    set_member(&mut storage, "bucket", text_value(repository.bucket));
    set_member(&mut storage, "region", text_value(repository.region));
    set_member(
        &mut storage,
        "credentialsSecretRef",
        reference_value(repository.storage_secret),
    );
    set_member(&mut storage, "endpoint", text_value(repository.endpoint));
    set_member(&mut storage, "publicEndpoint", text_value(repository.public_endpoint));
    let mode = match repository.enrollment.mode {
        EnrollmentMode::Open => "open",
    };
    let mut enrollment = object_value();
    set_member(&mut enrollment, "mode", text_value(mode));
    set_member(&mut enrollment, "labels", labels_value(&repository.enrollment.labels));
    let mut own = object_value();
    set_member(&mut own, "defaultDeployment", deployment_value(&repository.default_deployment));
    set_member(&mut own, "signingSecretRef", reference_value(repository.signing_secret));
    set_member(&mut own, "enrollment", enrollment);
    set_member(&mut own, "s3", storage);
    set_member(&mut own, "assignmentPrefix", text_value(repository.assignment_prefix));
    set_member(&mut own, "stateMaxShards", number_value(repository.state_max_shards as u64));
    let mut document = resource_value(
        API_VERSION,
        "UpdateRepository",
        placed_value(repository.name, repository.namespace),
    );
    set_member(&mut document, "spec", own);
    document
}

// ----- what the documents say -----

/// A deployment says its name, where it is fetched from, what is run and how; each limit is said under
/// its own name.
pub proof fn deployments_say_what_is_run(deployment: DeploymentSpec, runtime: RuntimeView)
    ensures
        ({
            let said = deployment_document(deployment);
            let how = runtime_document(runtime);
            let fetched = member_of(how, "repository"@);
            let kept = member_of(how, "storage"@);
            &&& member_of(said, "name"@) == JsonView::Text(deployment.name@)
            &&& member_of(said, "releaseRepository"@) == repository_document(
                deployment.metadata_url@,
                deployment.targets_url@,
                deployment.root_json@,
            )
            &&& member_of(said, "application"@) == graph_document(deployment.application)
            &&& member_of(said, "runtime"@) == runtime_document(deployment.runtime@)
            &&& member_of(how, "product"@) == JsonView::Text(runtime.product)
            &&& member_of(how, "channel"@) == JsonView::Text(runtime.channel)
            &&& member_of(how, "installRoot"@) == JsonView::Text(runtime.install_root)
            &&& member_of(fetched, "metadataLimit"@) == natural(runtime.limits.metadata_limit)
            &&& member_of(fetched, "targetLimit"@) == natural(runtime.limits.target_limit)
            &&& member_of(fetched, "transportTimeoutSeconds"@) == natural(
                runtime.limits.transport_timeout,
            )
            &&& member_of(kept, "inactiveReleases"@) == natural(runtime.limits.inactive_releases)
            &&& member_of(kept, "inactiveBytes"@) == natural(runtime.limits.inactive_bytes)
            &&& member_of(kept, "inactiveRepositoryCaches"@) == natural(
                runtime.limits.inactive_repository_caches,
            )
            &&& member_of(how, "timeouts"@) == timeouts_document(runtime.limits.timeouts)
        }),
{
    reveal_strlit("name");
    reveal_strlit("releaseRepository");
    reveal_strlit("application");
    reveal_strlit("runtime");
    assert("name"@.len() == 4 && "releaseRepository"@.len() == 17 && "application"@.len() == 11);
    assert("runtime"@.len() == 7);
    reveal_strlit("product");
    reveal_strlit("channel");
    reveal_strlit("installRoot");
    reveal_strlit("repository");
    reveal_strlit("storage");
    reveal_strlit("timeouts");
    assert("product"@.len() == 7 && "channel"@.len() == 7 && "installRoot"@.len() == 11);
    assert("repository"@.len() == 10 && "storage"@.len() == 7 && "timeouts"@.len() == 8);
    assert("product"@[0] == 'p' && "channel"@[0] == 'c' && "storage"@[0] == 's');
    reveal_strlit("metadataLimit");
    reveal_strlit("targetLimit");
    reveal_strlit("transportTimeoutSeconds");
    assert("metadataLimit"@.len() == 13 && "targetLimit"@.len() == 11
        && "transportTimeoutSeconds"@.len() == 23);
    reveal_strlit("inactiveReleases");
    reveal_strlit("inactiveBytes");
    reveal_strlit("inactiveRepositoryCaches");
    assert("inactiveReleases"@.len() == 16 && "inactiveBytes"@.len() == 13
        && "inactiveRepositoryCaches"@.len() == 24);
}

/// A group says its name and labels, what it selects, waits for and takes, what it runs, and how many of
/// its nodes may be unavailable where that is set.
pub proof fn groups_say_what_they_are(group: GroupSpec)
    ensures
        ({
            let said = update_group_document(group);
            let own = member_of(said, "spec"@);
            let metadata = member_of(said, "metadata"@);
            &&& member_of(said, "kind"@) == JsonView::Text("UpdateGroup"@)
            &&& member_of(metadata, "name"@) == JsonView::Text(group.name@)
            &&& member_of(metadata, "namespace"@) == JsonView::Text(group.namespace@)
            &&& group.labels@.len() > 0 ==> member_of(metadata, "labels"@) == labels_document(
                pairs(group.labels@),
            )
            &&& group.labels@.len() == 0 ==> member_of(metadata, "labels"@) is Null
            &&& member_of(own, "repositoryRef"@) == reference_document(group.repository@)
            &&& member_of(member_of(own, "selector"@), "matchLabels"@) == labels_document(
                pairs(group.selector@),
            )
            &&& member_of(own, "dependsOn"@) == texts_document(views(group.depends_on@))
            &&& member_of(own, "inputs"@) == labels_document(pairs(group.inputs@))
            &&& member_of(own, "deployment"@) == deployment_document(group.deployment)
            &&& member_of(own, "emergencyCorrection"@) == JsonView::Bool(
                group.emergency_correction,
            )
            &&& match group.max_unavailable {
                Some(count) => member_of(own, "maxUnavailable"@) == natural(count as u64),
                None => member_of(own, "maxUnavailable"@) is Null,
            }
        }),
{
    crate::document_laws::lemma_resource_names();
    reveal_strlit("repositoryRef");
    reveal_strlit("selector");
    reveal_strlit("dependsOn");
    reveal_strlit("inputs");
    reveal_strlit("deployment");
    reveal_strlit("emergencyCorrection");
    reveal_strlit("maxUnavailable");
    assert("repositoryRef"@.len() == 13 && "selector"@.len() == 8 && "dependsOn"@.len() == 9);
    assert("inputs"@.len() == 6 && "deployment"@.len() == 10 && "emergencyCorrection"@.len() == 19);
    assert("maxUnavailable"@.len() == 14);
}

/// A repository says its default, its secrets, how nodes enroll with it and where it stores what it
/// assigns.
pub proof fn repositories_say_where_they_store(repository: RepositorySpec)
    ensures
        ({
            let said = update_repository_document(repository);
            let own = member_of(said, "spec"@);
            let stored = member_of(own, "s3"@);
            let enrolls = member_of(own, "enrollment"@);
            &&& member_of(said, "kind"@) == JsonView::Text("UpdateRepository"@)
            &&& member_of(member_of(said, "metadata"@), "name"@) == JsonView::Text(
                repository.name@,
            )
            &&& member_of(member_of(said, "metadata"@), "namespace"@) == JsonView::Text(
                repository.namespace@,
            )
            &&& member_of(own, "defaultDeployment"@) == deployment_document(
                repository.default_deployment,
            )
            &&& member_of(own, "signingSecretRef"@) == reference_document(
                repository.signing_secret@,
            )
            &&& member_of(enrolls, "mode"@) == JsonView::Text("open"@)
            &&& member_of(enrolls, "labels"@) == labels_document(
                pairs(repository.enrollment.labels@),
            )
            &&& member_of(stored, "bucket"@) == JsonView::Text(repository.bucket@)
            &&& member_of(stored, "region"@) == JsonView::Text(repository.region@)
            &&& member_of(stored, "credentialsSecretRef"@) == reference_document(
                repository.storage_secret@,
            )
            &&& member_of(stored, "endpoint"@) == JsonView::Text(repository.endpoint@)
            &&& member_of(stored, "publicEndpoint"@) == JsonView::Text(repository.public_endpoint@)
            &&& member_of(own, "assignmentPrefix"@) == JsonView::Text(
                repository.assignment_prefix@,
            )
            &&& member_of(own, "stateMaxShards"@) == natural(repository.state_max_shards as u64)
        }),
{
    crate::document_laws::lemma_resource_names();
    reveal_strlit("bucket");
    reveal_strlit("region");
    reveal_strlit("credentialsSecretRef");
    reveal_strlit("endpoint");
    reveal_strlit("publicEndpoint");
    assert("bucket"@.len() == 6 && "region"@.len() == 6 && "credentialsSecretRef"@.len() == 20);
    assert("endpoint"@.len() == 8 && "publicEndpoint"@.len() == 14);
    assert("bucket"@[0] == 'b' && "region"@[0] == 'r');
    reveal_strlit("defaultDeployment");
    reveal_strlit("signingSecretRef");
    reveal_strlit("enrollment");
    reveal_strlit("s3");
    reveal_strlit("assignmentPrefix");
    reveal_strlit("stateMaxShards");
    assert("defaultDeployment"@.len() == 17 && "signingSecretRef"@.len() == 16);
    assert("enrollment"@.len() == 10 && "s3"@.len() == 2 && "assignmentPrefix"@.len() == 16);
    assert("stateMaxShards"@.len() == 14 && "signingSecretRef"@[0] == 's'
        && "assignmentPrefix"@[0] == 'a');
    reveal_strlit("mode");
    reveal_strlit("labels");
    assert("mode"@.len() == 4 && "labels"@.len() == 6);
}

} // verus!
