//! The resources that every fleet is made from: what a deployment means, whatever the size of the
//! fleet and whoever runs it.

use crate::e2e::layout::BASELINE_VERSION;
use crate::resources::{target, target_view, TargetReference};
use crate::text::{holds, listed, same, view_of, views};
use vstd::prelude::*;

verus! {

pub const SIGNING_SECRET: &'static str = "tuf-signing-keys";

pub const STORAGE_SECRET: &'static str = "s3-credentials";

pub const ASSIGNMENT_PREFIX: &'static str = "assignments";

pub const STATE_MAX_SHARDS: u8 = 8;

/// The target of a release for a platform.
pub open spec fn app_target(version: Seq<char>, platform: Seq<char>) -> Seq<char> {
    "products/app/stable/"@ + version + "/"@ + platform + "/app"@
}

/// The target of a release for a platform.
pub fn write_app_target(version: &str, platform: &str) -> (result: String)
    ensures
        result@ == app_target(version@, platform@),
{
    let mut text = String::from_str("products/app/stable/");
    text.append(version);
    text.append("/");
    text.append(platform);
    text.append("/app");
    text
}

// ----- release graphs -----

/// A release: its package, whether a node may install it from nothing, and the releases from which
/// it may be reached.
pub struct Release {
    pub version: String,
    pub package: TargetReference,
    pub installable: bool,
    pub upgrade_from: Vec<String>,
    pub rollback_from: Vec<String>,
}

/// A release.
#[verifier::ext_equal]
pub struct ReleaseView {
    pub package: (Seq<char>, Seq<char>),
    pub installable: bool,
    pub upgrade_from: Set<Seq<char>>,
    pub rollback_from: Set<Seq<char>>,
}

/// What a release says of itself.
pub open spec fn release_view(release: Release) -> ReleaseView {
    ReleaseView {
        package: target_view(release.package),
        installable: release.installable,
        upgrade_from: views(release.upgrade_from@).to_set(),
        rollback_from: views(release.rollback_from@).to_set(),
    }
}

/// The releases of a list by their versions.
pub open spec fn release_map(releases: Seq<Release>) -> Map<Seq<char>, ReleaseView>
    decreases releases.len(),
{
    if releases.len() == 0 {
        Map::empty()
    } else {
        release_map(releases.drop_last()).insert(
            releases.last().version@,
            release_view(releases.last()),
        )
    }
}

/// The versions of a list of releases.
pub open spec fn release_versions(releases: Seq<Release>) -> Seq<Seq<char>> {
    Seq::new(releases.len(), |i: int| releases[i].version@)
}

/// Releases and the one that a node is to run. Every version is listed once.
pub struct ReleaseGraph {
    pub target: String,
    pub releases: Vec<Release>,
}

/// Releases and the one that a node is to run.
#[verifier::ext_equal]
pub struct GraphView {
    pub target: Seq<char>,
    pub releases: Map<Seq<char>, ReleaseView>,
}

impl View for ReleaseGraph {
    type V = GraphView;

    open spec fn view(&self) -> GraphView {
        GraphView { target: self.target@, releases: release_map(self.releases@) }
    }
}

/// Whether every version is listed once.
pub open spec fn is_graph(graph: ReleaseGraph) -> bool {
    release_versions(graph.releases@).no_duplicates()
}

proof fn lemma_new_version(releases: Seq<Release>, index: int)
    requires
        release_versions(releases).no_duplicates(),
        0 <= index < releases.len(),
    ensures
        !release_map(releases.take(index)).contains_key(releases[index].version@),
{
    let names = release_versions(releases);
    let earlier = release_versions(releases.take(index));
    lemma_map_domain(releases.take(index));
    if earlier.contains(releases[index].version@) {
        let at = choose|i: int| 0 <= i < earlier.len() && earlier[i] == releases[index].version@;
        assert(names[at] == names[index]);
    }
}

proof fn lemma_map_domain(releases: Seq<Release>)
    ensures
        forall|version: Seq<char>|
            #![trigger release_map(releases).contains_key(version)]
            release_map(releases).contains_key(version) <==> release_versions(releases).contains(
                version,
            ),
    decreases releases.len(),
{
    let names = release_versions(releases);
    if releases.len() > 0 {
        let before = releases.drop_last();
        lemma_map_domain(before);
        let earlier = release_versions(before);
        assert(names =~= earlier.push(releases.last().version@));
        assert forall|version: Seq<char>|
            #![trigger release_map(releases).contains_key(version)]
            release_map(releases).contains_key(version) <==> names.contains(version) by {
            assert(release_map(before).contains_key(version) <==> earlier.contains(version));
            if earlier.contains(version) {
                let at = choose|i: int| 0 <= i < earlier.len() && earlier[i] == version;
                assert(names[at] == version);
            }
            if version == releases.last().version@ {
                assert(names[names.len() - 1] == version);
            }
            if names.contains(version) {
                let at = choose|i: int| 0 <= i < names.len() && names[i] == version;
                if at < earlier.len() {
                    assert(earlier[at] == version);
                }
            }
        }
    } else {
        assert(names.len() == 0);
    }
}

proof fn lemma_map_entry(releases: Seq<Release>, index: int)
    requires
        release_versions(releases).no_duplicates(),
        0 <= index < releases.len(),
    ensures
        release_map(releases).contains_key(releases[index].version@),
        release_map(releases)[releases[index].version@] == release_view(releases[index]),
    decreases releases.len(),
{
    let names = release_versions(releases);
    let before = releases.drop_last();
    if index < releases.len() - 1 {
        assert(release_versions(before) =~= names.drop_last());
        assert(release_versions(before).no_duplicates());
        lemma_map_entry(before, index);
        assert(names[index] == releases[index].version@);
        assert(names[names.len() - 1] == releases.last().version@);
        assert(releases[index].version@ != releases.last().version@);
        assert(before[index] == releases[index]);
    }
}

/// A graph of one release, which a node may install from nothing.
pub open spec fn installed(version: Seq<char>, package: (Seq<char>, Seq<char>)) -> GraphView {
    GraphView {
        target: version,
        releases: map![
            version => ReleaseView {
                package,
                installable: true,
                upgrade_from: Set::empty(),
                rollback_from: Set::empty(),
            },
        ],
    }
}

/// Whether a graph lists one release, which is its target, and which a node may install from nothing
/// but not reach from another.
pub open spec fn is_install(
    graph: ReleaseGraph,
    version: Seq<char>,
    package: (Seq<char>, Seq<char>),
) -> bool {
    graph.target@ == version && graph.releases@.len() == 1 && graph.releases@[0].version@ == version
        && target_view(graph.releases@[0].package) == package && graph.releases@[0].installable
        && views(graph.releases@[0].upgrade_from@) == Seq::<Seq<char>>::empty() && views(
        graph.releases@[0].rollback_from@,
    ) == Seq::<Seq<char>>::empty()
}

/// A graph of one release, which a node may install from nothing.
pub fn install(version: &str, package: TargetReference) -> (result: ReleaseGraph)
    ensures
        is_graph(result),
        is_install(result, version@, target_view(package)),
        result@ == installed(version@, target_view(package)),
{
    let release = Release {
        version: version.to_owned(),
        package,
        installable: true,
        upgrade_from: Vec::new(),
        rollback_from: Vec::new(),
    };
    proof {
        assert(views(release.upgrade_from@) =~= Seq::<Seq<char>>::empty());
        assert(views(release.rollback_from@) =~= Seq::<Seq<char>>::empty());
        assert(views(release.upgrade_from@).to_set() =~= Set::<Seq<char>>::empty());
        assert(views(release.rollback_from@).to_set() =~= Set::<Seq<char>>::empty());
    }
    let graph = ReleaseGraph { target: version.to_owned(), releases: vec![release] };
    proof {
        assert(graph.releases@.drop_last() =~= Seq::<Release>::empty());
        assert(graph.releases@.last() == release);
        reveal_with_fuel(release_map, 2);
        assert(graph@ =~= installed(version@, target_view(package)));
    }
    graph
}

/// A release of the small fleet.
pub open spec fn kind_release(
    version: Seq<char>,
    platform: Seq<char>,
    sha256: Seq<char>,
    upgrade_from: Set<Seq<char>>,
) -> ReleaseView {
    ReleaseView {
        package: (app_target(version, platform), sha256),
        installable: true,
        upgrade_from,
        rollback_from: Set::empty(),
    }
}

/// The releases of the small fleet. Each cohort declares the source it supports: a node that is
/// relabelled is not installed anew, and to go forward from a release says nothing of going back.
pub open spec fn kind_graph(
    platform: Seq<char>,
    target: Seq<char>,
    digests: Seq<Seq<char>>,
) -> GraphView {
    GraphView {
        target,
        releases: Map::<Seq<char>, ReleaseView>::empty().insert(
            "1.0.0"@,
            kind_release("1.0.0"@, platform, digests[0], Set::empty()),
        ).insert(
            "2.0.0"@,
            kind_release("2.0.0"@, platform, digests[1], set!["1.0.0"@]),
        ).insert(
            "3.0.0"@,
            kind_release("3.0.0"@, platform, digests[2], set!["1.0.0"@]),
        ),
    }
}

fn make_release(version: &str, platform: &str, sha256: &str, upgrade_from: Vec<&str>) -> (result:
    Release)
    ensures
        result.version@ == version@,
        release_view(result) == kind_release(
            version@,
            platform@,
            sha256@,
            crate::text::str_views(upgrade_from@).to_set(),
        ),
{
    let release = Release {
        version: version.to_owned(),
        package: target(write_app_target(version, platform).as_str(), sha256),
        installable: true,
        upgrade_from: listed(upgrade_from),
        rollback_from: Vec::new(),
    };
    assert(views(release.rollback_from@).to_set() =~= Set::<Seq<char>>::empty());
    release
}

/// The releases of the small fleet, with the digests of the three in order.
pub fn kind_release_graph(
    platform: &str,
    target: &str,
    first: &str,
    second: &str,
    third: &str,
) -> (result: ReleaseGraph)
    ensures
        is_graph(result),
        result@ == kind_graph(platform@, target@, seq![first@, second@, third@]),
{
    let sources: Vec<&str> = vec!["1.0.0"];
    let more: Vec<&str> = vec!["1.0.0"];
    proof {
        let one = crate::text::str_views(sources@);
        assert(one =~= seq!["1.0.0"@]);
        assert(one.to_set() =~= set!["1.0.0"@]) by {
            assert forall|version: Seq<char>|
                #[trigger] one.to_set().contains(version) <==> version == "1.0.0"@ by {
                if version == "1.0.0"@ {
                    assert(one[0] == version);
                }
            }
        }
        assert(crate::text::str_views(more@) =~= one);
    }
    let none: Vec<&str> = Vec::new();
    assert(crate::text::str_views(none@).to_set() =~= Set::<Seq<char>>::empty());
    let oldest = make_release("1.0.0", platform, first, none);
    let middle = make_release("2.0.0", platform, second, sources);
    let newest = make_release("3.0.0", platform, third, more);
    let graph = ReleaseGraph { target: target.to_owned(), releases: vec![oldest, middle, newest] };
    proof {
        lemma_versions_differ();
        let all = graph.releases@;
        let names = release_versions(all);
        assert(names[0] == "1.0.0"@ && names[1] == "2.0.0"@ && names[2] == "3.0.0"@);
        assert(names.no_duplicates());
        assert(all.drop_last().drop_last().drop_last() =~= Seq::<Release>::empty());
        assert(all.last() == newest && all.drop_last().last() == middle
            && all.drop_last().drop_last().last() == oldest);
        reveal_with_fuel(release_map, 4);
        assert(graph@ =~= kind_graph(platform@, target@, seq![first@, second@, third@]));
    }
    graph
}

/// The versions of the small fleet differ from each other and from the baseline of the large one.
pub proof fn lemma_versions_differ()
    ensures
        "1.0.0"@ != "2.0.0"@,
        "1.0.0"@ != "3.0.0"@,
        "2.0.0"@ != "3.0.0"@,
        "1.0.0"@ != BASELINE_VERSION@,
        "2.0.0"@ != BASELINE_VERSION@,
        "3.0.0"@ != BASELINE_VERSION@,
{
    reveal_strlit("1.0.0");
    reveal_strlit("2.0.0");
    reveal_strlit("3.0.0");
    reveal_strlit("22.0.0");
    assert("1.0.0"@[0] == '1' && "2.0.0"@[0] == '2' && "3.0.0"@[0] == '3');
    assert("1.0.0"@.len() == 5 && "2.0.0"@.len() == 5 && "3.0.0"@.len() == 5);
    assert(BASELINE_VERSION@.len() == 6);
}

/// Whether a graph takes a node to its target in one step: from nothing where the target may be
/// installed; from a release where that is the target, or one that it may be reached from.
pub open spec fn leads_on(graph: GraphView, source: Option<Seq<char>>) -> bool {
    graph.releases.contains_key(graph.target) && match source {
        None => graph.releases[graph.target].installable,
        Some(version) => version == graph.target || graph.releases[graph.target].upgrade_from.contains(
            version,
        ) || graph.releases[graph.target].rollback_from.contains(version),
    }
}

/// Whether a graph knows a release with this package digest.
pub open spec fn knows_source(graph: GraphView, version: Seq<char>, sha256: Seq<char>) -> bool {
    graph.releases.contains_key(version) && graph.releases[version].package.1 == sha256
}

fn find_release<'a>(graph: &'a ReleaseGraph, version: &str) -> (result: Option<&'a Release>)
    requires
        is_graph(*graph),
    ensures
        match result {
            Some(release) => graph@.releases.contains_key(version@) && graph@.releases[version@]
                == release_view(*release),
            None => !graph@.releases.contains_key(version@),
        },
{
    let ghost names = release_versions(graph.releases@);
    let mut index: usize = 0;
    while index < graph.releases.len()
        invariant
            index <= graph.releases.len(),
            is_graph(*graph),
            names == release_versions(graph.releases@),
            forall|i: int| 0 <= i < index ==> #[trigger] names[i] != version@,
        decreases graph.releases.len() - index,
    {
        if same(graph.releases[index].version.as_str(), version) {
            proof {
                lemma_map_entry(graph.releases@, index as int);
            }
            return Some(&graph.releases[index]);
        }
        assert(names[index as int] == graph.releases@[index as int].version@);
        index = index + 1;
    }
    proof {
        lemma_map_domain(graph.releases@);
        assert(!names.contains(version@));
    }
    None
}

fn lists(items: &Vec<String>, text: &str) -> (result: bool)
    ensures
        result == views(items@).to_set().contains(text@),
{
    broadcast use vstd::seq_lib::group_seq_properties;

    holds(items, text)
}

impl ReleaseGraph {
    /// Whether the graph takes a node to its target in one step.
    pub fn leads_from(&self, source: Option<&str>) -> (result: bool)
        requires
            is_graph(*self),
        ensures
            result == leads_on(
                self@,
                match source {
                    Some(version) => Some(version@),
                    None => None,
                },
            ),
    {
        match find_release(self, self.target.as_str()) {
            None => false,
            Some(release) => match source {
                None => release.installable,
                Some(version) => same(version, self.target.as_str()) || lists(
                    &release.upgrade_from,
                    version,
                ) || lists(&release.rollback_from, version),
            },
        }
    }

    /// Whether the graph knows a release with this package digest.
    pub fn check_source(&self, version: &str, sha256: &str) -> (result: bool)
        requires
            is_graph(*self),
        ensures
            result == knows_source(self@, version@, sha256@),
    {
        match find_release(self, version) {
            None => false,
            Some(release) => same(release.package.sha256.as_str(), sha256),
        }
    }

    /// The digest of the target's package, if the target is listed.
    pub fn target_sha(&self) -> (result: Option<String>)
        requires
            is_graph(*self),
        ensures
            view_of(result) == (if self@.releases.contains_key(self@.target) {
                Some(self@.releases[self@.target].package.1)
            } else {
                None
            }),
    {
        match find_release(self, self.target.as_str()) {
            None => None,
            Some(release) => Some(release.package.sha256.clone()),
        }
    }
}

/// Every cohort of the small fleet is reached from the first release and from nothing; from the two
/// others only where it runs that release already.
pub proof fn cohorts_upgrade_forward_only(
    platform: Seq<char>,
    target: Seq<char>,
    digests: Seq<Seq<char>>,
    source: Seq<char>,
)
    requires
        target == "1.0.0"@ || target == "2.0.0"@ || target == "3.0.0"@,
        source == "2.0.0"@ || source == "3.0.0"@,
    ensures
        leads_on(kind_graph(platform, target, digests), None),
        leads_on(kind_graph(platform, target, digests), Some("1.0.0"@)),
        leads_on(kind_graph(platform, target, digests), Some(source)) <==> source == target,
        knows_source(kind_graph(platform, target, digests), "1.0.0"@, digests[0]),
{
    lemma_versions_differ();
}

/// A release as it stands where its package cannot be fetched: known, but not to be installed.
pub open spec fn anchored(release: ReleaseView) -> ReleaseView {
    ReleaseView {
        installable: false,
        upgrade_from: Set::empty(),
        rollback_from: Set::empty(),
        ..release
    }
}

/// A graph moved to another repository, where only a new baseline can be fetched. The releases that
/// are installed stay known as what the baseline is reached from.
pub open spec fn rebased(bootstrap: GraphView, package: (Seq<char>, Seq<char>)) -> GraphView {
    GraphView {
        target: BASELINE_VERSION@,
        releases: Map::new(
            |version: Seq<char>|
                version == BASELINE_VERSION@ || bootstrap.releases.contains_key(version),
            |version: Seq<char>|
                if version == BASELINE_VERSION@ {
                    ReleaseView {
                        package,
                        installable: true,
                        upgrade_from: bootstrap.releases.dom(),
                        rollback_from: Set::empty(),
                    }
                } else {
                    anchored(bootstrap.releases[version])
                },
        ),
    }
}

fn anchor(release: &Release) -> (result: Release)
    ensures
        result.version@ == release.version@,
        release_view(result) == anchored(release_view(*release)),
{
    let anchored_release = Release {
        version: release.version.clone(),
        package: target(release.package.path.as_str(), release.package.sha256.as_str()),
        installable: false,
        upgrade_from: Vec::new(),
        rollback_from: Vec::new(),
    };
    assert(views(anchored_release.upgrade_from@).to_set() =~= Set::<Seq<char>>::empty());
    assert(views(anchored_release.rollback_from@).to_set() =~= Set::<Seq<char>>::empty());
    anchored_release
}

/// Moves a graph to another repository, where only a new baseline can be fetched.
pub fn fleet_baseline_graph(bootstrap: &ReleaseGraph, package: TargetReference) -> (result:
    ReleaseGraph)
    requires
        is_graph(*bootstrap),
    ensures
        is_graph(result),
        result@ == rebased(bootstrap@, target_view(package)),
{
    let ghost all = bootstrap.releases@;
    let ghost names = release_versions(all);
    let mut releases: Vec<Release> = Vec::new();
    let mut sources: Vec<String> = Vec::new();
    let mut index: usize = 0;
    assert(release_map(releases@).dom() =~= release_map(all.take(0)).dom().remove(
        BASELINE_VERSION@,
    ));
    while index < bootstrap.releases.len()
        invariant
            index <= bootstrap.releases.len(),
            all == bootstrap.releases@,
            is_graph(*bootstrap),
            sources@.len() == index,
            forall|i: int| 0 <= i < index ==> (#[trigger] sources@[i])@ == all[i].version@,
            release_versions(releases@).no_duplicates(),
            release_map(releases@).dom() == release_map(all.take(index as int)).dom().remove(
                BASELINE_VERSION@,
            ),
            forall|version: Seq<char>|
                #![trigger release_map(releases@)[version]]
                release_map(releases@).contains_key(version) ==> release_map(releases@)[version]
                    == anchored(release_map(all.take(index as int))[version]),
        decreases bootstrap.releases.len() - index,
    {
        let ghost before = releases@;
        let ghost next = all.take(index + 1);
        let release = &bootstrap.releases[index];
        sources.push(release.version.clone());
        proof {
            assert(next.drop_last() =~= all.take(index as int));
            assert(next.last() == *release);
            lemma_map_domain(before);
            lemma_new_version(all, index as int);
        }
        if !same(release.version.as_str(), BASELINE_VERSION) {
            let kept = anchor(release);
            releases.push(kept);
            proof {
                assert(releases@.drop_last() =~= before);
                assert(!release_map(before).contains_key(kept.version@));
                assert(release_versions(releases@) =~= release_versions(before).push(
                    kept.version@,
                ));
            }
        }
        assert(release_map(releases@).dom() =~= release_map(next).dom().remove(BASELINE_VERSION@));
        index = index + 1;
    }
    let ghost others = releases@;
    let ghost goal = rebased(bootstrap@, target_view(package));
    proof {
        assert(all.take(all.len() as int) =~= all);
        lemma_map_domain(all);
        lemma_map_domain(others);
        assert(views(sources@) =~= names);
        assert(views(sources@).to_set() =~= bootstrap@.releases.dom()) by {
            assert forall|version: Seq<char>|
                #[trigger] names.to_set().contains(version) <==> bootstrap@.releases.dom().contains(
                    version,
                ) by {
                assert(bootstrap@.releases.contains_key(version) <==> names.contains(version));
            }
        }
    }
    let baseline = Release {
        version: BASELINE_VERSION.to_owned(),
        package,
        installable: true,
        upgrade_from: sources,
        rollback_from: Vec::new(),
    };
    assert(views(baseline.rollback_from@).to_set() =~= Set::<Seq<char>>::empty());
    releases.push(baseline);
    let graph = ReleaseGraph { target: BASELINE_VERSION.to_owned(), releases };
    proof {
        assert(graph.releases@.drop_last() =~= others);
        assert(!release_map(others).contains_key(BASELINE_VERSION@));
        assert(release_versions(graph.releases@) =~= release_versions(others).push(
            BASELINE_VERSION@,
        ));
        assert(graph@.releases =~= goal.releases);
        assert(graph@ =~= goal);
    }
    graph
}

/// Moving a fleet to its own repository keeps what is installed known, with its digest; leads from
/// every installed release, and from nothing, to the baseline; and lets nothing but the baseline be
/// installed.
pub proof fn moving_a_fleet_keeps_its_sources(
    bootstrap: GraphView,
    package: (Seq<char>, Seq<char>),
    source: Seq<char>,
    sha256: Seq<char>,
)
    requires
        knows_source(bootstrap, source, sha256),
        source != BASELINE_VERSION@,
    ensures
        rebased(bootstrap, package).target == BASELINE_VERSION@,
        knows_source(rebased(bootstrap, package), source, sha256),
        leads_on(rebased(bootstrap, package), Some(source)),
        leads_on(rebased(bootstrap, package), None),
        forall|version: Seq<char>|
            rebased(bootstrap, package).releases.contains_key(version) && #[trigger] rebased(
                bootstrap,
                package,
            ).releases[version].installable ==> version == BASELINE_VERSION@,
{
}

// ----- what a graph leads to -----

/// A graph leads a node to its target from nothing where the target may be installed, and from a version
/// where that is the target, or where the target may be reached from it; one whose target is not listed
/// leads nowhere.
pub proof fn graphs_lead_to_their_target(graph: GraphView, source: Seq<char>, sha256: Seq<char>)
    ensures
        !graph.releases.contains_key(graph.target) ==> !leads_on(graph, None) && !leads_on(
            graph,
            Some(source),
        ),
        graph.releases.contains_key(graph.target) ==> {
            let target = graph.releases[graph.target];
            &&& leads_on(graph, None) <==> target.installable
            &&& leads_on(graph, Some(graph.target))
            &&& source != graph.target ==> (leads_on(graph, Some(source))
                <==> target.upgrade_from.contains(source) || target.rollback_from.contains(source))
        },
        knows_source(graph, source, sha256) <==> graph.releases.contains_key(source)
            && graph.releases[source].package.1 == sha256,
{
}

/// Where every version is listed once, a graph knows every release that is listed as it is listed, and
/// no other.
pub proof fn every_listed_release_is_known(releases: Seq<Release>, index: int, version: Seq<char>)
    requires
        release_versions(releases).no_duplicates(),
        0 <= index < releases.len(),
    ensures
        release_map(releases).contains_key(releases[index].version@),
        ({
            let known = release_map(releases)[releases[index].version@];
            &&& known.package == (releases[index].package.path@, releases[index].package.sha256@)
            &&& known.installable == releases[index].installable
            &&& known.upgrade_from == views(releases[index].upgrade_from@).to_set()
            &&& known.rollback_from == views(releases[index].rollback_from@).to_set()
        }),
        release_map(releases).contains_key(version) <==> exists|i: int|
            0 <= i < releases.len() && (#[trigger] releases[i]).version@ == version,
{
    lemma_map_entry(releases, index);
    lemma_map_domain(releases);
    let names = release_versions(releases);
    if release_map(releases).contains_key(version) {
        let at = choose|i: int| 0 <= i < names.len() && names[i] == version;
        assert(releases[at].version@ == version);
    }
    if exists|i: int| 0 <= i < releases.len() && (#[trigger] releases[i]).version@ == version {
        let at = choose|i: int| 0 <= i < releases.len() && (#[trigger] releases[i]).version@ == version;
        assert(names[at] == version);
    }
}

/// A graph of one release leads to it from nothing, and from no other release.
pub proof fn an_install_leads_to_its_release(
    version: Seq<char>,
    package: (Seq<char>, Seq<char>),
    source: Seq<char>,
)
    ensures
        installed(version, package).target == version,
        leads_on(installed(version, package), None),
        leads_on(installed(version, package), Some(source)) <==> source == version,
        installed(version, package).releases[version].package == package,
        installed(version, package).releases.contains_key(source) <==> source == version,
{
}

/// Each release of the small fleet is fetched from its own path, with its own digest.
pub proof fn releases_have_their_own_digests(
    platform: Seq<char>,
    target: Seq<char>,
    digests: Seq<Seq<char>>,
)
    ensures
        ({
            let graph = kind_graph(platform, target, digests);
            &&& graph.target == target
            &&& graph.releases["1.0.0"@].package == (
                "products/app/stable/"@ + "1.0.0"@ + "/"@ + platform + "/app"@,
                digests[0],
            )
            &&& graph.releases["2.0.0"@].package == (
                "products/app/stable/"@ + "2.0.0"@ + "/"@ + platform + "/app"@,
                digests[1],
            )
            &&& graph.releases["3.0.0"@].package == (
                "products/app/stable/"@ + "3.0.0"@ + "/"@ + platform + "/app"@,
                digests[2],
            )
            &&& knows_source(graph, "2.0.0"@, digests[1])
            &&& knows_source(graph, "3.0.0"@, digests[2])
        }),
{
    lemma_versions_differ();
}

/// A fleet that is moved installs the new baseline as it was published, and reaches it from every release
/// that it knew; what it knew keeps its package, and is reached from nothing.
pub proof fn a_moved_fleet_installs_the_baseline_only(
    bootstrap: GraphView,
    package: (Seq<char>, Seq<char>),
    version: Seq<char>,
)
    ensures
        ({
            let moved = rebased(bootstrap, package);
            &&& moved.releases.contains_key(version) <==> version == BASELINE_VERSION@
                || bootstrap.releases.contains_key(version)
            &&& moved.releases[BASELINE_VERSION@].package == package
            &&& moved.releases[BASELINE_VERSION@].installable
            &&& moved.releases[BASELINE_VERSION@].upgrade_from.contains(version)
                <==> bootstrap.releases.contains_key(version)
            &&& moved.releases[BASELINE_VERSION@].rollback_from == Set::<Seq<char>>::empty()
            &&& version != BASELINE_VERSION@ && bootstrap.releases.contains_key(version)
                ==> moved.releases[version].package == bootstrap.releases[version].package
                && !moved.releases[version].installable && moved.releases[version].upgrade_from
                == Set::<Seq<char>>::empty() && moved.releases[version].rollback_from == Set::<
                Seq<char>,
            >::empty()
        }),
{
}

} // verus!
