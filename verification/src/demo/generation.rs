//! One generation of a chaos epoch: which groups take which release, and when each has settled.

use crate::demo::fleet::{count_where, holds_text, is_text, lemma_filter_push, FleetNode};
use crate::demo::layout::{
    cohort_group, cohort_group_text, cohort_set_index, DEMO_COHORT_COUNT, DEMO_COHORT_SIZE,
    DEMO_GROUPS_PER_SET, DEMO_SETTLE_TIMEOUT_SECS, DEMO_SET_COUNT,
};
use crate::demo::state::{with_event, ChaosState, ChaosView};
use crate::naming::{major_of, major_version, version_major, version_of_major};
use crate::text::{
    add_text, copied, decimal, decimal_digits, holds, join, joined, views, with_text, without,
    without_text,
};
use vstd::prelude::*;

verus! {

// ----- which groups a generation exercises -----

/// Whether a cohort of this index takes a broken release: those of the even sets do.
pub open spec fn takes_broken(cohort: int) -> bool {
    (cohort / DEMO_GROUPS_PER_SET as int) % 2 == 0
}

/// Whether a group has been driven in this epoch already.
pub open spec fn is_driven(state: ChaosView, group: Seq<char>) -> bool {
    state.rolled_back_groups.contains(group) || state.updated_groups.contains(group)
}

/// The cohorts below `count` that have not been driven, each with its role, in order.
pub open spec fn undriven(state: ChaosView, count: int) -> Seq<(int, bool)>
    decreases count,
{
    if count <= 0 {
        Seq::empty()
    } else if is_driven(state, cohort_group_text((count - 1) as nat)) {
        undriven(state, count - 1)
    } else {
        undriven(state, count - 1).push((count - 1, takes_broken(count - 1)))
    }
}

/// Cohorts and roles as plain numbers.
pub open spec fn assignment_view(assignments: Seq<(usize, bool)>) -> Seq<(int, bool)> {
    Seq::new(assignments.len(), |i: int| (assignments[i].0 as int, assignments[i].1))
}

/// Every cohort that has not been driven in this epoch, with its role, or nothing once all have.
pub fn select_generation(state: &ChaosState) -> (result: Option<Vec<(usize, bool)>>)
    ensures
        match result {
            Some(assignments) => assignments@.len() > 0 && assignment_view(assignments@)
                == undriven(state@, DEMO_COHORT_COUNT as int),
            None => undriven(state@, DEMO_COHORT_COUNT as int).len() == 0,
        },
{
    let mut assignments: Vec<(usize, bool)> = Vec::new();
    let mut cohort: usize = 0;
    while cohort < DEMO_COHORT_COUNT
        invariant
            cohort <= DEMO_COHORT_COUNT,
            assignment_view(assignments@) == undriven(state@, cohort as int),
        decreases DEMO_COHORT_COUNT - cohort,
    {
        let group = cohort_group(cohort);
        let ghost before = assignments@;
        if !holds(&state.rolled_back_groups, group.as_str()) && !holds(
            &state.updated_groups,
            group.as_str(),
        ) {
            assignments.push((cohort, cohort_set_index(cohort) % 2 == 0));
            assert(assignment_view(assignments@) =~= assignment_view(before).push(
                (cohort as int, takes_broken(cohort as int)),
            ));
        }
        cohort = cohort + 1;
    }
    assert(assignment_view(assignments@).len() == assignments@.len());
    if assignments.len() == 0 {
        None
    } else {
        Some(assignments)
    }
}

/// The groups of the first `count` assignments with the role `broken`, in order.
pub open spec fn groups_with_role(
    assignments: Seq<(int, bool)>,
    broken: bool,
    count: int,
) -> Seq<Seq<char>>
    decreases count,
{
    if count <= 0 {
        Seq::empty()
    } else if assignments[count - 1].1 == broken {
        groups_with_role(assignments, broken, count - 1).push(
            cohort_group_text(assignments[count - 1].0 as nat),
        )
    } else {
        groups_with_role(assignments, broken, count - 1)
    }
}

fn role_groups(assignments: &Vec<(usize, bool)>, broken: bool) -> (result: Vec<String>)
    ensures
        views(result@) == groups_with_role(
            assignment_view(assignments@),
            broken,
            assignments@.len() as int,
        ),
        result@.len() <= assignments@.len(),
{
    let mut result: Vec<String> = Vec::new();
    let mut index: usize = 0;
    while index < assignments.len()
        invariant
            index <= assignments.len(),
            result@.len() <= index,
            views(result@) == groups_with_role(
                assignment_view(assignments@),
                broken,
                index as int,
            ),
        decreases assignments.len() - index,
    {
        let ghost before = result@;
        let (cohort, role) = assignments[index];
        assert(assignment_view(assignments@)[index as int] == (cohort as int, role));
        if role == broken {
            let group = cohort_group(cohort);
            result.push(group);
            assert(views(result@) =~= views(before).push(group@));
        }
        index = index + 1;
    }
    result
}

// ----- the generation under way -----

/// A generation: a broken release for some groups, a valid one for others.
pub struct Generation {
    pub seed: u64,
    pub bad_major: usize,
    pub bad_version: String,
    pub good_version: String,
    pub broken_groups: Vec<String>,
    pub valid_groups: Vec<String>,
    pub settled_broken: Vec<String>,
    pub settled_valid: Vec<String>,
    /// Whether an agent has left the load balancer.
    pub reacted: bool,
    pub last_logged_secs: u64,
}

/// What a generation holds.
#[verifier::ext_equal]
pub struct GenerationView {
    pub seed: u64,
    pub bad_major: usize,
    pub bad_version: Seq<char>,
    pub good_version: Seq<char>,
    pub broken_groups: Seq<Seq<char>>,
    pub valid_groups: Seq<Seq<char>>,
    pub settled_broken: Seq<Seq<char>>,
    pub settled_valid: Seq<Seq<char>>,
    pub reacted: bool,
    pub last_logged_secs: u64,
}

impl View for Generation {
    type V = GenerationView;

    open spec fn view(&self) -> GenerationView {
        GenerationView {
            seed: self.seed,
            bad_major: self.bad_major,
            bad_version: self.bad_version@,
            good_version: self.good_version@,
            broken_groups: views(self.broken_groups@),
            valid_groups: views(self.valid_groups@),
            settled_broken: views(self.settled_broken@),
            settled_valid: views(self.settled_valid@),
            reacted: self.reacted,
            last_logged_secs: self.last_logged_secs,
        }
    }
}

/// The generation that rolls out `bad_major` and `good_major` to the groups of the assignments.
pub open spec fn new_generation(
    seed: u64,
    assignments: Seq<(int, bool)>,
    bad_major: usize,
    good_major: usize,
) -> GenerationView {
    GenerationView {
        seed,
        bad_major,
        bad_version: major_version(bad_major as nat),
        good_version: major_version(good_major as nat),
        broken_groups: groups_with_role(assignments, true, assignments.len() as int),
        valid_groups: groups_with_role(assignments, false, assignments.len() as int),
        settled_broken: Seq::empty(),
        settled_valid: Seq::empty(),
        reacted: false,
        last_logged_secs: 0,
    }
}

/// Group names with commas between them, or `none`.
pub open spec fn listing(groups: Seq<Seq<char>>) -> Seq<char> {
    if groups.len() == 0 {
        "none"@
    } else {
        joined(groups, ", "@)
    }
}

fn list_groups(groups: &Vec<String>) -> (result: String)
    ensures
        result@ == listing(views(groups@)),
{
    if groups.len() == 0 {
        String::from_str("none")
    } else {
        join(groups, ", ")
    }
}

/// The event that announces a generation.
pub open spec fn announcement(generation: GenerationView, width: u32) -> Seq<char> {
    "gen (seed "@ + decimal_digits(generation.seed as nat) + ", width "@ + decimal_digits(
        width as nat,
    ) + "/"@ + decimal_digits(DEMO_SET_COUNT as nat) + "): BROKEN "@ + generation.bad_version
        + " -> ["@ + listing(generation.broken_groups) + "]; VALID "@ + generation.good_version
        + " -> ["@ + listing(generation.valid_groups) + "]"@
}

/// The state once a generation was announced.
pub open spec fn announced(state: ChaosView, generation: GenerationView, width: u32) -> ChaosView {
    with_event(
        ChaosView {
            active_broken: generation.broken_groups,
            active_valid: generation.valid_groups,
            ..state
        },
        announcement(generation, width),
    )
}

/// What every event of a generation begins with.
pub open spec fn event_head(seed: u64) -> Seq<char> {
    "gen (seed "@ + decimal_digits(seed as nat) + "): "@
}

fn begin_event(seed: u64) -> (result: String)
    ensures
        result@ == event_head(seed),
{
    let mut result = String::from_str("gen (seed ");
    result.append(decimal(seed).as_str());
    result.append("): ");
    result
}

/// The event for a control plane that took `millis` to accept the generation's releases.
pub open spec fn patched_event(generation: GenerationView, millis: u64) -> Seq<char> {
    event_head(generation.seed) + "control-plane patch applied in "@ + decimal_digits(
        millis as nat,
    ) + "ms; waiting for "@ + decimal_digits(exercised_agents(generation)) + " agents to react"@
}

/// The agents of the groups that a generation exercises.
pub open spec fn exercised_agents(generation: GenerationView) -> nat {
    (generation.broken_groups.len() + generation.valid_groups.len()) * DEMO_COHORT_SIZE as nat
}

// ----- when a group has settled -----

/// Whether a node is healthy and in the load balancer.
pub open spec fn is_serving(node: FleetNode) -> bool {
    node.healthy && node.in_load_balancer
}

/// Whether a node serves a release below `bad_major`.
pub open spec fn is_held(node: FleetNode, bad_major: usize) -> bool {
    &&& is_serving(node)
    &&& node.version is Some
    &&& major_of(node.version->Some_0@) is Some
    &&& major_of(node.version->Some_0@)->Some_0 < bad_major
}

/// Whether a node serves `version`.
pub open spec fn is_advanced(node: FleetNode, version: Seq<char>) -> bool {
    is_serving(node) && is_text(node.version, version)
}

fn serves_below(node: &FleetNode, bad_major: usize) -> (result: bool)
    ensures
        result == is_held(*node, bad_major),
{
    if !(node.healthy && node.in_load_balancer) {
        return false;
    }
    match &node.version {
        Some(version) => match version_major(version.as_str()) {
            Some(major) => major < bad_major,
            None => false,
        },
        None => false,
    }
}

fn serves(node: &FleetNode, version: &str) -> (result: bool)
    ensures
        result == is_advanced(*node, version@),
{
    node.healthy && node.in_load_balancer && holds_text(&node.version, version)
}

/// The nodes of a group.
pub open spec fn in_group(group: Seq<char>) -> spec_fn(FleetNode) -> bool {
    |node: FleetNode| is_text(node.selected_group, group)
}

/// Whether all nodes of a group are there and serve `version`.
pub open spec fn group_advanced(
    fleet: Seq<FleetNode>,
    group: Seq<char>,
    version: Seq<char>,
) -> bool {
    &&& count_where(fleet, in_group(group)) == DEMO_COHORT_SIZE
    &&& forall|i: int|
        0 <= i < fleet.len() && is_text((#[trigger] fleet[i]).selected_group, group) ==> is_advanced(
            fleet[i],
            version,
        )
}

/// Whether all nodes of a group are there, have been out of the load balancer in this generation,
/// and serve a release below `bad_major`: they took the broken release and went back.
pub open spec fn group_rolled_back(
    fleet: Seq<FleetNode>,
    left: Seq<Seq<char>>,
    group: Seq<char>,
    bad_major: usize,
) -> bool {
    &&& count_where(fleet, in_group(group)) == DEMO_COHORT_SIZE
    &&& forall|i: int|
        0 <= i < fleet.len() && is_text((#[trigger] fleet[i]).selected_group, group) ==> is_held(
            fleet[i],
            bad_major,
        ) && left.contains(fleet[i].node@)
}

fn has_advanced(fleet: &Vec<FleetNode>, group: &str, version: &str) -> (result: bool)
    ensures
        result == group_advanced(fleet@, group@, version@),
{
    let mut members: usize = 0;
    let mut all = true;
    let mut index: usize = 0;
    proof {
        reveal(Seq::filter);
    }
    while index < fleet.len()
        invariant
            index <= fleet.len(),
            members == fleet@.take(index as int).filter(in_group(group@)).len(),
            members <= index,
            all <==> forall|i: int|
                0 <= i < index && is_text((#[trigger] fleet@[i]).selected_group, group@)
                    ==> is_advanced(fleet@[i], version@),
        decreases fleet.len() - index,
    {
        proof {
            assert(fleet@.take(index + 1) == fleet@.take(index as int).push(fleet@[index as int]));
            lemma_filter_push(fleet@.take(index as int), fleet@[index as int], in_group(group@));
        }
        if holds_text(&fleet[index].selected_group, group) {
            members = members + 1;
            if !serves(&fleet[index], version) {
                all = false;
            }
        }
        index = index + 1;
    }
    assert(fleet@.take(fleet.len() as int) == fleet@);
    members == DEMO_COHORT_SIZE && all
}

fn has_rolled_back(fleet: &Vec<FleetNode>, left: &Vec<String>, group: &str, bad_major: usize) -> (result:
    bool)
    ensures
        result == group_rolled_back(fleet@, views(left@), group@, bad_major),
{
    let mut members: usize = 0;
    let mut all = true;
    let mut index: usize = 0;
    proof {
        reveal(Seq::filter);
    }
    while index < fleet.len()
        invariant
            index <= fleet.len(),
            members == fleet@.take(index as int).filter(in_group(group@)).len(),
            members <= index,
            all <==> forall|i: int|
                0 <= i < index && is_text((#[trigger] fleet@[i]).selected_group, group@) ==> is_held(
                    fleet@[i],
                    bad_major,
                ) && views(left@).contains(fleet@[i].node@),
        decreases fleet.len() - index,
    {
        proof {
            assert(fleet@.take(index + 1) == fleet@.take(index as int).push(fleet@[index as int]));
            lemma_filter_push(fleet@.take(index as int), fleet@[index as int], in_group(group@));
        }
        if holds_text(&fleet[index].selected_group, group) {
            members = members + 1;
            if !serves_below(&fleet[index], bad_major) || !holds(left, fleet[index].node.as_str()) {
                all = false;
            }
        }
        index = index + 1;
    }
    assert(fleet@.take(fleet.len() as int) == fleet@);
    members == DEMO_COHORT_SIZE && all
}

// ----- one look at the fleet -----

/// A generation and the state that shows it.
#[verifier::ext_equal]
pub struct Progress {
    pub generation: GenerationView,
    pub state: ChaosView,
}

/// What one look at the fleet sees.
pub struct Sighting {
    pub fleet: Seq<FleetNode>,
    /// The nodes that have been out of the load balancer in this generation.
    pub left: Seq<Seq<char>>,
    /// Seconds since the releases were rolled out.
    pub elapsed: u64,
}

/// The event for a group that advanced.
pub open spec fn advanced_event(
    generation: GenerationView,
    group: Seq<char>,
    elapsed: u64,
) -> Seq<char> {
    event_head(generation.seed) + "UPGRADE complete — "@ + group + " advanced to "@
        + generation.good_version + " ("@ + decimal_digits(elapsed as nat) + "s)"@
}

/// The event for a group that rolled back.
pub open spec fn rolled_back_event(
    generation: GenerationView,
    group: Seq<char>,
    elapsed: u64,
) -> Seq<char> {
    event_head(generation.seed) + "ROLLBACK complete — "@ + group + " held below broken "@
        + generation.bad_version + " ("@ + decimal_digits(elapsed as nat) + "s)"@
}

/// Progress after a look at one group that takes the valid release.
pub open spec fn valid_group_seen(at: Progress, group: Seq<char>, seen: Sighting) -> Progress {
    if at.generation.settled_valid.contains(group) || !group_advanced(
        seen.fleet,
        group,
        at.generation.good_version,
    ) {
        at
    } else {
        let updated = with_text(at.state.updated_groups, group);
        Progress {
            generation: GenerationView {
                settled_valid: at.generation.settled_valid.push(group),
                ..at.generation
            },
            state: with_event(
                ChaosView {
                    active_valid: without_text(at.state.active_valid, group),
                    updated_groups: updated,
                    completed_nodes: (at.state.rolled_back_groups.len() + updated.len()) as usize,
                    ..at.state
                },
                advanced_event(at.generation, group, seen.elapsed),
            ),
        }
    }
}

/// Progress after a look at one group that takes the broken release.
pub open spec fn broken_group_seen(at: Progress, group: Seq<char>, seen: Sighting) -> Progress {
    if at.generation.settled_broken.contains(group) || !group_rolled_back(
        seen.fleet,
        seen.left,
        group,
        at.generation.bad_major,
    ) {
        at
    } else {
        let rolled_back = with_text(at.state.rolled_back_groups, group);
        Progress {
            generation: GenerationView {
                settled_broken: at.generation.settled_broken.push(group),
                ..at.generation
            },
            state: with_event(
                ChaosView {
                    active_broken: without_text(at.state.active_broken, group),
                    rolled_back_groups: rolled_back,
                    completed_nodes: (rolled_back.len() + at.state.updated_groups.len()) as usize,
                    ..at.state
                },
                rolled_back_event(at.generation, group, seen.elapsed),
            ),
        }
    }
}

/// Progress after a look at the first `count` groups that take the valid release.
pub open spec fn valid_groups_seen(at: Progress, seen: Sighting, count: int) -> Progress
    decreases count,
{
    if count <= 0 {
        at
    } else {
        valid_group_seen(
            valid_groups_seen(at, seen, count - 1),
            at.generation.valid_groups[count - 1],
            seen,
        )
    }
}

/// Progress after a look at the first `count` groups that take the broken release.
pub open spec fn broken_groups_seen(at: Progress, seen: Sighting, count: int) -> Progress
    decreases count,
{
    if count <= 0 {
        at
    } else {
        broken_group_seen(
            broken_groups_seen(at, seen, count - 1),
            at.generation.broken_groups[count - 1],
            seen,
        )
    }
}

/// Progress after a look at every group: first those with the valid release.
pub open spec fn groups_seen(at: Progress, seen: Sighting) -> Progress {
    let after_valid = valid_groups_seen(at, seen, at.generation.valid_groups.len() as int);
    broken_groups_seen(after_valid, seen, after_valid.generation.broken_groups.len() as int)
}

/// Whether a node belongs to a group that the generation exercises.
pub open spec fn is_exercised(generation: GenerationView) -> spec_fn(FleetNode) -> bool {
    |node: FleetNode|
        node.selected_group is Some && (generation.broken_groups.contains(
            node.selected_group->Some_0@,
        ) || generation.valid_groups.contains(node.selected_group->Some_0@))
}

/// Whether a node of an exercised group serves what the generation means it to.
pub open spec fn is_on_target(generation: GenerationView) -> spec_fn(FleetNode) -> bool {
    |node: FleetNode|
        is_exercised(generation)(node) && if generation.broken_groups.contains(
            node.selected_group->Some_0@,
        ) {
            is_held(node, generation.bad_major)
        } else {
            is_advanced(node, generation.good_version)
        }
}

/// Whether a node of an exercised group is out of the load balancer.
pub open spec fn is_draining(generation: GenerationView) -> spec_fn(FleetNode) -> bool {
    |node: FleetNode| is_exercised(generation)(node) && !node.in_load_balancer
}

/// Whether every group of a generation has settled.
pub open spec fn is_settled(generation: GenerationView) -> bool {
    generation.settled_broken.len() == generation.broken_groups.len()
        && generation.settled_valid.len() == generation.valid_groups.len()
}

/// Progress once the first agent that left the load balancer was noted.
pub open spec fn reaction_noted(at: Progress, seen: Sighting) -> Progress {
    if !at.generation.reacted && count_where(seen.fleet, is_draining(at.generation)) > 0 {
        Progress {
            generation: GenerationView { reacted: true, ..at.generation },
            state: with_event(
                at.state,
                event_head(at.generation.seed) + "first agent left the load balancer after "@
                    + decimal_digits(seen.elapsed as nat) + "s"@,
            ),
        }
    } else {
        at
    }
}

/// The event that tells how far a generation has come.
pub open spec fn progress_event(at: Progress, seen: Sighting) -> Seq<char> {
    event_head(at.generation.seed) + decimal_digits(
        count_where(seen.fleet, is_on_target(at.generation)),
    ) + "/"@ + decimal_digits(exercised_agents(at.generation)) + " agents on target, "@
        + decimal_digits(count_where(seen.fleet, is_draining(at.generation))) + " draining, "@
        + decimal_digits(seen.elapsed as nat) + "s elapsed"@
}

/// Progress after one look at the fleet, and whether the generation has settled.
pub open spec fn looked(at: Progress, seen: Sighting) -> (Progress, bool) {
    let noted = reaction_noted(groups_seen(at, seen), seen);
    if is_settled(noted.generation) {
        (
            Progress {
                state: with_event(
                    noted.state,
                    event_head(noted.generation.seed) + "generation settled in "@ + decimal_digits(
                        seen.elapsed as nat,
                    ) + "s"@,
                ),
                ..noted
            },
            true,
        )
    } else if seen.elapsed >= noted.generation.last_logged_secs + 3 {
        (
            Progress {
                generation: GenerationView { last_logged_secs: seen.elapsed, ..noted.generation },
                state: with_event(noted.state, progress_event(noted, seen)),
            },
            false,
        )
    } else {
        (noted, false)
    }
}

impl Generation {
    /// The generation that rolls out `bad_major` and `good_major` to the groups of the
    /// assignments.
    pub fn new(seed: u64, assignments: &Vec<(usize, bool)>, bad_major: usize, good_major: usize) -> (result:
        Generation)
        ensures
            result@ == new_generation(
                seed,
                assignment_view(assignments@),
                bad_major,
                good_major,
            ),
            result.broken_groups@.len() <= assignments@.len(),
            result.valid_groups@.len() <= assignments@.len(),
    {
        let result = Generation {
            seed,
            bad_major,
            bad_version: version_of_major(bad_major),
            good_version: version_of_major(good_major),
            broken_groups: role_groups(assignments, true),
            valid_groups: role_groups(assignments, false),
            settled_broken: Vec::new(),
            settled_valid: Vec::new(),
            reacted: false,
            last_logged_secs: 0,
        };
        assert(assignment_view(assignments@).len() == assignments@.len());
        assert(result@ =~= new_generation(
            seed,
            assignment_view(assignments@),
            bad_major,
            good_major,
        ));
        result
    }

    /// Shows the generation in the state.
    pub fn announce(&self, state: &mut ChaosState, width: u32)
        ensures
            final(state)@ == announced(old(state)@, self@, width),
    {
        state.active_broken = copied(&self.broken_groups);
        state.active_valid = copied(&self.valid_groups);
        let mut event = String::from_str("gen (seed ");
        event.append(decimal(self.seed).as_str());
        event.append(", width ");
        event.append(decimal(width as u64).as_str());
        event.append("/");
        event.append(decimal(DEMO_SET_COUNT as u64).as_str());
        event.append("): BROKEN ");
        event.append(self.bad_version.as_str());
        event.append(" -> [");
        event.append(list_groups(&self.broken_groups).as_str());
        event.append("]; VALID ");
        event.append(self.good_version.as_str());
        event.append(" -> [");
        event.append(list_groups(&self.valid_groups).as_str());
        event.append("]");
        state.event(event);
    }

    fn exercised(&self) -> (result: usize)
        requires
            exercised_agents(self@) <= usize::MAX,
        ensures
            result == exercised_agents(self@),
    {
        (self.broken_groups.len() + self.valid_groups.len()) * DEMO_COHORT_SIZE
    }

    /// Notes in the state that the control plane accepted the releases.
    pub fn note_patched(&self, state: &mut ChaosState, millis: u64)
        requires
            exercised_agents(self@) <= usize::MAX,
        ensures
            final(state)@ == with_event(old(state)@, patched_event(self@, millis)),
    {
        let mut event = begin_event(self.seed);
        event.append("control-plane patch applied in ");
        event.append(decimal(millis).as_str());
        event.append("ms; waiting for ");
        event.append(decimal(self.exercised() as u64).as_str());
        event.append(" agents to react");
        state.event(event);
    }

    fn look_at_valid(&mut self, state: &mut ChaosState, fleet: &Vec<FleetNode>, left: &Vec<String>, elapsed: u64)
        requires
            old(state).updated_groups@.len() + old(state).rolled_back_groups@.len()
                + old(self).valid_groups@.len() <= usize::MAX,
        ensures
            ({
                let at = Progress { generation: old(self)@, state: old(state)@ };
                let seen = Sighting { fleet: fleet@, left: views(left@), elapsed };
                Progress { generation: final(self)@, state: final(state)@ } == valid_groups_seen(
                    at,
                    seen,
                    at.generation.valid_groups.len() as int,
                )
            }),
            final(self).broken_groups@ == old(self).broken_groups@,
            final(self).valid_groups@ == old(self).valid_groups@,
            final(state).updated_groups@.len() <= old(state).updated_groups@.len()
                + old(self).valid_groups@.len(),
            final(state).rolled_back_groups@.len() == old(state).rolled_back_groups@.len(),
    {
        let ghost at = Progress { generation: self@, state: state@ };
        let ghost seen = Sighting { fleet: fleet@, left: views(left@), elapsed };
        let ghost groups = self.valid_groups@;
        let ghost others = self.broken_groups@;
        let ghost held = state.rolled_back_groups@;
        let ghost grown = state.updated_groups@.len();
        let mut index: usize = 0;
        while index < self.valid_groups.len()
            invariant
                index <= self.valid_groups@.len(),
                self.valid_groups@ == groups,
                self.broken_groups@ == others,
                state@.rolled_back_groups == views(held),
                state.rolled_back_groups@.len() == held.len(),
                at.generation.valid_groups == views(groups),
                state.updated_groups@.len() <= grown + index,
                grown + held.len() + groups.len() <= usize::MAX,
                seen == (Sighting { fleet: fleet@, left: views(left@), elapsed }),
                (Progress { generation: self@, state: state@ }) == valid_groups_seen(
                    at,
                    seen,
                    index as int,
                ),
            decreases self.valid_groups.len() - index,
        {
            let ghost now = Progress { generation: self@, state: state@ };
            let group = self.valid_groups[index].clone();
            assert(at.generation.valid_groups[index as int] == group@);
            if !holds(&self.settled_valid, group.as_str()) && has_advanced(
                fleet,
                group.as_str(),
                self.good_version.as_str(),
            ) {
                let mut event = begin_event(self.seed);
                event.append("UPGRADE complete — ");
                event.append(group.as_str());
                event.append(" advanced to ");
                event.append(self.good_version.as_str());
                event.append(" (");
                event.append(decimal(elapsed).as_str());
                event.append("s)");
                let ghost settled = self.settled_valid@;
                self.settled_valid.push(group.clone());
                assert(views(self.settled_valid@) =~= views(settled).push(group@));
                state.active_valid = without(&state.active_valid, group.as_str());
                add_text(&mut state.updated_groups, group.as_str());
                assert(state@.updated_groups.len() == state.updated_groups@.len());
                assert(state@.rolled_back_groups.len() == state.rolled_back_groups@.len());
                state.completed_nodes = state.rolled_back_groups.len() + state.updated_groups.len();
                state.event(event);
                assert(state@.rolled_back_groups.len() == state.rolled_back_groups@.len());
                assert(state@.updated_groups.len() == state.updated_groups@.len());
                assert((Progress { generation: self@, state: state@ }) =~= valid_group_seen(
                    now,
                    group@,
                    seen,
                ));
            }
            index = index + 1;
        }
        assert(at.generation.valid_groups.len() == groups.len());
    }

    fn look_at_broken(&mut self, state: &mut ChaosState, fleet: &Vec<FleetNode>, left: &Vec<String>, elapsed: u64)
        requires
            old(state).updated_groups@.len() + old(state).rolled_back_groups@.len()
                + old(self).broken_groups@.len() <= usize::MAX,
        ensures
            ({
                let at = Progress { generation: old(self)@, state: old(state)@ };
                let seen = Sighting { fleet: fleet@, left: views(left@), elapsed };
                Progress { generation: final(self)@, state: final(state)@ } == broken_groups_seen(
                    at,
                    seen,
                    at.generation.broken_groups.len() as int,
                )
            }),
            final(self).broken_groups@ == old(self).broken_groups@,
            final(self).valid_groups@ == old(self).valid_groups@,
    {
        let ghost at = Progress { generation: self@, state: state@ };
        let ghost seen = Sighting { fleet: fleet@, left: views(left@), elapsed };
        let ghost groups = self.broken_groups@;
        let ghost others = self.valid_groups@;
        let ghost kept = state.updated_groups@;
        let ghost grown = state.rolled_back_groups@.len();
        let mut index: usize = 0;
        while index < self.broken_groups.len()
            invariant
                index <= self.broken_groups@.len(),
                self.broken_groups@ == groups,
                self.valid_groups@ == others,
                state@.updated_groups == views(kept),
                state.updated_groups@.len() == kept.len(),
                at.generation.broken_groups == views(groups),
                state.rolled_back_groups@.len() <= grown + index,
                grown + kept.len() + groups.len() <= usize::MAX,
                seen == (Sighting { fleet: fleet@, left: views(left@), elapsed }),
                (Progress { generation: self@, state: state@ }) == broken_groups_seen(
                    at,
                    seen,
                    index as int,
                ),
            decreases self.broken_groups.len() - index,
        {
            let ghost now = Progress { generation: self@, state: state@ };
            let group = self.broken_groups[index].clone();
            assert(at.generation.broken_groups[index as int] == group@);
            if !holds(&self.settled_broken, group.as_str()) && has_rolled_back(
                fleet,
                left,
                group.as_str(),
                self.bad_major,
            ) {
                let mut event = begin_event(self.seed);
                event.append("ROLLBACK complete — ");
                event.append(group.as_str());
                event.append(" held below broken ");
                event.append(self.bad_version.as_str());
                event.append(" (");
                event.append(decimal(elapsed).as_str());
                event.append("s)");
                let ghost settled = self.settled_broken@;
                self.settled_broken.push(group.clone());
                assert(views(self.settled_broken@) =~= views(settled).push(group@));
                state.active_broken = without(&state.active_broken, group.as_str());
                add_text(&mut state.rolled_back_groups, group.as_str());
                assert(state@.updated_groups.len() == state.updated_groups@.len());
                assert(state@.rolled_back_groups.len() == state.rolled_back_groups@.len());
                state.completed_nodes = state.rolled_back_groups.len() + state.updated_groups.len();
                state.event(event);
                assert(state@.rolled_back_groups.len() == state.rolled_back_groups@.len());
                assert(state@.updated_groups.len() == state.updated_groups@.len());
                assert((Progress { generation: self@, state: state@ }) =~= broken_group_seen(
                    now,
                    group@,
                    seen,
                ));
            }
            index = index + 1;
        }
        assert(at.generation.broken_groups.len() == groups.len());
    }

    fn counts(&self, fleet: &Vec<FleetNode>) -> (result: (usize, usize))
        ensures
            result.0 == count_where(fleet@, is_on_target(self@)),
            result.1 == count_where(fleet@, is_draining(self@)),
    {
        let mut on_target: usize = 0;
        let mut draining: usize = 0;
        let mut index: usize = 0;
        proof {
            reveal(Seq::filter);
        }
        while index < fleet.len()
            invariant
                index <= fleet.len(),
                on_target == fleet@.take(index as int).filter(is_on_target(self@)).len(),
                draining == fleet@.take(index as int).filter(is_draining(self@)).len(),
                on_target <= index,
                draining <= index,
            decreases fleet.len() - index,
        {
            proof {
                assert(fleet@.take(index + 1) == fleet@.take(index as int).push(
                    fleet@[index as int],
                ));
                lemma_filter_push(
                    fleet@.take(index as int),
                    fleet@[index as int],
                    is_on_target(self@),
                );
                lemma_filter_push(
                    fleet@.take(index as int),
                    fleet@[index as int],
                    is_draining(self@),
                );
            }
            let node = &fleet[index];
            if let Some(group) = &node.selected_group {
                let broken = holds(&self.broken_groups, group.as_str());
                if broken || holds(&self.valid_groups, group.as_str()) {
                    if !node.in_load_balancer {
                        draining = draining + 1;
                    }
                    let served = if broken {
                        serves_below(node, self.bad_major)
                    } else {
                        serves(node, self.good_version.as_str())
                    };
                    if served {
                        on_target = on_target + 1;
                    }
                }
            }
            index = index + 1;
        }
        assert(fleet@.take(fleet.len() as int) == fleet@);
        (on_target, draining)
    }

    /// Takes one look at the fleet: settles the groups that have advanced or rolled back, shows it
    /// in the state, and tells whether the whole generation has settled.
    ///
    /// `left` names the nodes that have been out of the load balancer in this generation.
    pub fn look(&mut self, state: &mut ChaosState, fleet: &Vec<FleetNode>, left: &Vec<String>, elapsed: u64) -> (settled:
        bool)
        requires
            old(state).updated_groups@.len() + old(state).rolled_back_groups@.len()
                + old(self).valid_groups@.len() + old(self).broken_groups@.len() <= usize::MAX,
            exercised_agents(old(self)@) <= usize::MAX,
        ensures
            (
                Progress { generation: final(self)@, state: final(state)@ },
                settled,
            ) == looked(
                (Progress { generation: old(self)@, state: old(state)@ }),
                (Sighting { fleet: fleet@, left: views(left@), elapsed }),
            ),
    {
        let ghost at = Progress { generation: self@, state: state@ };
        let ghost seen = Sighting { fleet: fleet@, left: views(left@), elapsed };
        self.look_at_valid(state, fleet, left, elapsed);
        self.look_at_broken(state, fleet, left, elapsed);
        let ghost grouped = Progress { generation: self@, state: state@ };
        assert(grouped == groups_seen(at, seen));
        let (on_target, draining) = self.counts(fleet);
        if !self.reacted && draining > 0 {
            self.reacted = true;
            let mut event = begin_event(self.seed);
            event.append("first agent left the load balancer after ");
            event.append(decimal(elapsed).as_str());
            event.append("s");
            state.event(event);
            assert((Progress { generation: self@, state: state@ }) =~= reaction_noted(
                grouped,
                seen,
            ));
        }
        let ghost noted = Progress { generation: self@, state: state@ };
        assert(noted == reaction_noted(grouped, seen));
        assert(noted.generation.broken_groups.len() == self.broken_groups@.len());
        assert(noted.generation.valid_groups.len() == self.valid_groups@.len());
        assert(noted.generation.settled_broken.len() == self.settled_broken@.len());
        assert(noted.generation.settled_valid.len() == self.settled_valid@.len());
        assert(count_where(fleet@, is_on_target(noted.generation)) == on_target) by {
            assert(is_on_target(noted.generation) =~= is_on_target(grouped.generation));
        }
        assert(count_where(fleet@, is_draining(noted.generation)) == draining) by {
            assert(is_draining(noted.generation) =~= is_draining(grouped.generation));
        }
        if self.settled_broken.len() == self.broken_groups.len() && self.settled_valid.len()
            == self.valid_groups.len() {
            let mut event = begin_event(self.seed);
            event.append("generation settled in ");
            event.append(decimal(elapsed).as_str());
            event.append("s");
            state.event(event);
            return true;
        }
        if elapsed >= self.last_logged_secs && elapsed - self.last_logged_secs >= 3 {
            let mut event = begin_event(self.seed);
            event.append(decimal(on_target as u64).as_str());
            event.append("/");
            event.append(decimal(self.exercised() as u64).as_str());
            event.append(" agents on target, ");
            event.append(decimal(draining as u64).as_str());
            event.append(" draining, ");
            event.append(decimal(elapsed).as_str());
            event.append("s elapsed");
            self.last_logged_secs = elapsed;
            state.event(event);
            assert((Progress { generation: self@, state: state@ }) =~= looked(at, seen).0);
        }
        false
    }

    /// The message for a generation that did not settle in time.
    pub fn timeout_message(&self) -> (result: String)
        ensures
            result@ == "generation (broken ["@ + joined(self@.broken_groups, ", "@) + "], valid ["@
                + joined(self@.valid_groups, ", "@) + "]) did not settle within "@
                + decimal_digits(DEMO_SETTLE_TIMEOUT_SECS as nat) + " seconds"@,
    {
        let mut result = String::from_str("generation (broken [");
        result.append(join(&self.broken_groups, ", ").as_str());
        result.append("], valid [");
        result.append(join(&self.valid_groups, ", ").as_str());
        result.append("]) did not settle within ");
        result.append(decimal(DEMO_SETTLE_TIMEOUT_SECS as u64).as_str());
        result.append(" seconds");
        result
    }
}

} // verus!
