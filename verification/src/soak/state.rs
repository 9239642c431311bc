//! The durable state of a soak campaign: its checks, and the steps that keep it valid.

use crate::soak::config::Config;
use crate::soak::faults::{every_fault, FaultKind};
use crate::soak::plan::{soak_group, soak_groups};
use crate::text::{
    copied_text, decimal, decimal_digits, quote_list, quoted, quoted_list, quoted_text, same, view_of,
    views,
};
use crate::version::{
    plain_version, read_version, version_of, version_round_trip, version_text,
    version_text_is_injective, write_version, Version, VersionView,
};
use vstd::prelude::*;

verus! {

/// The layout version of a persisted state.
pub const STATE_SCHEMA: u8 = 4;

/// The version every group starts on.
pub const BASELINE_VERSION: &'static str = "1.0.0";

/// The major number of every release a campaign publishes.
pub const CAMPAIGN_VERSION_MAJOR: u64 = 1_000_000;

/// The version a group is to run.
#[derive(Clone, Debug)]
pub struct GroupVersion {
    pub group: String,
    pub version: String,
}

/// How often a fault was counted.
#[derive(Clone, Debug)]
pub struct FaultCount {
    pub kind: FaultKind,
    pub count: u64,
}

/// The durable state of a campaign.
///
/// `desired` is listed in the order of the group names, `faults` and `fault_failures` in the order
/// of the fault kinds, each name or kind at most once. The last convergence duration is held as
/// the bits of its floating-point number of seconds.
#[derive(Clone, Debug)]
pub struct CampaignState {
    pub schema: u8,
    pub seed: u64,
    pub round: u64,
    pub release_generation: u64,
    pub recovery_target: Option<String>,
    pub desired: Vec<GroupVersion>,
    pub campaigns: u64,
    pub successful_campaigns: u64,
    pub failed_campaigns: u64,
    pub release_assignments: u64,
    pub expected_rejections: u64,
    pub recoveries: u64,
    pub forward_recoveries: u64,
    pub recovery_pending: bool,
    pub consecutive_failures: u64,
    pub faults: Vec<FaultCount>,
    pub fault_failures: Vec<FaultCount>,
    pub last_success_timestamp: i64,
    pub last_failure_timestamp: i64,
    pub last_convergence_bits: u64,
}

/// What a campaign's state holds.
#[verifier::ext_equal]
pub struct CampaignView {
    pub schema: u8,
    pub seed: u64,
    pub round: u64,
    pub release_generation: u64,
    pub recovery_target: Option<Seq<char>>,
    pub desired: Seq<(Seq<char>, Seq<char>)>,
    pub campaigns: u64,
    pub successful_campaigns: u64,
    pub failed_campaigns: u64,
    pub release_assignments: u64,
    pub expected_rejections: u64,
    pub recoveries: u64,
    pub forward_recoveries: u64,
    pub recovery_pending: bool,
    pub consecutive_failures: u64,
    pub faults: Seq<(FaultKind, u64)>,
    pub fault_failures: Seq<(FaultKind, u64)>,
    pub last_success_timestamp: i64,
    pub last_failure_timestamp: i64,
    pub last_convergence_bits: u64,
}

/// Groups and versions of a list.
pub open spec fn desired_view(items: Seq<GroupVersion>) -> Seq<(Seq<char>, Seq<char>)> {
    Seq::new(items.len(), |i: int| (items[i].group@, items[i].version@))
}

/// Kinds and counts of a list.
pub open spec fn counts_view(items: Seq<FaultCount>) -> Seq<(FaultKind, u64)> {
    Seq::new(items.len(), |i: int| (items[i].kind, items[i].count))
}

impl View for CampaignState {
    type V = CampaignView;

    open spec fn view(&self) -> CampaignView {
        CampaignView {
            schema: self.schema,
            seed: self.seed,
            round: self.round,
            release_generation: self.release_generation,
            recovery_target: view_of(self.recovery_target),
            desired: desired_view(self.desired@),
            campaigns: self.campaigns,
            successful_campaigns: self.successful_campaigns,
            failed_campaigns: self.failed_campaigns,
            release_assignments: self.release_assignments,
            expected_rejections: self.expected_rejections,
            recoveries: self.recoveries,
            forward_recoveries: self.forward_recoveries,
            recovery_pending: self.recovery_pending,
            consecutive_failures: self.consecutive_failures,
            faults: counts_view(self.faults@),
            fault_failures: counts_view(self.fault_failures@),
            last_success_timestamp: self.last_success_timestamp,
            last_failure_timestamp: self.last_failure_timestamp,
            last_convergence_bits: self.last_convergence_bits,
        }
    }
}

// ----- what a valid state is -----

/// The groups of a list of desired versions.
pub open spec fn group_names(desired: Seq<(Seq<char>, Seq<char>)>) -> Seq<Seq<char>> {
    Seq::new(desired.len(), |i: int| desired[i].0)
}

/// The kinds of a list of fault counts.
pub open spec fn counted_kinds(counts: Seq<(FaultKind, u64)>) -> Seq<FaultKind> {
    Seq::new(counts.len(), |i: int| counts[i].0)
}

/// The sum of a list of fault counts.
pub open spec fn count_total(counts: Seq<(FaultKind, u64)>) -> int
    decreases counts.len(),
{
    if counts.len() == 0 {
        0
    } else {
        count_total(counts.drop_last()) + counts.last().1
    }
}

/// Whether the state names every group and counts every fault, each once and in order.
pub open spec fn well_formed(state: CampaignView) -> bool {
    &&& group_names(state.desired) == soak_groups()
    &&& counted_kinds(state.faults) == every_fault()
    &&& counted_kinds(state.fault_failures) == every_fault()
}

/// Whether the bits of a floating-point number are those of a finite number without a minus sign.
pub open spec fn is_duration(bits: u64) -> bool {
    bits < 0x7FF0_0000_0000_0000
}

/// Whether a text is that of a release of the campaign.
pub open spec fn is_release(raw: Seq<char>) -> bool {
    exists|generation: u64| raw == #[trigger] version_text(CAMPAIGN_VERSION_MAJOR, generation, 0)
}

/// The generation of a release of the campaign.
pub open spec fn released_in(raw: Seq<char>) -> u64 {
    choose|generation: u64| raw == #[trigger] version_text(CAMPAIGN_VERSION_MAJOR, generation, 0)
}

/// Whether a text is that of a release which the campaign published by `generation`.
pub open spec fn is_published(raw: Seq<char>, generation: u64) -> bool {
    is_release(raw) && 1 <= released_in(raw) <= generation
}

/// What is said of a text that names no stable version.
pub open spec fn stable_fault(raw: Seq<char>, generation: u64) -> Seq<char> {
    match version_of(raw) {
        Err(message) => "persisted desired version "@ + quoted_text(raw) + " is invalid: "@
            + message,
        Ok(_) => "persisted desired version "@ + quoted_text(raw)
            + " is not a stable release through generation "@ + decimal_digits(generation as nat),
    }
}

/// The stable version that a text names, or why it names none: the baseline, or a release that
/// the campaign published by `generation`, each in its one spelling.
pub open spec fn stable_version(raw: Seq<char>, generation: u64) -> Result<VersionView, Seq<char>> {
    if raw == BASELINE_VERSION@ {
        Ok(plain_version(1, 0, 0))
    } else if is_published(raw, generation) {
        Ok(plain_version(CAMPAIGN_VERSION_MAJOR, released_in(raw), 0))
    } else {
        Err(stable_fault(raw, generation))
    }
}

/// A release of the campaign is told by its generation.
pub proof fn a_release_has_one_generation(generation: u64)
    ensures
        is_release(version_text(CAMPAIGN_VERSION_MAJOR, generation, 0)),
        released_in(version_text(CAMPAIGN_VERSION_MAJOR, generation, 0)) == generation,
{
    let raw = version_text(CAMPAIGN_VERSION_MAJOR, generation, 0);
    version_text_is_injective(
        CAMPAIGN_VERSION_MAJOR,
        generation,
        0,
        CAMPAIGN_VERSION_MAJOR,
        released_in(raw),
        0,
    );
}

/// Nothing is stable but the baseline and what the campaign has published, and all of that is.
pub proof fn only_what_was_published_is_stable(raw: Seq<char>, generation: u64)
    ensures
        stable_version(raw, generation) is Ok <==> raw == BASELINE_VERSION@ || exists|release: u64|
            1 <= release <= generation && raw == #[trigger] version_text(
                CAMPAIGN_VERSION_MAJOR,
                release,
                0,
            ),
{
    if is_published(raw, generation) {
        assert(raw == version_text(CAMPAIGN_VERSION_MAJOR, released_in(raw), 0));
    }
    if exists|release: u64|
        1 <= release <= generation && raw == #[trigger] version_text(
            CAMPAIGN_VERSION_MAJOR,
            release,
            0,
        ) {
        let release: u64 = choose|release: u64|
            1 <= release <= generation && raw == #[trigger] version_text(
                CAMPAIGN_VERSION_MAJOR,
                release,
                0,
            );
        a_release_has_one_generation(release);
    }
}

/// The text of the baseline is that of version 1.0.0.
pub proof fn lemma_baseline()
    ensures
        BASELINE_VERSION@ == version_text(1, 0, 0),
        version_of(BASELINE_VERSION@) == Ok::<VersionView, Seq<char>>(plain_version(1, 0, 0)),
{
    reveal_strlit("1.0.0");
    reveal_strlit(".");
    assert(decimal_digits(1) == seq!['1']);
    assert(decimal_digits(0) == seq!['0']);
    assert(BASELINE_VERSION@ =~= version_text(1, 0, 0));
    version_round_trip(1, 0, 0);
}

/// The first problem with the versions of the first `count` groups, if there is one.
pub open spec fn desired_error(state: CampaignView, count: int) -> Option<Seq<char>>
    decreases count,
{
    if count <= 0 {
        None
    } else {
        match desired_error(state, count - 1) {
            Some(message) => Some(message),
            None => match stable_version(
                state.desired[count - 1].1,
                state.release_generation,
            ) {
                Ok(_) => None,
                Err(message) => Some(message),
            },
        }
    }
}

/// The problem with the recovery target, if there is one: it must be the latest release.
pub open spec fn target_error(state: CampaignView) -> Option<Seq<char>> {
    match state.recovery_target {
        None => None,
        Some(target) => match stable_version(target, state.release_generation) {
            Err(message) => Some(message),
            Ok(version) => if version.minor != state.release_generation {
                Some("persisted recovery target is not the latest allocated release"@)
            } else {
                None
            },
        },
    }
}

/// Whether the counters that sum up the campaign could have come about.
pub open spec fn aggregates_possible(state: CampaignView) -> bool {
    &&& state.successful_campaigns <= count_total(state.faults) <= state.campaigns
    &&& count_total(state.fault_failures) <= state.failed_campaigns
    &&& state.expected_rejections <= state.round / 10
    &&& state.campaigns <= state.release_generation
    &&& state.recoveries <= state.forward_recoveries <= state.release_generation
    &&& state.forward_recoveries * 3 + state.successful_campaigns <= state.release_assignments
    &&& state.release_assignments <= (state.campaigns + state.forward_recoveries) * 3
}

/// Whether the timestamps agree with the counters and the duration is one.
pub open spec fn times_possible(state: CampaignView) -> bool {
    &&& (state.successful_campaigns == 0) == (state.last_success_timestamp == 0)
    &&& (state.failed_campaigns == 0) == (state.last_failure_timestamp == 0)
    &&& is_duration(state.last_convergence_bits)
}

/// The message for the first check that a state fails, if it fails one.
pub open spec fn state_error(state: CampaignView, seed: u64) -> Option<Seq<char>> {
    let pending: int = if state.recovery_pending {
        1
    } else {
        0
    };
    if state.schema != STATE_SCHEMA {
        Some("unsupported soak state schema "@ + decimal_digits(state.schema as nat))
    } else if state.seed != seed {
        Some(
            "persisted soak seed "@ + decimal_digits(state.seed as nat)
                + " differs from configured seed "@ + decimal_digits(seed as nat)
                + "; reset the soak PVC to start a different campaign"@,
        )
    } else if group_names(state.desired) != soak_groups() {
        Some("persisted desired groups are not canonical: "@ + quoted_list(group_names(state.desired)))
    } else if counted_kinds(state.faults) != every_fault() || counted_kinds(state.fault_failures)
        != every_fault() {
        Some("persisted fault counters do not cover the canonical fault set"@)
    } else if state.successful_campaigns + state.failed_campaigns > u64::MAX {
        Some("persisted campaign counters overflow"@)
    } else if state.round != state.campaigns || state.campaigns != state.successful_campaigns
        + state.failed_campaigns {
        Some(
            "persisted campaign counters disagree: round="@ + decimal_digits(state.round as nat)
                + ", campaigns="@ + decimal_digits(state.campaigns as nat) + ", successes="@
                + decimal_digits(state.successful_campaigns as nat) + ", failures="@
                + decimal_digits(state.failed_campaigns as nat),
        )
    } else if state.recoveries + pending > u64::MAX {
        Some("persisted recovery counters overflow"@)
    } else if state.consecutive_failures > state.failed_campaigns || state.recoveries + pending
        != state.failed_campaigns {
        Some("persisted failure and recovery counters are impossible"@)
    } else if count_total(state.faults) > u64::MAX {
        Some("persisted fault counters overflow"@)
    } else if count_total(state.fault_failures) > u64::MAX {
        Some("persisted fault failure counters overflow"@)
    } else if state.campaigns + state.forward_recoveries > u64::MAX {
        Some("persisted release assignment event bound overflow"@)
    } else if (state.campaigns + state.forward_recoveries) * 3 > u64::MAX {
        Some("persisted release assignment bound overflow"@)
    } else if state.forward_recoveries * 3 + state.successful_campaigns > u64::MAX {
        Some("persisted minimum release assignment bound overflow"@)
    } else if !aggregates_possible(state) {
        Some("persisted campaign aggregate counters are impossible"@)
    } else if !times_possible(state) {
        Some("persisted campaign timestamps or convergence duration are impossible"@)
    } else {
        match desired_error(state, state.desired.len() as int) {
            Some(message) => Some(message),
            None => target_error(state),
        }
    }
}

/// Whether a state passes every check for the campaign with this seed.
pub open spec fn is_valid(state: CampaignView, seed: u64) -> bool {
    &&& state.schema == STATE_SCHEMA
    &&& state.seed == seed
    &&& well_formed(state)
    &&& state.round == state.campaigns
    &&& state.campaigns == state.successful_campaigns + state.failed_campaigns
    &&& state.consecutive_failures <= state.failed_campaigns
    &&& state.failed_campaigns == state.recoveries + (if state.recovery_pending {
        1int
    } else {
        0
    })
    &&& (state.campaigns + state.forward_recoveries) * 3 <= u64::MAX
    &&& aggregates_possible(state)
    &&& times_possible(state)
    &&& forall|i: int|
        0 <= i < state.desired.len() ==> stable_version(
            #[trigger] state.desired[i].1,
            state.release_generation,
        ) is Ok
    &&& match state.recovery_target {
        None => true,
        Some(target) => match stable_version(target, state.release_generation) {
            Ok(version) => version.minor == state.release_generation,
            Err(_) => false,
        },
    }
}

proof fn lemma_desired_error(state: CampaignView, count: int)
    requires
        0 <= count <= state.desired.len(),
    ensures
        desired_error(state, count) is None <==> forall|i: int|
            0 <= i < count ==> stable_version(
                #[trigger] state.desired[i].1,
                state.release_generation,
            ) is Ok,
    decreases count,
{
    if count > 0 {
        lemma_desired_error(state, count - 1);
    }
}

/// The checks pass exactly on the valid states.
pub proof fn checks_accept_exactly_the_valid_states(state: CampaignView, seed: u64)
    ensures
        state_error(state, seed) is None <==> is_valid(state, seed),
{
    lemma_desired_error(state, state.desired.len() as int);
}

// ----- reading and writing versions -----

/// The version of a generation's release.
pub fn campaign_version(generation: u64) -> (result: Version)
    ensures
        result@ == plain_version(CAMPAIGN_VERSION_MAJOR, generation, 0),
{
    Version {
        major: CAMPAIGN_VERSION_MAJOR,
        minor: generation,
        patch: 0,
        pre: String::new(),
        build: String::new(),
    }
}

/// The text of the version of a generation's release.
pub fn campaign_version_text(generation: u64) -> (result: String)
    ensures
        result@ == version_text(CAMPAIGN_VERSION_MAJOR, generation, 0),
{
    write_version(CAMPAIGN_VERSION_MAJOR, generation, 0)
}

/// Reads the stable version that a text names.
pub fn validate_stable_version(raw: &str, release_generation: u64) -> (result: Result<
    Version,
    String,
>)
    ensures
        match result {
            Ok(version) => stable_version(raw@, release_generation) == Ok::<VersionView, Seq<char>>(
                version@,
            ),
            Err(message) => stable_version(raw@, release_generation) == Err::<
                VersionView,
                Seq<char>,
            >(message@),
        },
{
    let baseline = same(raw, BASELINE_VERSION);
    proof {
        lemma_baseline();
    }
    let version = match read_version(raw) {
        Ok(version) => version,
        Err(error) => {
            proof {
                if is_release(raw@) {
                    version_round_trip(CAMPAIGN_VERSION_MAJOR, released_in(raw@), 0);
                }
            }
            let mut message = String::from_str("persisted desired version ");
            message.append(quoted(raw).as_str());
            message.append(" is invalid: ");
            message.append(error.as_str());
            return Err(message);
        },
    };
    if baseline {
        return Ok(version);
    }
    proof {
        if is_release(raw@) {
            version_round_trip(CAMPAIGN_VERSION_MAJOR, released_in(raw@), 0);
        }
    }
    if version.major != CAMPAIGN_VERSION_MAJOR || version.minor == 0 || version.minor
        > release_generation || version.patch != 0 || version.pre.unicode_len() != 0
        || version.build.unicode_len() != 0 {
        let mut message = String::from_str("persisted desired version ");
        message.append(quoted(raw).as_str());
        message.append(" is not a stable release through generation ");
        message.append(decimal(release_generation).as_str());
        return Err(message);
    }
    proof {
        assert(version@.pre =~= Seq::<char>::empty() && version@.build =~= Seq::<char>::empty());
        a_release_has_one_generation(version.minor);
    }
    Ok(version)
}

fn has_every_fault(counts: &Vec<FaultCount>) -> (result: bool)
    ensures
        result == (counted_kinds(counts_view(counts@)) == every_fault()),
{
    if counts.len() != 4 {
        assert(counted_kinds(counts_view(counts@)).len() != every_fault().len());
        return false;
    }
    let ghost kinds = counted_kinds(counts_view(counts@));
    assert(kinds[0] == counts@[0].kind && kinds[1] == counts@[1].kind && kinds[2] == counts@[2].kind
        && kinds[3] == counts@[3].kind);
    let result = counts[0].kind == FaultKind::NetworkPartition && counts[1].kind
        == FaultKind::IoError && counts[2].kind == FaultKind::AgentKill && counts[3].kind
        == FaultKind::ControllerKill;
    if result {
        assert(kinds =~= every_fault());
    }
    result
}

fn has_every_group(desired: &Vec<GroupVersion>) -> (result: bool)
    ensures
        result == (group_names(desired_view(desired@)) == soak_groups()),
{
    if desired.len() != 3 {
        assert(group_names(desired_view(desired@)).len() != soak_groups().len());
        return false;
    }
    let ghost names = group_names(desired_view(desired@));
    assert(names[0] == desired@[0].group@ && names[1] == desired@[1].group@ && names[2]
        == desired@[2].group@);
    let result = same(desired[0].group.as_str(), soak_group(0)) && same(
        desired[1].group.as_str(),
        soak_group(1),
    ) && same(desired[2].group.as_str(), soak_group(2));
    if result {
        assert(names =~= soak_groups());
    }
    result
}

fn names_listed(desired: &Vec<GroupVersion>) -> (result: String)
    ensures
        result@ == quoted_list(group_names(desired_view(desired@))),
{
    let ghost all = group_names(desired_view(desired@));
    let mut names: Vec<String> = Vec::new();
    let mut index: usize = 0;
    while index < desired.len()
        invariant
            index <= desired.len(),
            all == group_names(desired_view(desired@)),
            views(names@) == all.take(index as int),
        decreases desired.len() - index,
    {
        let ghost before = names@;
        let name = desired[index].group.clone();
        names.push(name);
        assert(views(names@) =~= views(before).push(name@));
        assert(all.take(index + 1) =~= all.take(index as int).push(all[index as int]));
        index = index + 1;
    }
    assert(all.take(desired.len() as int) =~= all);
    quote_list(&names)
}

fn sum_of_counts(counts: &Vec<FaultCount>) -> (result: Option<u64>)
    ensures
        match result {
            Some(total) => total == count_total(counts_view(counts@)),
            None => count_total(counts_view(counts@)) > u64::MAX,
        },
{
    let ghost all = counts_view(counts@);
    let mut total: u64 = 0;
    let mut index: usize = 0;
    while index < counts.len()
        invariant
            index <= counts.len(),
            all == counts_view(counts@),
            total == count_total(all.take(index as int)),
        decreases counts.len() - index,
    {
        proof {
            assert(all.take(index + 1).drop_last() == all.take(index as int));
            lemma_total_grows(all, index + 1);
        }
        total = match total.checked_add(counts[index].count) {
            Some(sum) => sum,
            None => {
                return None;
            },
        };
        index = index + 1;
    }
    assert(all.take(counts.len() as int) == all);
    Some(total)
}

proof fn lemma_total_grows(counts: Seq<(FaultKind, u64)>, count: int)
    requires
        0 <= count <= counts.len(),
    ensures
        0 <= count_total(counts.take(count)) <= count_total(counts),
    decreases counts.len(),
{
    if count == counts.len() {
        assert(counts.take(count) == counts);
        if counts.len() > 0 {
            lemma_total_grows(counts.drop_last(), counts.len() - 1);
            assert(counts.drop_last().take(counts.len() - 1) == counts.drop_last());
        }
    } else {
        lemma_total_grows(counts.drop_last(), count);
        assert(counts.drop_last().take(count) == counts.take(count));
    }
}

// ----- the initial state -----

/// A campaign that has not run a round: every group on the baseline, every count zero.
pub open spec fn fresh_state(seed: u64) -> CampaignView {
    CampaignView {
        schema: STATE_SCHEMA,
        seed,
        round: 0,
        release_generation: 0,
        recovery_target: None,
        desired: Seq::new(3, |i: int| (soak_groups()[i], BASELINE_VERSION@)),
        campaigns: 0,
        successful_campaigns: 0,
        failed_campaigns: 0,
        release_assignments: 0,
        expected_rejections: 0,
        recoveries: 0,
        forward_recoveries: 0,
        recovery_pending: false,
        consecutive_failures: 0,
        faults: Seq::new(4, |i: int| (every_fault()[i], 0u64)),
        fault_failures: Seq::new(4, |i: int| (every_fault()[i], 0u64)),
        last_success_timestamp: 0,
        last_failure_timestamp: 0,
        last_convergence_bits: 0,
    }
}

fn zero_counts() -> (result: Vec<FaultCount>)
    ensures
        counts_view(result@) == Seq::new(4, |i: int| (every_fault()[i], 0u64)),
{
    let mut result: Vec<FaultCount> = Vec::new();
    result.push(FaultCount { kind: FaultKind::NetworkPartition, count: 0 });
    result.push(FaultCount { kind: FaultKind::IoError, count: 0 });
    result.push(FaultCount { kind: FaultKind::AgentKill, count: 0 });
    result.push(FaultCount { kind: FaultKind::ControllerKill, count: 0 });
    assert(counts_view(result@) =~= Seq::new(4, |i: int| (every_fault()[i], 0u64)));
    result
}

impl CampaignState {
    /// A campaign that has not run a round.
    pub fn fresh(seed: u64) -> (result: CampaignState)
        ensures
            result@ == fresh_state(seed),
    {
        let mut desired: Vec<GroupVersion> = Vec::new();
        desired.push(
            GroupVersion { group: soak_group(0).to_owned(), version: BASELINE_VERSION.to_owned() },
        );
        desired.push(
            GroupVersion { group: soak_group(1).to_owned(), version: BASELINE_VERSION.to_owned() },
        );
        desired.push(
            GroupVersion { group: soak_group(2).to_owned(), version: BASELINE_VERSION.to_owned() },
        );
        let result = CampaignState {
            schema: STATE_SCHEMA,
            seed,
            round: 0,
            release_generation: 0,
            recovery_target: None,
            desired,
            campaigns: 0,
            successful_campaigns: 0,
            failed_campaigns: 0,
            release_assignments: 0,
            expected_rejections: 0,
            recoveries: 0,
            forward_recoveries: 0,
            recovery_pending: false,
            consecutive_failures: 0,
            faults: zero_counts(),
            fault_failures: zero_counts(),
            last_success_timestamp: 0,
            last_failure_timestamp: 0,
            last_convergence_bits: 0,
        };
        assert(result@.desired =~= fresh_state(seed).desired);
        result
    }

    /// Checks a state, in the order in which `state_error` lists the checks.
    pub fn validate(&self, config: &Config) -> (result: Result<(), String>)
        ensures
            match result {
                Ok(_) => state_error(self@, config.seed) is None,
                Err(message) => state_error(self@, config.seed) == Some(message@),
            },
    {
        if self.schema != STATE_SCHEMA {
            let mut message = String::from_str("unsupported soak state schema ");
            message.append(decimal(self.schema as u64).as_str());
            return Err(message);
        }
        if self.seed != config.seed {
            let mut message = String::from_str("persisted soak seed ");
            message.append(decimal(self.seed).as_str());
            message.append(" differs from configured seed ");
            message.append(decimal(config.seed).as_str());
            message.append("; reset the soak PVC to start a different campaign");
            return Err(message);
        }
        if !has_every_group(&self.desired) {
            let mut message = String::from_str("persisted desired groups are not canonical: ");
            message.append(names_listed(&self.desired).as_str());
            return Err(message);
        }
        if !has_every_fault(&self.faults) || !has_every_fault(&self.fault_failures) {
            return Err(
                String::from_str("persisted fault counters do not cover the canonical fault set"),
            );
        }
        let outcomes: u64 = match self.successful_campaigns.checked_add(self.failed_campaigns) {
            Some(outcomes) => outcomes,
            None => {
                return Err(String::from_str("persisted campaign counters overflow"));
            },
        };
        if self.round != self.campaigns || self.campaigns != outcomes {
            let mut message = String::from_str("persisted campaign counters disagree: round=");
            message.append(decimal(self.round).as_str());
            message.append(", campaigns=");
            message.append(decimal(self.campaigns).as_str());
            message.append(", successes=");
            message.append(decimal(self.successful_campaigns).as_str());
            message.append(", failures=");
            message.append(decimal(self.failed_campaigns).as_str());
            return Err(message);
        }
        let pending: u64 = if self.recovery_pending {
            1
        } else {
            0
        };
        let accounted_failures: u64 = match self.recoveries.checked_add(pending) {
            Some(accounted) => accounted,
            None => {
                return Err(String::from_str("persisted recovery counters overflow"));
            },
        };
        if self.consecutive_failures > self.failed_campaigns || accounted_failures
            != self.failed_campaigns {
            return Err(
                String::from_str("persisted failure and recovery counters are impossible"),
            );
        }
        self.validate_aggregates()?;
        self.validate_versions()
    }

    fn validate_aggregates(&self) -> (result: Result<(), String>)
        ensures
            ({
                let state = self@;
                let expected: Option<Seq<char>> = if count_total(state.faults) > u64::MAX {
                    Some("persisted fault counters overflow"@)
                } else if count_total(state.fault_failures) > u64::MAX {
                    Some("persisted fault failure counters overflow"@)
                } else if state.campaigns + state.forward_recoveries > u64::MAX {
                    Some("persisted release assignment event bound overflow"@)
                } else if (state.campaigns + state.forward_recoveries) * 3 > u64::MAX {
                    Some("persisted release assignment bound overflow"@)
                } else if state.forward_recoveries * 3 + state.successful_campaigns > u64::MAX {
                    Some("persisted minimum release assignment bound overflow"@)
                } else if !aggregates_possible(state) {
                    Some("persisted campaign aggregate counters are impossible"@)
                } else if !times_possible(state) {
                    Some("persisted campaign timestamps or convergence duration are impossible"@)
                } else {
                    None
                };
                match result {
                    Ok(_) => expected is None,
                    Err(message) => expected == Some(message@),
                }
            }),
    {
        let total_faults: u64 = match sum_of_counts(&self.faults) {
            Some(total) => total,
            None => {
                return Err(String::from_str("persisted fault counters overflow"));
            },
        };
        let total_fault_failures: u64 = match sum_of_counts(&self.fault_failures) {
            Some(total) => total,
            None => {
                return Err(String::from_str("persisted fault failure counters overflow"));
            },
        };
        let maximum_events: u64 = match self.campaigns.checked_add(self.forward_recoveries) {
            Some(events) => events,
            None => {
                return Err(String::from_str("persisted release assignment event bound overflow"));
            },
        };
        let maximum_assignments: u64 = match maximum_events.checked_mul(3) {
            Some(assignments) => assignments,
            None => {
                return Err(String::from_str("persisted release assignment bound overflow"));
            },
        };
        let recovery_assignments: u64 = match self.forward_recoveries.checked_mul(3) {
            Some(assignments) => assignments,
            None => {
                return Err(
                    String::from_str("persisted minimum release assignment bound overflow"),
                );
            },
        };
        let minimum_assignments: u64 = match recovery_assignments.checked_add(
            self.successful_campaigns,
        ) {
            Some(assignments) => assignments,
            None => {
                return Err(
                    String::from_str("persisted minimum release assignment bound overflow"),
                );
            },
        };
        if total_faults < self.successful_campaigns || total_faults > self.campaigns
            || total_fault_failures > self.failed_campaigns || self.expected_rejections > self.round
            / 10 || self.release_generation < self.campaigns || self.forward_recoveries
            > self.release_generation || self.forward_recoveries < self.recoveries
            || self.release_assignments < minimum_assignments || self.release_assignments
            > maximum_assignments {
            return Err(String::from_str("persisted campaign aggregate counters are impossible"));
        }
        if (self.successful_campaigns == 0) != (self.last_success_timestamp == 0) || (
        self.failed_campaigns == 0) != (self.last_failure_timestamp == 0)
            || self.last_convergence_bits >= 0x7FF0_0000_0000_0000 {
            return Err(
                String::from_str(
                    "persisted campaign timestamps or convergence duration are impossible",
                ),
            );
        }
        Ok(())
    }

    fn validate_versions(&self) -> (result: Result<(), String>)
        ensures
            ({
                let expected = match desired_error(self@, self@.desired.len() as int) {
                    Some(message) => Some(message),
                    None => target_error(self@),
                };
                match result {
                    Ok(_) => expected is None,
                    Err(message) => expected == Some(message@),
                }
            }),
    {
        let mut index: usize = 0;
        while index < self.desired.len()
            invariant
                index <= self.desired.len(),
                desired_error(self@, index as int) is None,
            decreases self.desired.len() - index,
        {
            let ghost state = self@;
            assert(state.desired[index as int].1 == self.desired@[index as int].version@);
            match validate_stable_version(
                self.desired[index].version.as_str(),
                self.release_generation,
            ) {
                Ok(_) => {},
                Err(message) => {
                    proof {
                        assert(desired_error(state, index + 1) == Some(message@));
                        lemma_error_stays(state, index + 1, state.desired.len() as int);
                    }
                    return Err(message);
                },
            }
            index = index + 1;
        }
        match &self.recovery_target {
            None => Ok(()),
            Some(target) => match validate_stable_version(target.as_str(), self.release_generation) {
                Err(message) => Err(message),
                Ok(version) => if version.minor != self.release_generation {
                    Err(
                        String::from_str(
                            "persisted recovery target is not the latest allocated release",
                        ),
                    )
                } else {
                    Ok(())
                },
            },
        }
    }
}

proof fn lemma_error_stays(state: CampaignView, count: int, later: int)
    requires
        0 <= count <= later,
        desired_error(state, count) is Some,
    ensures
        desired_error(state, later) == desired_error(state, count),
    decreases later,
{
    if later > count {
        lemma_error_stays(state, count, later - 1);
    }
}

fn copy_desired(items: &Vec<GroupVersion>) -> (result: Vec<GroupVersion>)
    ensures
        desired_view(result@) == desired_view(items@),
{
    let mut result: Vec<GroupVersion> = Vec::new();
    let mut index: usize = 0;
    while index < items.len()
        invariant
            index <= items.len(),
            result@.len() == index,
            forall|i: int| 0 <= i < index ==> (#[trigger] result@[i]).group@ == items@[i].group@
                && result@[i].version@ == items@[i].version@,
        decreases items.len() - index,
    {
        result.push(
            GroupVersion {
                group: items[index].group.clone(),
                version: items[index].version.clone(),
            },
        );
        index = index + 1;
    }
    assert(desired_view(result@) =~= desired_view(items@));
    result
}

fn copy_counts(items: &Vec<FaultCount>) -> (result: Vec<FaultCount>)
    ensures
        counts_view(result@) == counts_view(items@),
{
    let mut result: Vec<FaultCount> = Vec::new();
    let mut index: usize = 0;
    while index < items.len()
        invariant
            index <= items.len(),
            result@.len() == index,
            forall|i: int| 0 <= i < index ==> #[trigger] result@[i] == items@[i],
        decreases items.len() - index,
    {
        result.push(FaultCount { kind: items[index].kind, count: items[index].count });
        index = index + 1;
    }
    assert(counts_view(result@) =~= counts_view(items@));
    result
}

impl CampaignState {
    /// A state that says the same.
    pub fn copied(&self) -> (result: CampaignState)
        ensures
            result@ == self@,
    {
        CampaignState {
            schema: self.schema,
            seed: self.seed,
            round: self.round,
            release_generation: self.release_generation,
            recovery_target: copied_text(&self.recovery_target),
            desired: copy_desired(&self.desired),
            campaigns: self.campaigns,
            successful_campaigns: self.successful_campaigns,
            failed_campaigns: self.failed_campaigns,
            release_assignments: self.release_assignments,
            expected_rejections: self.expected_rejections,
            recoveries: self.recoveries,
            forward_recoveries: self.forward_recoveries,
            recovery_pending: self.recovery_pending,
            consecutive_failures: self.consecutive_failures,
            faults: copy_counts(&self.faults),
            fault_failures: copy_counts(&self.fault_failures),
            last_success_timestamp: self.last_success_timestamp,
            last_failure_timestamp: self.last_failure_timestamp,
            last_convergence_bits: self.last_convergence_bits,
        }
    }
}

} // verus!
