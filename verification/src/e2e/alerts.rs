//! The verdict on a regression: that it is on record, and that it was told.

use crate::e2e::layout::{
    cohort_group, cohort_group_text, cohort_set_index, set_name, set_name_text,
    versioned_deployment_name, ALERT_RECORD, GROUPS_PER_SET, NAMESPACE,
};
use crate::json::{
    json_rewritten, member, member_of, parse_json, parsed_json, rewrite_json, said, said_of,
    text_in, text_of, Json, JsonView,
};
use crate::text::{
    decimal, decimal_digits, has_prefix, holds, join, joined, lines, lines_of, listed, same,
    starts_with, view_of, views,
};
use vstd::prelude::*;

verus! {

// ----- deliveries -----

/// The arguments that read what the receiver of the alerts has recorded.
pub fn delivered_args() -> (result: Vec<String>)
    ensures
        views(result@) == seq![
            "-n"@,
            NAMESPACE@,
            "exec"@,
            "deployment/alert-sink"@,
            "--"@,
            "cat"@,
            ALERT_RECORD@,
        ],
{
    listed(
        vec!["-n", NAMESPACE, "exec", "deployment/alert-sink", "--", "cat", ALERT_RECORD],
    )
}

/// An alert that was delivered: what it says, and how it is shown.
pub struct Alert {
    pub document: Json,
    pub shown: String,
}

/// An alert that was delivered.
pub struct AlertView {
    pub document: JsonView,
    pub shown: Seq<char>,
}

/// The alert that a line is, where it is JSON.
pub open spec fn alert_in(row: Seq<char>) -> Option<AlertView> {
    match parsed_json(row) {
        Ok(document) => Some(AlertView { document, shown: json_rewritten(row) }),
        Err(_) => None,
    }
}

/// The lines that are JSON, as alerts.
pub open spec fn alerts_in(rows: Seq<Seq<char>>) -> Seq<AlertView>
    decreases rows.len(),
{
    if rows.len() == 0 {
        Seq::empty()
    } else {
        match alert_in(rows.last()) {
            Some(alert) => alerts_in(rows.drop_last()).push(alert),
            None => alerts_in(rows.drop_last()),
        }
    }
}

/// The alerts that were delivered, oldest first; none where the record could not be read.
pub open spec fn deliveries(record: Option<Seq<char>>) -> Seq<AlertView> {
    match record {
        Some(text) => alerts_in(lines_of(text)),
        None => Seq::empty(),
    }
}

/// An alert as what it says and how it is shown.
pub open spec fn alert_view(alert: Alert) -> AlertView {
    AlertView { document: said(alert.document), shown: alert.shown@ }
}

/// Some alerts as what they say and how they are shown.
pub open spec fn alert_views(alerts: Seq<Alert>) -> Seq<AlertView> {
    Seq::new(alerts.len(), |i: int| alert_view(alerts[i]))
}

/// The alerts that were delivered, oldest first; none where the record could not be read.
pub fn delivered_alerts(record: &Option<String>) -> (result: Vec<Alert>)
    ensures
        alert_views(result@) == deliveries(view_of(*record)),
{
    let mut result: Vec<Alert> = Vec::new();
    let text = match record {
        Some(text) => text,
        None => {
            assert(alert_views(result@) =~= Seq::<AlertView>::empty());
            return result;
        },
    };
    let rows = lines(text.as_str());
    let ghost all = lines_of(text@);
    let mut index: usize = 0;
    assert(views(rows@) == all && rows@.len() == views(rows@).len());
    assert(alert_views(result@) =~= alerts_in(all.take(0)));
    while index < rows.len()
        invariant
            index <= rows.len(),
            views(rows@) == all,
            rows@.len() == all.len(),
            alert_views(result@) == alerts_in(all.take(index as int)),
        decreases rows.len() - index,
    {
        assert(all.take(index + 1).drop_last() =~= all.take(index as int));
        assert(views(rows@)[index as int] == rows@[index as int]@);
        assert(all.take(index + 1).last() == rows@[index as int]@);
        match parse_json(rows[index].as_str()) {
            Ok(document) => {
                let ghost before = result@;
                let alert = Alert { document, shown: rewrite_json(rows[index].as_str()) };
                result.push(alert);
                assert(alert_views(result@) =~= alert_views(before).push(alert_view(alert)));
            },
            Err(_) => {},
        }
        index = index + 1;
    }
    assert(all.take(rows.len() as int) =~= all);
    result
}

// ----- the verdict -----

/// Whether an alert says that a deployment was halted.
pub open spec fn tells_of_halt(alert: JsonView) -> bool {
    text_in(member_of(alert, "condition"@)) == Some("DeploymentHalted"@) && text_in(
        member_of(alert, "state"@),
    ) == Some("True"@)
}

/// The first alert from an index on that says that a deployment was halted; as many as there are
/// where none does.
pub open spec fn first_telling(alerts: Seq<AlertView>, from: int) -> int
    decreases alerts.len() - from,
{
    if from >= alerts.len() || from < 0 {
        alerts.len() as int
    } else if tells_of_halt(alerts[from].document) {
        from
    } else {
        first_telling(alerts, from + 1)
    }
}

fn says(json: Option<&Json>, text: &str) -> (result: bool)
    ensures
        result == (text_in(said_of(json)) == Some(text@)),
{
    match text_of(json) {
        Some(found) => same(found, text),
        None => false,
    }
}

/// How many alerts say that a deployment was halted.
pub open spec fn telling_count(alerts: Seq<AlertView>) -> nat
    decreases alerts.len(),
{
    if alerts.len() == 0 {
        0
    } else if tells_of_halt(alerts.last().document) {
        telling_count(alerts.drop_last()) + 1
    } else {
        telling_count(alerts.drop_last())
    }
}

fn is_telling(alert: &Alert) -> (result: bool)
    ensures
        result == tells_of_halt(alert_view(*alert).document),
{
    let document = Some(&alert.document);
    says(member(document, "condition"), "DeploymentHalted") && says(
        member(document, "state"),
        "True",
    )
}

fn find_telling(alerts: &Vec<Alert>) -> (result: usize)
    ensures
        result == first_telling(alert_views(alerts@), 0),
        result <= alerts@.len(),
{
    let ghost all = alert_views(alerts@);
    let mut index: usize = 0;
    while index < alerts.len()
        invariant
            index <= alerts.len(),
            all == alert_views(alerts@),
            first_telling(all, 0) == first_telling(all, index as int),
        decreases alerts.len() - index,
    {
        assert(all[index as int] == alert_view(alerts@[index as int]));
        if is_telling(&alerts[index]) {
            return index;
        }
        index = index + 1;
    }
    index
}

fn count_telling(alerts: &Vec<Alert>) -> (result: usize)
    ensures
        result == telling_count(alert_views(alerts@)),
{
    let ghost all = alert_views(alerts@);
    let mut count: usize = 0;
    let mut index: usize = 0;
    assert(all.take(0).len() == 0);
    while index < alerts.len()
        invariant
            index <= alerts.len(),
            all == alert_views(alerts@),
            count <= index,
            count == telling_count(all.take(index as int)),
        decreases alerts.len() - index,
    {
        assert(all.take(index + 1).drop_last() =~= all.take(index as int));
        assert(all.take(index + 1).last() == alert_view(alerts@[index as int]));
        if is_telling(&alerts[index]) {
            count = count + 1;
        }
        index = index + 1;
    }
    assert(all.take(alerts.len() as int) =~= all);
    count
}

/// The fields that every alert has.
pub open spec fn alert_fields() -> Seq<Seq<char>> {
    seq!["resource"@, "condition"@, "state"@, "reason"@, "evidence"@, "timestamp"@]
}

fn alert_field(index: usize) -> (result: &'static str)
    requires
        index < 6,
    ensures
        result@ == alert_fields()[index as int],
{
    if index == 0 {
        "resource"
    } else if index == 1 {
        "condition"
    } else if index == 2 {
        "state"
    } else if index == 3 {
        "reason"
    } else if index == 4 {
        "evidence"
    } else {
        "timestamp"
    }
}

/// The first field from an index on that an alert lacks; as many as there are where it has all.
pub open spec fn first_lacking(alert: JsonView, from: int) -> int
    decreases 6 - from,
{
    if from >= 6 || from < 0 {
        6
    } else if text_in(member_of(alert, alert_fields()[from])) is None {
        from
    } else {
        first_lacking(alert, from + 1)
    }
}

fn find_lacking(alert: &Json) -> (result: usize)
    ensures
        result == first_lacking(said(*alert), 0),
        result <= 6,
{
    let mut index: usize = 0;
    while index < 6
        invariant
            index <= 6,
            first_lacking(said(*alert), 0) == first_lacking(said(*alert), index as int),
        decreases 6 - index,
    {
        if text_of(member(Some(alert), alert_field(index))).is_none() {
            return index;
        }
        index = index + 1;
    }
    index
}

/// Whether a resource is one that can be halted.
pub open spec fn can_halt(resource: Seq<char>) -> bool {
    has_prefix(resource, "UpdateGroupSet/"@) || has_prefix(resource, "UpdateGroup/"@)
}

/// What was read of a broken cohort: the deployments that its set has halted, and the status of its
/// group's condition.
pub struct HaltRecord {
    pub cohort: usize,
    pub halted: Vec<String>,
    pub condition: Option<String>,
}

/// What a cohort's records still lack, if they lack anything: its set must list the deployment as
/// halted, and its group must say so too.
pub open spec fn halt_pending(record: HaltRecord, version: Seq<char>) -> Option<Seq<char>> {
    let group = cohort_group_text(record.cohort as nat);
    let set = set_name_text((record.cohort / GROUPS_PER_SET) as nat);
    let deployment = group + "-"@ + version;
    if !views(record.halted@).contains(deployment) {
        Some(set + ".status.halted lacks "@ + deployment)
    } else if view_of(record.condition) != Some("True"@) {
        Some(group + "/DeploymentHalted is not True"@)
    } else {
        None
    }
}

fn check_halt(record: &HaltRecord, version: &str) -> (result: Option<String>)
    ensures
        view_of(result) == halt_pending(*record, version@),
{
    let group = cohort_group(record.cohort);
    let deployment = versioned_deployment_name(group.as_str(), version);
    if !holds(&record.halted, deployment.as_str()) {
        let mut text = set_name(cohort_set_index(record.cohort));
        text.append(".status.halted lacks ");
        text.append(deployment.as_str());
        return Some(text);
    }
    let published = match &record.condition {
        Some(status) => same(status.as_str(), "True"),
        None => false,
    };
    if !published {
        let mut text = group;
        text.append("/DeploymentHalted is not True");
        return Some(text);
    }
    None
}

/// What the records of some cohorts still lack.
pub open spec fn halts_pending(records: Seq<HaltRecord>, version: Seq<char>) -> Seq<Seq<char>>
    decreases records.len(),
{
    if records.len() == 0 {
        Seq::empty()
    } else {
        match halt_pending(records.last(), version) {
            Some(text) => halts_pending(records.drop_last(), version).push(text),
            None => halts_pending(records.drop_last(), version),
        }
    }
}

fn list_pending(records: &Vec<HaltRecord>, version: &str) -> (result: Vec<String>)
    ensures
        views(result@) == halts_pending(records@, version@),
{
    let mut result: Vec<String> = Vec::new();
    let mut index: usize = 0;
    assert(views(result@) =~= halts_pending(records@.take(0), version@));
    while index < records.len()
        invariant
            index <= records.len(),
            views(result@) == halts_pending(records@.take(index as int), version@),
        decreases records.len() - index,
    {
        assert(records@.take(index + 1).drop_last() =~= records@.take(index as int));
        assert(records@.take(index + 1).last() == records@[index as int]);
        match check_halt(&records[index], version) {
            Some(text) => {
                let ghost before = result@;
                result.push(text);
                assert(views(result@) =~= views(before).push(text@));
            },
            None => {},
        }
        index = index + 1;
    }
    assert(records@.take(records.len() as int) =~= records@);
    result
}

/// What the records and the deliveries come to.
pub enum HaltVerdict {
    /// The halt is on record everywhere, and this alert told of it first; in words.
    Told(usize, String),
    /// An alert told of it that is not as an alert should be; in words.
    Faulty(String),
    /// Something is still missing.
    Pending(String),
}

/// How long the records and the deliveries are waited for, in seconds.
pub const HALT_TIMEOUT_SECS: usize = 120;

/// What an alert says in a field; nothing where it has no such text.
pub open spec fn alert_text(alert: JsonView, field: Seq<char>) -> Seq<char> {
    match text_in(member_of(alert, field)) {
        Some(text) => text,
        None => Seq::empty(),
    }
}

fn use_alert_text(alert: &Json, field: &str) -> (result: String)
    ensures
        result@ == alert_text(said(*alert), field@),
{
    match text_of(member(Some(alert), field)) {
        Some(text) => text.to_owned(),
        None => {
            let empty = String::new();
            assert(empty@ =~= Seq::<char>::empty());
            empty
        },
    }
}

/// The notice of a halt that was told.
pub open spec fn told_notice(version: Seq<char>, alerts: Seq<AlertView>, told: int) -> Seq<char> {
    "regression halt on "@ + version
        + " is published on every affected set and group, and "@ + decimal_digits(
        telling_count(alerts),
    ) + " DeploymentHalted alert(s) were delivered to the webhook (e.g. "@ + alert_text(
        alerts[told].document,
        "resource"@,
    ) + ": "@ + alert_text(alerts[told].document, "evidence"@) + ")"@
}

fn write_told_notice(version: &str, alerts: &Vec<Alert>, told: usize) -> (result: String)
    requires
        told < alerts@.len(),
    ensures
        result@ == told_notice(version@, alert_views(alerts@), told as int),
{
    assert(alert_views(alerts@)[told as int] == alert_view(alerts@[told as int]));
    let count: usize = count_telling(alerts);
    let mut notice = String::from_str("regression halt on ");
    notice.append(version);
    notice.append(" is published on every affected set and group, and ");
    notice.append(decimal(count as u64).as_str());
    notice.append(" DeploymentHalted alert(s) were delivered to the webhook (e.g. ");
    notice.append(use_alert_text(&alerts[told].document, "resource").as_str());
    notice.append(": ");
    notice.append(use_alert_text(&alerts[told].document, "evidence").as_str());
    notice.append(")");
    notice
}

/// What is wrong with an alert, if anything is.
pub open spec fn alert_fault(alert: AlertView) -> Option<Seq<char>> {
    let lacking = first_lacking(alert.document, 0);
    if lacking < 6 {
        Some(
            "the delivered alert is missing "@ + alert_fields()[lacking] + ": "@ + alert.shown,
        )
    } else if !can_halt(alert_text(alert.document, "resource"@)) {
        Some("the delivered alert names no known resource: "@ + alert.shown)
    } else {
        None
    }
}

fn find_alert_fault(alert: &Alert) -> (result: Option<String>)
    ensures
        view_of(result) == alert_fault(alert_view(*alert)),
{
    let lacking = find_lacking(&alert.document);
    if lacking < 6 {
        let mut message = String::from_str("the delivered alert is missing ");
        message.append(alert_field(lacking));
        message.append(": ");
        message.append(alert.shown.as_str());
        return Some(message);
    }
    let resource = use_alert_text(&alert.document, "resource");
    if starts_with(resource.as_str(), "UpdateGroupSet/") || starts_with(
        resource.as_str(),
        "UpdateGroup/",
    ) {
        None
    } else {
        let mut message = String::from_str("the delivered alert names no known resource: ");
        message.append(alert.shown.as_str());
        Some(message)
    }
}

/// Whether a verdict is that on some records and deliveries.
pub open spec fn is_halt_verdict(
    verdict: HaltVerdict,
    records: Seq<HaltRecord>,
    version: Seq<char>,
    alerts: Seq<AlertView>,
) -> bool {
    let pending = halts_pending(records, version);
    let telling = first_telling(alerts, 0);
    if pending.len() > 0 {
        verdict is Pending && verdict->Pending_0@ == joined(pending, "; "@)
    } else if telling == alerts.len() {
        verdict is Pending && verdict->Pending_0@
            == "no DeploymentHalted alert has been delivered to the webhook receiver"@
    } else {
        match alert_fault(alerts[telling]) {
            Some(fault) => verdict is Faulty && verdict->Faulty_0@ == fault,
            None => verdict is Told && verdict->Told_0 == telling && verdict->Told_1@
                == told_notice(version, alerts, telling),
        }
    }
}

/// Whether the halt of a version's deployments is on record and was told.
pub fn judge_halt(records: &Vec<HaltRecord>, version: &str, alerts: &Vec<Alert>) -> (result:
    HaltVerdict)
    ensures
        is_halt_verdict(result, records@, version@, alert_views(alerts@)),
{
    let ghost all = alert_views(alerts@);
    let pending = list_pending(records, version);
    assert(views(pending@).len() == pending@.len());
    if pending.len() > 0 {
        return HaltVerdict::Pending(join(&pending, "; "));
    }
    let telling = find_telling(alerts);
    assert(all.len() == alerts@.len());
    if telling == alerts.len() {
        return HaltVerdict::Pending(
            String::from_str(
                "no DeploymentHalted alert has been delivered to the webhook receiver",
            ),
        );
    }
    assert(all[telling as int] == alert_view(alerts@[telling as int]));
    match find_alert_fault(&alerts[telling]) {
        Some(fault) => HaltVerdict::Faulty(fault),
        None => HaltVerdict::Told(telling, write_told_notice(version, alerts, telling)),
    }
}

proof fn lemma_pending_covers(records: Seq<HaltRecord>, version: Seq<char>, index: int)
    requires
        0 <= index < records.len(),
        halts_pending(records, version).len() == 0,
    ensures
        halt_pending(records[index], version) is None,
    decreases records.len(),
{
    if index < records.len() - 1 {
        lemma_pending_covers(records.drop_last(), version, index);
    }
}

proof fn lemma_first_telling(alerts: Seq<AlertView>, from: int)
    requires
        0 <= from <= alerts.len(),
    ensures
        from <= first_telling(alerts, from) <= alerts.len(),
        first_telling(alerts, from) < alerts.len() ==> tells_of_halt(
            alerts[first_telling(alerts, from)].document,
        ),
    decreases alerts.len() - from,
{
    if from < alerts.len() && !tells_of_halt(alerts[from].document) {
        lemma_first_telling(alerts, from + 1);
    }
}

/// A halt counts as told only where every cohort's set and group have it on record and an alert
/// about it was delivered: neither half passes for the other.
pub proof fn a_told_halt_is_on_record(
    verdict: HaltVerdict,
    records: Seq<HaltRecord>,
    version: Seq<char>,
    alerts: Seq<AlertView>,
    index: int,
)
    requires
        is_halt_verdict(verdict, records, version, alerts),
        verdict is Told,
        0 <= index < records.len(),
    ensures
        halt_pending(records[index], version) is None,
        0 <= verdict->Told_0 < alerts.len(),
        tells_of_halt(alerts[verdict->Told_0 as int].document),
        alert_fault(alerts[verdict->Told_0 as int]) is None,
{
    lemma_pending_covers(records, version, index);
    lemma_first_telling(alerts, 0);
}

/// The message about a halt that was never told.
pub fn untold_message(last: &str) -> (result: String)
    ensures
        result@ == "the regression halt never reached its records or its webhook: "@ + last@,
{
    let mut message = String::from_str(
        "the regression halt never reached its records or its webhook: ",
    );
    message.append(last);
    message
}

/// What was recorded comes out line by line: a line that is JSON is an alert, at its place, and one that
/// is not is passed over.
pub proof fn every_json_line_is_an_alert(rows: Seq<Seq<char>>, row: Seq<char>)
    ensures
        alerts_in(Seq::<Seq<char>>::empty()).len() == 0,
        parsed_json(row) is Ok ==> alerts_in(rows.push(row)).len() == alerts_in(rows).len() + 1
            && alerts_in(rows.push(row)).last().document == parsed_json(row)->Ok_0
            && alerts_in(rows.push(row)).last().shown == json_rewritten(row)
            && alerts_in(rows.push(row)).drop_last() == alerts_in(rows),
        parsed_json(row) is Err ==> alerts_in(rows.push(row)) == alerts_in(rows),
{
    assert(rows.push(row).drop_last() =~= rows);
    if parsed_json(row) is Ok {
        assert(alerts_in(rows.push(row)).drop_last() =~= alerts_in(rows));
    }
}

proof fn lemma_pending_each(records: Seq<HaltRecord>, version: Seq<char>)
    requires
        forall|i: int| 0 <= i < records.len() ==> halt_pending(#[trigger] records[i], version) is None,
    ensures
        halts_pending(records, version).len() == 0,
    decreases records.len(),
{
    if records.len() > 0 {
        assert(records.last() == records[records.len() - 1]);
        assert forall|i: int| 0 <= i < records.drop_last().len() implies halt_pending(
            #[trigger] records.drop_last()[i],
            version,
        ) is None by {
            assert(records.drop_last()[i] == records[i]);
        }
        lemma_pending_each(records.drop_last(), version);
    }
}

proof fn lemma_none_told_before(alerts: Seq<AlertView>, from: int, index: int)
    requires
        0 <= from <= index < first_telling(alerts, from),
        from <= alerts.len(),
    ensures
        !tells_of_halt(alerts[index].document),
    decreases alerts.len() - from,
{
    if from < alerts.len() && !tells_of_halt(alerts[from].document) && from < index {
        lemma_none_told_before(alerts, from + 1, index);
    }
}

proof fn lemma_lacking(alert: JsonView, from: int)
    requires
        0 <= from <= 6,
    ensures
        from <= first_lacking(alert, from) <= 6,
        first_lacking(alert, from) < 6 ==> text_in(
            member_of(alert, alert_fields()[first_lacking(alert, from)]),
        ) is None,
        forall|i: int|
            from <= i < first_lacking(alert, from) ==> text_in(
                member_of(alert, #[trigger] alert_fields()[i]),
            ) is Some,
    decreases 6 - from,
{
    if from < 6 && text_in(member_of(alert, alert_fields()[from])) is Some {
        lemma_lacking(alert, from + 1);
    }
}

/// An alert is as it should be exactly when it says a resource, a condition, a state, a reason, its
/// evidence and a time, each in text, and the resource is a group or a set of groups.
pub proof fn alerts_say_six_things(alert: AlertView)
    ensures
        alert_fault(alert) is None <==> {
            &&& text_in(member_of(alert.document, "resource"@)) is Some
            &&& text_in(member_of(alert.document, "condition"@)) is Some
            &&& text_in(member_of(alert.document, "state"@)) is Some
            &&& text_in(member_of(alert.document, "reason"@)) is Some
            &&& text_in(member_of(alert.document, "evidence"@)) is Some
            &&& text_in(member_of(alert.document, "timestamp"@)) is Some
            &&& {
                ||| has_prefix(
                    text_in(member_of(alert.document, "resource"@))->Some_0,
                    "UpdateGroupSet/"@,
                )
                ||| has_prefix(
                    text_in(member_of(alert.document, "resource"@))->Some_0,
                    "UpdateGroup/"@,
                )
            }
        },
{
    let all = alert_fields();
    lemma_lacking(alert.document, 0);
    assert(all[0] == "resource"@ && all[1] == "condition"@ && all[2] == "state"@ && all[3]
        == "reason"@ && all[4] == "evidence"@ && all[5] == "timestamp"@);
}

/// A cohort's records lack nothing exactly when its set lists its deployment of the version as halted and
/// its group's condition is true.
pub proof fn halts_are_recorded_twice(record: HaltRecord, version: Seq<char>)
    ensures
        halt_pending(record, version) is None <==> view_of(record.condition) == Some("True"@) && exists|
            i: int,
        |
            0 <= i < record.halted@.len() && (#[trigger] record.halted@[i])@ == cohort_group_text(
                record.cohort as nat,
            ) + "-"@ + version,
{
    let deployment = cohort_group_text(record.cohort as nat) + "-"@ + version;
    if views(record.halted@).contains(deployment) {
        let i = choose|i: int|
            0 <= i < views(record.halted@).len() && views(record.halted@)[i] == deployment;
        assert(record.halted@[i]@ == deployment);
    }
    if exists|i: int| 0 <= i < record.halted@.len() && (#[trigger] record.halted@[i])@ == deployment {
        let i = choose|i: int|
            0 <= i < record.halted@.len() && (#[trigger] record.halted@[i])@ == deployment;
        assert(views(record.halted@)[i] == deployment);
    }
}

/// A halt counts as told exactly when every cohort has it on record and the first alert that says
/// `DeploymentHalted` with the state `True` is as an alert should be; it is that alert that counts. Where
/// records are lacking or no such alert came, the halt is still pending.
pub proof fn a_halt_is_told_by_the_first_alert_about_it(
    verdict: HaltVerdict,
    records: Seq<HaltRecord>,
    version: Seq<char>,
    alerts: Seq<AlertView>,
    index: int,
)
    requires
        is_halt_verdict(verdict, records, version, alerts),
        0 <= index < alerts.len(),
        text_in(member_of(alerts[index].document, "condition"@)) == Some("DeploymentHalted"@),
        text_in(member_of(alerts[index].document, "state"@)) == Some("True"@),
        forall|i: int|
            0 <= i < index ==> text_in(member_of((#[trigger] alerts[i]).document, "condition"@))
                != Some("DeploymentHalted"@) || text_in(member_of(alerts[i].document, "state"@)) != Some(
                "True"@,
            ),
    ensures
        verdict is Pending <==> exists|i: int|
            0 <= i < records.len() && halt_pending(#[trigger] records[i], version) is Some,
        verdict is Told ==> verdict->Told_0 == index,
        !(verdict is Pending) ==> (verdict is Told <==> alert_fault(alerts[index]) is None),
{
    lemma_first_telling(alerts, 0);
    let telling = first_telling(alerts, 0);
    if telling < index {
        assert(tells_of_halt(alerts[telling].document));
    } else if telling > index {
        lemma_none_told_before(alerts, 0, index);
    }
    if forall|i: int| 0 <= i < records.len() ==> halt_pending(#[trigger] records[i], version) is None {
        lemma_pending_each(records, version);
    }
    if halts_pending(records, version).len() == 0 {
        assert forall|i: int| 0 <= i < records.len() implies halt_pending(
            #[trigger] records[i],
            version,
        ) is None by {
            lemma_pending_covers(records, version, i);
        }
    }
}

/// Without an alert that says `DeploymentHalted` with the state `True`, a halt is pending.
pub proof fn a_halt_that_no_alert_tells_of_is_pending(
    verdict: HaltVerdict,
    records: Seq<HaltRecord>,
    version: Seq<char>,
    alerts: Seq<AlertView>,
)
    requires
        is_halt_verdict(verdict, records, version, alerts),
        forall|i: int|
            0 <= i < alerts.len() ==> text_in(
                member_of((#[trigger] alerts[i]).document, "condition"@),
            ) != Some("DeploymentHalted"@) || text_in(member_of(alerts[i].document, "state"@)) != Some(
                "True"@,
            ),
    ensures
        verdict is Pending,
{
    lemma_first_telling(alerts, 0);
}

/// As many alerts count as telling of a halt as say `DeploymentHalted` with the state `True`.
pub proof fn telling_alerts_are_counted(alerts: Seq<AlertView>, alert: AlertView)
    ensures
        telling_count(Seq::<AlertView>::empty()) == 0,
        telling_count(alerts.push(alert)) == telling_count(alerts) + (if text_in(
            member_of(alert.document, "condition"@),
        ) == Some("DeploymentHalted"@) && text_in(member_of(alert.document, "state"@)) == Some("True"@) {
            1nat
        } else {
            0nat
        }),
{
    assert(alerts.push(alert).drop_last() =~= alerts);
}

} // verus!
