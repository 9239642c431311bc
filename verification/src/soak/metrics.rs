//! The metrics of a soak campaign, and the server that exposes them.

use crate::encoding::read_utf8;
use crate::http::{blank_line, find_blank_line, is_reply, Reply};
use crate::soak::faults::{every_fault, fault_metric_name, FaultKind};
use crate::soak::state::{counted_kinds, CampaignState, CampaignView};
use crate::text::{
    decimal, decimal_digits, lines, lines_of, same, signed_decimal, signed_digits, views, words,
    words_of,
};
use vstd::prelude::*;
use vstd::string::*;
use vstd::utf8::{decode_utf8, encode_utf8, valid_utf8};

verus! {

/// The port that the metrics are served on.
pub const METRICS_PORT: u16 = 9091;

/// About the longest request that is read.
pub const METRICS_MAX_REQUEST: usize = 8192;

/// The most bytes that a persisted state may have.
pub const CAMPAIGN_STATE_MAX_BYTES: usize = 65536;

/// What the metrics of a campaign are taken from.
pub struct Metrics {
    pub started_timestamp: i64,
    pub bootstrap_ready: bool,
    pub campaign_healthy: bool,
    pub round_seed: u64,
    pub state: CampaignState,
    pub fleet_expected_nodes: usize,
    pub fleet_converged_nodes: usize,
    pub active_fault: Option<FaultKind>,
}

/// What the metrics of a campaign are taken from.
#[verifier::ext_equal]
pub struct MetricsView {
    pub started_timestamp: i64,
    pub bootstrap_ready: bool,
    pub campaign_healthy: bool,
    pub round_seed: u64,
    pub state: CampaignView,
    pub fleet_expected_nodes: usize,
    pub fleet_converged_nodes: usize,
    pub active_fault: Option<FaultKind>,
}

impl View for Metrics {
    type V = MetricsView;

    open spec fn view(&self) -> MetricsView {
        MetricsView {
            started_timestamp: self.started_timestamp,
            bootstrap_ready: self.bootstrap_ready,
            campaign_healthy: self.campaign_healthy,
            round_seed: self.round_seed,
            state: self.state@,
            fleet_expected_nodes: self.fleet_expected_nodes,
            fleet_converged_nodes: self.fleet_converged_nodes,
            active_fault: self.active_fault,
        }
    }
}

/// A number for a flag.
pub open spec fn flag_digit(flag: bool) -> Seq<char> {
    if flag {
        "1"@
    } else {
        "0"@
    }
}

fn write_flag(flag: bool) -> (result: String)
    ensures
        result@ == flag_digit(flag),
{
    if flag {
        "1".to_owned()
    } else {
        "0".to_owned()
    }
}

/// The samples that do not belong to one fault. `convergence` is the text of the last convergence
/// duration in seconds.
pub open spec fn plain_samples(metrics: MetricsView, convergence: Seq<char>) -> Seq<
    (Seq<char>, Seq<char>),
> {
    let state = metrics.state;
    seq![
        (
            "updatec_soak_started_timestamp_seconds"@,
            signed_digits(metrics.started_timestamp as int),
        ),
        ("updatec_soak_bootstrap_ready"@, flag_digit(metrics.bootstrap_ready)),
        ("updatec_soak_campaign_healthy"@, flag_digit(metrics.campaign_healthy)),
        ("updatec_soak_round"@, decimal_digits(state.round as nat)),
        (
            "updatec_soak_release_generation"@,
            decimal_digits(state.release_generation as nat),
        ),
        ("updatec_soak_round_seed"@, decimal_digits(metrics.round_seed as nat)),
        ("updatec_soak_campaigns_total"@, decimal_digits(state.campaigns as nat)),
        (
            "updatec_soak_successful_campaigns_total"@,
            decimal_digits(state.successful_campaigns as nat),
        ),
        (
            "updatec_soak_failed_campaigns_total"@,
            decimal_digits(state.failed_campaigns as nat),
        ),
        (
            "updatec_soak_release_assignments_total"@,
            decimal_digits(state.release_assignments as nat),
        ),
        (
            "updatec_soak_expected_rejections_total"@,
            decimal_digits(state.expected_rejections as nat),
        ),
        ("updatec_soak_recoveries_total"@, decimal_digits(state.recoveries as nat)),
        (
            "updatec_soak_forward_recoveries_total"@,
            decimal_digits(state.forward_recoveries as nat),
        ),
        ("updatec_soak_recovery_pending"@, flag_digit(state.recovery_pending)),
        (
            "updatec_soak_forward_recovery_pending"@,
            flag_digit(state.recovery_target is Some),
        ),
        (
            "updatec_soak_consecutive_failures"@,
            decimal_digits(state.consecutive_failures as nat),
        ),
        (
            "updatec_soak_last_success_timestamp_seconds"@,
            signed_digits(state.last_success_timestamp as int),
        ),
        (
            "updatec_soak_last_failure_timestamp_seconds"@,
            signed_digits(state.last_failure_timestamp as int),
        ),
        ("updatec_soak_last_convergence_seconds"@, convergence),
        (
            "updatec_soak_fleet_expected_nodes"@,
            decimal_digits(metrics.fleet_expected_nodes as nat),
        ),
        (
            "updatec_soak_fleet_converged_nodes"@,
            decimal_digits(metrics.fleet_converged_nodes as nat),
        ),
    ]
}

/// The name of a sample that belongs to one fault.
pub open spec fn fault_sample_name(series: Seq<char>, kind: FaultKind) -> Seq<char> {
    series + "{kind=\""@ + fault_metric_name(kind) + "\"}"@
}

/// The samples of the first `count` faults.
pub open spec fn fault_samples(metrics: MetricsView, count: int) -> Seq<(Seq<char>, Seq<char>)>
    decreases count,
{
    if count <= 0 {
        Seq::empty()
    } else {
        let kind = every_fault()[count - 1];
        fault_samples(metrics, count - 1) + seq![
            (
                fault_sample_name("updatec_soak_fault_active"@, kind),
                flag_digit(metrics.active_fault == Some(kind)),
            ),
            (
                fault_sample_name("updatec_soak_faults_total"@, kind),
                decimal_digits(metrics.state.faults[count - 1].1 as nat),
            ),
            (
                fault_sample_name("updatec_soak_fault_failures_total"@, kind),
                decimal_digits(metrics.state.fault_failures[count - 1].1 as nat),
            ),
        ]
    }
}

/// The samples of a campaign, in order.
pub open spec fn samples(metrics: MetricsView, convergence: Seq<char>) -> Seq<(Seq<char>, Seq<char>)> {
    plain_samples(metrics, convergence) + fault_samples(metrics, every_fault().len() as int)
}

/// A sample as a line.
pub open spec fn sample_line(sample: (Seq<char>, Seq<char>)) -> Seq<char> {
    sample.0 + " "@ + sample.1 + "\n"@
}

/// Some samples as lines.
pub open spec fn exposition(samples: Seq<(Seq<char>, Seq<char>)>) -> Seq<char>
    decreases samples.len(),
{
    if samples.len() == 0 {
        Seq::empty()
    } else {
        exposition(samples.drop_last()) + sample_line(samples.last())
    }
}

/// The names of some samples.
pub open spec fn sample_names(samples: Seq<(Seq<char>, Seq<char>)>) -> Seq<Seq<char>> {
    Seq::new(samples.len(), |i: int| samples[i].0)
}

proof fn lemma_fault_names(left: MetricsView, right: MetricsView, count: int)
    ensures
        sample_names(fault_samples(left, count)) == sample_names(fault_samples(right, count)),
    decreases count,
{
    if count > 0 {
        lemma_fault_names(left, right, count - 1);
        assert(sample_names(fault_samples(left, count - 1)).len() == fault_samples(
            left,
            count - 1,
        ).len());
        assert(sample_names(fault_samples(right, count - 1)).len() == fault_samples(
            right,
            count - 1,
        ).len());
        assert forall|i: int| 0 <= i < fault_samples(left, count).len() implies fault_samples(
            left,
            count,
        )[i].0 == fault_samples(right, count)[i].0 by {
            if i < fault_samples(left, count - 1).len() {
                assert(sample_names(fault_samples(left, count - 1))[i] == fault_samples(
                    left,
                    count - 1,
                )[i].0);
                assert(sample_names(fault_samples(right, count - 1))[i] == fault_samples(
                    right,
                    count - 1,
                )[i].0);
            }
        }
        assert(sample_names(fault_samples(left, count)) =~= sample_names(
            fault_samples(right, count),
        ));
    }
}

/// The names of the samples, and with them the labels, are the same whatever the campaign has
/// done: their number does not grow with the rounds.
pub proof fn sample_names_are_fixed(
    left: MetricsView,
    right: MetricsView,
    left_convergence: Seq<char>,
    right_convergence: Seq<char>,
)
    ensures
        sample_names(samples(left, left_convergence)) == sample_names(
            samples(right, right_convergence),
        ),
{
    let count = every_fault().len() as int;
    lemma_fault_names(left, right, count);
    let first = fault_samples(left, count);
    let second = fault_samples(right, count);
    assert(sample_names(first).len() == first.len() && sample_names(second).len() == second.len());
    assert forall|i: int| 0 <= i < first.len() implies first[i].0 == second[i].0 by {
        assert(sample_names(first)[i] == first[i].0 && sample_names(second)[i] == second[i].0);
    }
    assert(sample_names(samples(left, left_convergence)) =~= sample_names(
        samples(right, right_convergence),
    ));
}

/// A sample.
pub struct Sample {
    pub name: String,
    pub value: String,
}

/// Samples as names and values.
pub open spec fn sample_views(samples: Seq<Sample>) -> Seq<(Seq<char>, Seq<char>)> {
    Seq::new(samples.len(), |i: int| (samples[i].name@, samples[i].value@))
}

fn sample(name: &str, value: String) -> (result: Sample)
    ensures
        result.name@ == name@,
        result.value == value,
{
    Sample { name: name.to_owned(), value }
}

/// Writes a sample as a line.
pub fn metric(output: &mut String, name: &str, value: &str)
    ensures
        final(output)@ == old(output)@ + sample_line((name@, value@)),
{
    let ghost before = output@;
    output.append(name);
    output.append(" ");
    output.append(value);
    output.append("\n");
    assert(output@ =~= before + sample_line((name@, value@)));
}

fn fault_sample(series: &str, kind: FaultKind, value: String) -> (result: Sample)
    ensures
        result.name@ == fault_sample_name(series@, kind),
        result.value == value,
{
    let mut name = String::from_str(series);
    name.append("{kind=\"");
    name.append(kind.descriptor().metric_name);
    name.append("\"}");
    Sample { name, value }
}

/// Whether a state counts every fault, in order.
pub open spec fn counts_every_fault(state: CampaignView) -> bool {
    &&& counted_kinds(state.faults) == every_fault()
    &&& counted_kinds(state.fault_failures) == every_fault()
}

impl Metrics {
    /// The metrics of a campaign that has just started, at this time.
    pub fn from_state(state: &CampaignState, expected_nodes: usize, started_timestamp: i64) -> (result:
        Metrics)
        ensures
            result@ == (MetricsView {
                started_timestamp,
                bootstrap_ready: false,
                campaign_healthy: false,
                round_seed: 0,
                state: state@,
                fleet_expected_nodes: expected_nodes,
                fleet_converged_nodes: 0,
                active_fault: None,
            }),
    {
        Metrics {
            started_timestamp,
            bootstrap_ready: false,
            campaign_healthy: false,
            round_seed: 0,
            state: state.copied(),
            fleet_expected_nodes: expected_nodes,
            fleet_converged_nodes: 0,
            active_fault: None,
        }
    }

    /// Takes the campaign's state over.
    pub fn sync_state(&mut self, state: &CampaignState)
        ensures
            final(self)@ == (MetricsView { state: state@, ..old(self)@ }),
    {
        self.state = state.copied();
    }

    /// Notes that the fleet was reconciled at the start.
    pub fn finish_bootstrap(&mut self, state: &CampaignState)
        ensures
            final(self)@ == (MetricsView {
                bootstrap_ready: true,
                campaign_healthy: true,
                state: state@,
                ..old(self)@
            }),
    {
        self.bootstrap_ready = true;
        self.campaign_healthy = true;
        self.sync_state(state);
    }

    /// Notes how a round, or the recovery from one, ended.
    pub fn finish(&mut self, healthy: bool, state: &CampaignState)
        ensures
            final(self)@ == (MetricsView { campaign_healthy: healthy, state: state@, ..old(self)@ }),
    {
        self.campaign_healthy = healthy;
        self.sync_state(state);
    }

    fn list_plain_samples(&self, convergence: &str) -> (result: Vec<Sample>)
        ensures
            sample_views(result@) == plain_samples(self@, convergence@),
    {
        let state = &self.state;
        let result: Vec<Sample> = vec![
            sample(
                "updatec_soak_started_timestamp_seconds",
                signed_decimal(self.started_timestamp),
            ),
            sample("updatec_soak_bootstrap_ready", write_flag(self.bootstrap_ready)),
            sample("updatec_soak_campaign_healthy", write_flag(self.campaign_healthy)),
            sample("updatec_soak_round", decimal(state.round)),
            sample("updatec_soak_release_generation", decimal(state.release_generation)),
            sample("updatec_soak_round_seed", decimal(self.round_seed)),
            sample("updatec_soak_campaigns_total", decimal(state.campaigns)),
            sample(
                "updatec_soak_successful_campaigns_total",
                decimal(state.successful_campaigns),
            ),
            sample("updatec_soak_failed_campaigns_total", decimal(state.failed_campaigns)),
            sample("updatec_soak_release_assignments_total", decimal(state.release_assignments)),
            sample("updatec_soak_expected_rejections_total", decimal(state.expected_rejections)),
            sample("updatec_soak_recoveries_total", decimal(state.recoveries)),
            sample("updatec_soak_forward_recoveries_total", decimal(state.forward_recoveries)),
            sample("updatec_soak_recovery_pending", write_flag(state.recovery_pending)),
            sample(
                "updatec_soak_forward_recovery_pending",
                write_flag(state.recovery_target.is_some()),
            ),
            sample("updatec_soak_consecutive_failures", decimal(state.consecutive_failures)),
            sample(
                "updatec_soak_last_success_timestamp_seconds",
                signed_decimal(state.last_success_timestamp),
            ),
            sample(
                "updatec_soak_last_failure_timestamp_seconds",
                signed_decimal(state.last_failure_timestamp),
            ),
            sample("updatec_soak_last_convergence_seconds", convergence.to_owned()),
            sample(
                "updatec_soak_fleet_expected_nodes",
                decimal(self.fleet_expected_nodes as u64),
            ),
            sample(
                "updatec_soak_fleet_converged_nodes",
                decimal(self.fleet_converged_nodes as u64),
            ),
        ];
        assert(sample_views(result@) =~= plain_samples(self@, convergence@));
        result
    }

    fn list_fault_samples(&self) -> (result: Vec<Sample>)
        requires
            counts_every_fault(self@.state),
        ensures
            sample_views(result@) == fault_samples(self@, every_fault().len() as int),
    {
        let kinds = FaultKind::all();
        let mut result: Vec<Sample> = Vec::new();
        let mut index: usize = 0;
        proof {
            assert(counted_kinds(self@.state.faults).len() == self.state.faults@.len());
            assert(counted_kinds(self@.state.fault_failures).len()
                == self.state.fault_failures@.len());
            assert(sample_views(result@) =~= fault_samples(self@, 0));
        }
        while index < kinds.len()
            invariant
                index <= kinds.len(),
                kinds@ == every_fault(),
                self.state.faults@.len() == every_fault().len(),
                self.state.fault_failures@.len() == every_fault().len(),
                sample_views(result@) == fault_samples(self@, index as int),
            decreases kinds.len() - index,
        {
            let ghost before = result@;
            let kind = kinds[index];
            let active = match self.active_fault {
                Some(active) => active == kind,
                None => false,
            };
            let first = fault_sample("updatec_soak_fault_active", kind, write_flag(active));
            let second = fault_sample(
                "updatec_soak_faults_total",
                kind,
                decimal(self.state.faults[index].count),
            );
            let third = fault_sample(
                "updatec_soak_fault_failures_total",
                kind,
                decimal(self.state.fault_failures[index].count),
            );
            let ghost added = seq![
                (first.name@, first.value@),
                (second.name@, second.value@),
                (third.name@, third.value@),
            ];
            result.push(first);
            result.push(second);
            result.push(third);
            assert(sample_views(result@) =~= sample_views(before) + added);
            assert(fault_samples(self@, index + 1) =~= fault_samples(self@, index as int) + added);
            index = index + 1;
        }
        result
    }

    /// The metrics as text. `convergence` is the text of the last convergence duration in seconds.
    pub fn render(&self, convergence: &str) -> (result: String)
        requires
            counts_every_fault(self@.state),
        ensures
            result@ == exposition(samples(self@, convergence@)),
    {
        let mut list = self.list_plain_samples(convergence);
        let mut faults = self.list_fault_samples();
        let ghost first = list@;
        let ghost second = faults@;
        list.append(&mut faults);
        let ghost all = samples(self@, convergence@);
        assert(sample_views(list@) =~= sample_views(first) + sample_views(second));
        let mut output = String::new();
        let mut index: usize = 0;
        assert(output@ =~= exposition(all.take(0)));
        while index < list.len()
            invariant
                index <= list.len(),
                all == sample_views(list@),
                output@ == exposition(all.take(index as int)),
            decreases list.len() - index,
        {
            assert(all.take(index + 1).drop_last() =~= all.take(index as int));
            metric(&mut output, list[index].name.as_str(), list[index].value.as_str());
            index = index + 1;
        }
        assert(all.take(list.len() as int) =~= all);
        output
    }
}

// ----- the server -----

/// What the server does next with a connection.
pub enum MetricsRead {
    ReadOn,
    /// The headers are complete.
    Complete,
    /// The connection is dropped, with this message.
    Refuse(&'static str),
}

/// What one more chunk comes to; nothing was read where the peer has closed.
pub open spec fn is_metrics_read(bytes: Seq<u8>, chunk: Seq<u8>, result: MetricsRead) -> bool {
    if chunk.len() == 0 {
        result is Refuse && result->Refuse_0@ == "metrics peer closed before completing headers"@
    } else if blank_line(bytes + chunk, 0) is Some {
        result is Complete
    } else if (bytes + chunk).len() > METRICS_MAX_REQUEST {
        result is Refuse && result->Refuse_0@ == "metrics request headers exceed the bound"@
    } else {
        result is ReadOn
    }
}

/// Takes what was read of a request.
pub fn read_metrics_request(bytes: &mut Vec<u8>, chunk: &Vec<u8>) -> (result: MetricsRead)
    requires
        old(bytes)@.len() + chunk@.len() <= usize::MAX,
    ensures
        final(bytes)@ == old(bytes)@ + chunk@,
        is_metrics_read(old(bytes)@, chunk@, result),
{
    let ghost before = bytes@;
    let mut index: usize = 0;
    assert(before + chunk@.take(0) =~= before);
    while index < chunk.len()
        invariant
            index <= chunk.len(),
            bytes@ == before + chunk@.take(index as int),
        decreases chunk.len() - index,
    {
        bytes.push(chunk[index]);
        assert(bytes@ =~= before + chunk@.take(index + 1));
        index = index + 1;
    }
    assert(chunk@.take(chunk.len() as int) =~= chunk@);
    if chunk.len() == 0 {
        return MetricsRead::Refuse("metrics peer closed before completing headers");
    }
    match find_blank_line(bytes.as_slice()) {
        Some(_) => MetricsRead::Complete,
        None => {
            if bytes.len() > METRICS_MAX_REQUEST {
                MetricsRead::Refuse("metrics request headers exceed the bound")
            } else {
                MetricsRead::ReadOn
            }
        },
    }
}

/// Why a request names no path.
#[derive(Clone, Copy, PartialEq, Eq, Structural, Debug)]
pub enum PathError {
    NotUtf8,
    NoRequestLine,
    NoPath,
}

/// The path that a request names.
pub open spec fn requested_path(bytes: Seq<u8>) -> Result<Seq<char>, PathError> {
    if !valid_utf8(bytes) {
        Err(PathError::NotUtf8)
    } else {
        let rows = lines_of(decode_utf8(bytes));
        if rows.len() == 0 {
            Err(PathError::NoRequestLine)
        } else if words_of(rows[0]).len() < 2 {
            Err(PathError::NoPath)
        } else {
            Ok(words_of(rows[0])[1])
        }
    }
}

/// The path that a request names.
pub fn metrics_path(bytes: &Vec<u8>) -> (result: Result<String, PathError>)
    ensures
        match result {
            Ok(path) => requested_path(bytes@) == Ok::<Seq<char>, PathError>(path@),
            Err(error) => requested_path(bytes@) == Err::<Seq<char>, PathError>(error),
        },
{
    let text = match read_utf8(bytes.as_slice()) {
        Some(text) => text,
        None => return Err(PathError::NotUtf8),
    };
    proof {
        vstd::utf8::encode_utf8_valid_utf8(text@);
        vstd::utf8::encode_utf8_decode_utf8(text@);
    }
    let rows = lines(text.as_str());
    assert(views(rows@).len() == rows@.len());
    if rows.len() == 0 {
        return Err(PathError::NoRequestLine);
    }
    assert(views(rows@)[0] == rows@[0]@);
    let parts = words(rows[0].as_str());
    assert(views(parts@).len() == parts@.len());
    if parts.len() < 2 {
        return Err(PathError::NoPath);
    }
    assert(views(parts@)[1] == parts@[1]@);
    Ok(parts[1].clone())
}

/// Whether a reply is the one to a path.
pub open spec fn is_metrics_reply(path: Seq<char>, ready: bool, text: Seq<char>, reply: Reply) -> bool {
    if path == "/metrics"@ {
        is_reply(reply, "200 OK"@, "text/plain; version=0.0.4"@, text)
    } else if path == "/healthz"@ {
        is_reply(reply, "200 OK"@, "text/plain"@, "ok\n"@)
    } else if path == "/readyz"@ && ready {
        is_reply(reply, "200 OK"@, "text/plain"@, "ready\n"@)
    } else if path == "/readyz"@ {
        is_reply(reply, "503 Service Unavailable"@, "text/plain"@, "bootstrapping\n"@)
    } else {
        is_reply(reply, "404 Not Found"@, "text/plain"@, "not found\n"@)
    }
}

/// The reply to a path, from the metrics and the text of the last convergence duration.
pub fn metrics_reply(path: &str, metrics: &Metrics, convergence: &str) -> (result: Reply)
    requires
        counts_every_fault(metrics@.state),
    ensures
        is_metrics_reply(
            path@,
            metrics.bootstrap_ready,
            exposition(samples(metrics@, convergence@)),
            result,
        ),
{
    if same(path, "/metrics") {
        Reply {
            status: "200 OK",
            content_type: "text/plain; version=0.0.4",
            body: metrics.render(convergence),
        }
    } else if same(path, "/healthz") {
        Reply { status: "200 OK", content_type: "text/plain", body: "ok\n".to_owned() }
    } else if same(path, "/readyz") {
        if metrics.bootstrap_ready {
            Reply { status: "200 OK", content_type: "text/plain", body: "ready\n".to_owned() }
        } else {
            Reply {
                status: "503 Service Unavailable",
                content_type: "text/plain",
                body: "bootstrapping\n".to_owned(),
            }
        }
    } else {
        Reply { status: "404 Not Found", content_type: "text/plain", body: "not found\n".to_owned() }
    }
}

/// A reply as it goes over the wire.
pub fn write_metrics_response(reply: &Reply) -> (result: String)
    ensures
        result@ == "HTTP/1.1 "@ + reply.status@ + "\r\ncontent-type: "@ + reply.content_type@
            + "\r\ncontent-length: "@ + decimal_digits(encode_utf8(reply.body@).len())
            + "\r\nconnection: close\r\n\r\n"@ + reply.body@,
{
    let mut text = String::from_str("HTTP/1.1 ");
    text.append(reply.status);
    text.append("\r\ncontent-type: ");
    text.append(reply.content_type);
    text.append("\r\ncontent-length: ");
    let bytes = reply.body.as_str().as_bytes_vec();
    text.append(decimal(bytes.len() as u64).as_str());
    text.append("\r\nconnection: close\r\n\r\n");
    text.append(reply.body.as_str());
    text
}

/// Each plain sample states what it is named after.
pub proof fn samples_state_what_they_name(metrics: MetricsView, convergence: Seq<char>)
    ensures
        ({
            let all = samples(metrics, convergence);
            let state = metrics.state;
            &&& all[1] == ("updatec_soak_bootstrap_ready"@, flag_digit(metrics.bootstrap_ready))
            &&& all[2] == ("updatec_soak_campaign_healthy"@, flag_digit(metrics.campaign_healthy))
            &&& all[3] == ("updatec_soak_round"@, decimal_digits(state.round as nat))
            &&& all[4] == (
                "updatec_soak_release_generation"@,
                decimal_digits(state.release_generation as nat),
            )
            &&& all[6] == ("updatec_soak_campaigns_total"@, decimal_digits(state.campaigns as nat))
            &&& all[7] == (
                "updatec_soak_successful_campaigns_total"@,
                decimal_digits(state.successful_campaigns as nat),
            )
            &&& all[8] == (
                "updatec_soak_failed_campaigns_total"@,
                decimal_digits(state.failed_campaigns as nat),
            )
            &&& all[9] == (
                "updatec_soak_release_assignments_total"@,
                decimal_digits(state.release_assignments as nat),
            )
            &&& all[10] == (
                "updatec_soak_expected_rejections_total"@,
                decimal_digits(state.expected_rejections as nat),
            )
            &&& all[11] == ("updatec_soak_recoveries_total"@, decimal_digits(state.recoveries as nat))
            &&& all[12] == (
                "updatec_soak_forward_recoveries_total"@,
                decimal_digits(state.forward_recoveries as nat),
            )
            &&& all[13] == ("updatec_soak_recovery_pending"@, flag_digit(state.recovery_pending))
            &&& all[14] == (
                "updatec_soak_forward_recovery_pending"@,
                flag_digit(state.recovery_target is Some),
            )
            &&& all[15] == (
                "updatec_soak_consecutive_failures"@,
                decimal_digits(state.consecutive_failures as nat),
            )
            &&& all[16] == (
                "updatec_soak_last_success_timestamp_seconds"@,
                signed_digits(state.last_success_timestamp as int),
            )
            &&& all[17] == (
                "updatec_soak_last_failure_timestamp_seconds"@,
                signed_digits(state.last_failure_timestamp as int),
            )
            &&& all[19] == (
                "updatec_soak_fleet_expected_nodes"@,
                decimal_digits(metrics.fleet_expected_nodes as nat),
            )
            &&& all[20] == (
                "updatec_soak_fleet_converged_nodes"@,
                decimal_digits(metrics.fleet_converged_nodes as nat),
            )
        }),
        flag_digit(true) == "1"@,
        flag_digit(false) == "0"@,
{
}

/// Each fault has three samples: whether it is active, which at most one is, how often it was injected,
/// and how often its life went wrong.
pub proof fn fault_samples_state_what_they_name(metrics: MetricsView, count: int)
    requires
        0 < count <= 4,
    ensures
        ({
            let all = fault_samples(metrics, count);
            let kind = every_fault()[count - 1];
            &&& all.len() == 3 * count
            &&& all[3 * count - 3].0 == fault_sample_name("updatec_soak_fault_active"@, kind)
            &&& metrics.active_fault == Some(kind) ==> all[3 * count - 3].1 == "1"@
            &&& metrics.active_fault != Some(kind) ==> all[3 * count - 3].1 == "0"@
            &&& all[3 * count - 2] == (
                fault_sample_name("updatec_soak_faults_total"@, kind),
                decimal_digits(metrics.state.faults[count - 1].1 as nat),
            )
            &&& all[3 * count - 1] == (
                fault_sample_name("updatec_soak_fault_failures_total"@, kind),
                decimal_digits(metrics.state.fault_failures[count - 1].1 as nat),
            )
        }),
{
    reveal_with_fuel(fault_samples, 5);
}

/// A request is read until its headers are complete; a peer that closes before that is refused, and so
/// is one that has sent more than 8192 bytes without completing them.
pub proof fn requests_are_read_up_to_a_bound(bytes: Seq<u8>, chunk: Seq<u8>, result: MetricsRead)
    requires
        is_metrics_read(bytes, chunk, result),
    ensures
        chunk.len() == 0 ==> result is Refuse,
        result is Complete <==> chunk.len() > 0 && blank_line(bytes + chunk, 0) is Some,
        result is ReadOn <==> chunk.len() > 0 && blank_line(bytes + chunk, 0) is None && bytes.len()
            + chunk.len() <= 8192,
{
}

/// A request names the second word of its first line.
pub proof fn requests_name_their_second_word(bytes: Seq<u8>)
    ensures
        requested_path(bytes) is Ok <==> valid_utf8(bytes) && lines_of(decode_utf8(bytes)).len() > 0
            && words_of(lines_of(decode_utf8(bytes))[0]).len() >= 2,
        requested_path(bytes) is Ok ==> requested_path(bytes)->Ok_0 == words_of(
            lines_of(decode_utf8(bytes))[0],
        )[1],
{
}

/// A campaign answers that it is ready exactly once it is, that it lives at any time, and that it knows
/// no other path.
pub proof fn readiness_is_answered_as_it_is(path: Seq<char>, ready: bool, text: Seq<char>, reply: Reply)
    requires
        is_metrics_reply(path, ready, text, reply),
    ensures
        path == "/readyz"@ && ready && path != "/metrics"@ && path != "/healthz"@ ==> reply.status@
            == "200 OK"@ && reply.body@ == "ready\n"@,
        path == "/readyz"@ && !ready && path != "/metrics"@ && path != "/healthz"@ ==> reply.status@
            == "503 Service Unavailable"@ && reply.body@ == "bootstrapping\n"@,
        path == "/metrics"@ ==> reply.status@ == "200 OK"@ && reply.body@ == text,
        path == "/healthz"@ && path != "/metrics"@ ==> reply.status@ == "200 OK"@ && reply.body@
            == "ok\n"@,
        path != "/metrics"@ && path != "/healthz"@ && path != "/readyz"@ ==> reply.status@
            == "404 Not Found"@,
{
}

/// An exposition has one line for every sample, in order: its name, a blank and its value.
pub proof fn every_sample_has_a_line(
    samples: Seq<(Seq<char>, Seq<char>)>,
    name: Seq<char>,
    value: Seq<char>,
)
    ensures
        exposition(Seq::empty()).len() == 0,
        exposition(samples.push((name, value))) == exposition(samples) + (name + " "@ + value
            + "\n"@),
{
    assert(samples.push((name, value)).drop_last() =~= samples);
}

} // verus!
