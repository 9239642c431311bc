//! The samples of a metrics exposition, and the verdict on those that the fleet must show.

use crate::e2e::layout::{COHORT_COUNT, NODE_COUNT};
use crate::text::{
    after_prefix, decimal, decimal_digits, divide, divided, ends_with, has_prefix, has_suffix, join,
    joined, lines, lines_of, quoted, quoted_text, same, starts_with, strip_prefix, trim, trimmed,
    view_of, views,
};
use vstd::prelude::*;

verus! {

// ----- samples -----

/// A sample of a series: its labels with their braces, empty where it has none, and the text of its
/// value.
pub struct MetricSample {
    pub labels: String,
    pub value: String,
}

/// A sample as its labels and its value.
pub open spec fn sample_view(sample: MetricSample) -> (Seq<char>, Seq<char>) {
    (sample.labels@, sample.value@)
}

/// Samples as their labels and values.
pub open spec fn sample_views(samples: Seq<MetricSample>) -> Seq<(Seq<char>, Seq<char>)> {
    Seq::new(samples.len(), |i: int| sample_view(samples[i]))
}

/// The sample of a series that a line states, if it states one: the name must be followed by the
/// labels or by the value, so that a longer name is not taken for it.
pub open spec fn line_sample(line: Seq<char>, name: Seq<char>) -> Option<(Seq<char>, Seq<char>)> {
    match after_prefix(line, name) {
        None => None,
        Some(rest) => match divided(rest, ' ') {
            None => None,
            Some(parts) => if parts.0.len() == 0 || (has_prefix(parts.0, "{"@) && has_suffix(
                parts.0,
                "}"@,
            )) {
                Some((parts.0, trimmed(parts.1)))
            } else {
                None
            },
        },
    }
}

/// The samples of a series, in order.
pub open spec fn series_samples(rows: Seq<Seq<char>>, name: Seq<char>) -> Seq<
    (Seq<char>, Seq<char>),
>
    decreases rows.len(),
{
    if rows.len() == 0 {
        Seq::empty()
    } else {
        match line_sample(rows.last(), name) {
            Some(sample) => series_samples(rows.drop_last(), name).push(sample),
            None => series_samples(rows.drop_last(), name),
        }
    }
}

fn read_sample(line: &str, name: &str) -> (result: Option<MetricSample>)
    ensures
        match result {
            Some(sample) => line_sample(line@, name@) == Some(sample_view(sample)),
            None => line_sample(line@, name@) is None,
        },
{
    let rest = match strip_prefix(line, name) {
        Some(rest) => rest,
        None => return None,
    };
    let (labels, value) = match divide(rest.as_str(), ' ') {
        Some(parts) => parts,
        None => return None,
    };
    if labels.as_str().unicode_len() == 0 || (starts_with(labels.as_str(), "{") && ends_with(
        labels.as_str(),
        "}",
    )) {
        let text = trim(value.as_str()).to_owned();
        Some(MetricSample { labels, value: text })
    } else {
        None
    }
}

/// The samples of a series of an exposition, in order. Whether their values are numbers is left to
/// the reader.
pub fn samples(exposition: &str, name: &str) -> (result: Vec<MetricSample>)
    ensures
        sample_views(result@) == series_samples(lines_of(exposition@), name@),
{
    let rows = lines(exposition);
    let ghost all = lines_of(exposition@);
    let mut result: Vec<MetricSample> = Vec::new();
    let mut index: usize = 0;
    assert(views(rows@) == all && views(rows@).len() == rows@.len());
    assert(sample_views(result@) =~= series_samples(all.take(0), name@));
    while index < rows.len()
        invariant
            index <= rows.len(),
            views(rows@) == all,
            rows@.len() == all.len(),
            sample_views(result@) == series_samples(all.take(index as int), name@),
        decreases rows.len() - index,
    {
        assert(all.take(index + 1).drop_last() =~= all.take(index as int));
        assert(views(rows@)[index as int] == rows@[index as int]@);
        assert(all.take(index + 1).last() == rows@[index as int]@);
        match read_sample(rows[index].as_str(), name) {
            Some(sample) => {
                let ghost before = result@;
                result.push(sample);
                assert(sample_views(result@) =~= sample_views(before).push(sample_view(sample)));
            },
            None => {},
        }
        index = index + 1;
    }
    assert(all.take(rows.len() as int) =~= all);
    result
}

/// A line that only declares a series is no sample of it: a series without data has none, though
/// its name is in the exposition.
pub proof fn declarations_are_no_samples(line: Seq<char>, name: Seq<char>)
    requires
        has_prefix(line, "#"@),
        name.len() > 0,
        name[0] != '#',
    ensures
        line_sample(line, name) is None,
{
    reveal_strlit("#");
    assert(line[0] == '#') by {
        assert(line.take(1)[0] == "#"@[0]);
    }
    if after_prefix(line, name) is Some {
        assert(line.take(name.len() as int)[0] == name[0]);
    }
}

// ----- the verdict -----

/// The series that says when the load balancers read the fleet's reports.
pub const REPORTS_SERIES: &'static str = "healthproxy_reports_timestamp_seconds";

/// What the value of a sample is like.
pub struct Reading {
    pub labels: String,
    pub below_one: bool,
    pub is_one: bool,
    pub above_zero: bool,
    /// Whether it is at least the number of nodes of the fleet.
    pub covers_fleet: bool,
    /// How it is shown.
    pub shown: String,
}

/// What an exposition lacks.
#[derive(Clone, Copy, PartialEq, Eq, Structural, Debug)]
pub enum MetricsFault {
    /// No generation was published, or one below the first.
    NoGeneration,
    /// Fewer reports are fresh than the fleet has nodes.
    FewReports,
    /// A verdict is shown for so many groups only.
    FewVerdicts(usize),
    /// No backend is up.
    NoBackend,
    /// The reports were never read.
    NeverRead,
}

/// The number of readings that are one.
pub open spec fn ones(readings: Seq<Reading>) -> nat
    decreases readings.len(),
{
    if readings.len() == 0 {
        0
    } else if readings.last().is_one {
        ones(readings.drop_last()) + 1
    } else {
        ones(readings.drop_last())
    }
}

fn count_ones(readings: &Vec<Reading>) -> (result: usize)
    ensures
        result == ones(readings@),
{
    let mut count: usize = 0;
    let mut index: usize = 0;
    assert(readings@.take(0).len() == 0);
    while index < readings.len()
        invariant
            index <= readings.len(),
            count <= index,
            count == ones(readings@.take(index as int)),
        decreases readings.len() - index,
    {
        assert(readings@.take(index + 1).drop_last() =~= readings@.take(index as int));
        assert(readings@.take(index + 1).last() == readings@[index as int]);
        if readings[index].is_one {
            count = count + 1;
        }
        index = index + 1;
    }
    assert(readings@.take(readings.len() as int) =~= readings@);
    count
}

/// Whether a series has exactly one sample, which has no labels and passes a test.
pub open spec fn is_single(readings: Seq<Reading>, passes: bool) -> bool {
    readings.len() == 1 && readings[0].labels@.len() == 0 && passes
}

/// What the controller's exposition lacks, if it lacks anything.
pub open spec fn controller_fault(
    generations: Seq<Reading>,
    fresh: Seq<Reading>,
    progress: Seq<Reading>,
) -> Option<MetricsFault> {
    if generations.len() == 0 || exists|i: int|
        0 <= i < generations.len() && (#[trigger] generations[i]).below_one {
        Some(MetricsFault::NoGeneration)
    } else if !is_single(fresh, fresh[0].covers_fleet) {
        Some(MetricsFault::FewReports)
    } else if ones(progress) < COHORT_COUNT {
        Some(MetricsFault::FewVerdicts(ones(progress) as usize))
    } else {
        None
    }
}

/// What the controller's exposition lacks, from the readings of the published generations, of the
/// fresh reports and of the groups' progress.
pub fn judge_controller(generations: &Vec<Reading>, fresh: &Vec<Reading>, progress: &Vec<Reading>) -> (result:
    Option<MetricsFault>)
    ensures
        result == controller_fault(generations@, fresh@, progress@),
{
    if generations.len() == 0 {
        return Some(MetricsFault::NoGeneration);
    }
    let mut index: usize = 0;
    while index < generations.len()
        invariant
            index <= generations.len(),
            generations@.len() > 0,
            forall|i: int| 0 <= i < index ==> !(#[trigger] generations@[i]).below_one,
        decreases generations.len() - index,
    {
        if generations[index].below_one {
            assert(generations@[index as int].below_one);
            return Some(MetricsFault::NoGeneration);
        }
        index = index + 1;
    }
    if !(fresh.len() == 1 && fresh[0].labels.as_str().unicode_len() == 0 && fresh[0].covers_fleet) {
        return Some(MetricsFault::FewReports);
    }
    let hot = count_ones(progress);
    if hot < COHORT_COUNT {
        return Some(MetricsFault::FewVerdicts(hot));
    }
    None
}

/// The first reading with these labels, if there is one.
pub open spec fn reading_labelled(readings: Seq<Reading>, labels: Seq<char>, from: int) -> Option<int>
    decreases readings.len() - from,
{
    if from < 0 || from >= readings.len() {
        None
    } else if readings[from].labels@ == labels {
        Some(from)
    } else {
        reading_labelled(readings, labels, from + 1)
    }
}

/// What the load balancers' exposition lacks, if it lacks anything.
pub open spec fn healthproxy_fault(backends: Seq<Reading>, read: Seq<Reading>) -> Option<
    MetricsFault,
> {
    match reading_labelled(backends, "{state=\"up\"}"@, 0) {
        None => Some(MetricsFault::NoBackend),
        Some(index) => if backends[index].below_one {
            Some(MetricsFault::NoBackend)
        } else if !is_single(read, read[0].above_zero) {
            Some(MetricsFault::NeverRead)
        } else {
            None
        },
    }
}

/// What the load balancers' exposition lacks, from the readings of the backends and of when the
/// reports were read.
pub fn judge_healthproxy(backends: &Vec<Reading>, read: &Vec<Reading>) -> (result: Option<
    MetricsFault,
>)
    ensures
        result == healthproxy_fault(backends@, read@),
{
    let mut index: usize = 0;
    while index < backends.len()
        invariant
            index <= backends.len(),
            reading_labelled(backends@, "{state=\"up\"}"@, 0) == reading_labelled(
                backends@,
                "{state=\"up\"}"@,
                index as int,
            ),
        decreases backends.len() - index,
    {
        if same(backends[index].labels.as_str(), "{state=\"up\"}") {
            if backends[index].below_one {
                return Some(MetricsFault::NoBackend);
            }
            if !(read.len() == 1 && read[0].labels.as_str().unicode_len() == 0
                && read[0].above_zero) {
                return Some(MetricsFault::NeverRead);
            }
            return None;
        }
        index = index + 1;
    }
    Some(MetricsFault::NoBackend)
}

// ----- in words -----

/// A reading as it is shown: its labels, and its value.
pub open spec fn reading_text(reading: Reading) -> Seq<char> {
    "("@ + quoted_text(reading.labels@) + ", "@ + reading.shown@ + ")"@
}

/// Readings as they are shown.
pub open spec fn reading_texts(readings: Seq<Reading>) -> Seq<Seq<char>> {
    Seq::new(readings.len(), |i: int| reading_text(readings[i]))
}

/// Readings as they are shown, in a list.
pub open spec fn readings_text(readings: Seq<Reading>) -> Seq<char> {
    "["@ + joined(reading_texts(readings), ", "@) + "]"@
}

fn write_reading(reading: &Reading) -> (result: String)
    ensures
        result@ == reading_text(*reading),
{
    let mut text = String::from_str("(");
    text.append(quoted(reading.labels.as_str()).as_str());
    text.append(", ");
    text.append(reading.shown.as_str());
    text.append(")");
    text
}

fn write_readings(readings: &Vec<Reading>) -> (result: String)
    ensures
        result@ == readings_text(readings@),
{
    let mut parts: Vec<String> = Vec::new();
    let mut index: usize = 0;
    while index < readings.len()
        invariant
            index <= readings.len(),
            parts@.len() == index,
            forall|i: int|
                0 <= i < index ==> (#[trigger] parts@[i])@ == reading_text(readings@[i]),
        decreases readings.len() - index,
    {
        parts.push(write_reading(&readings[index]));
        index = index + 1;
    }
    assert(views(parts@) =~= reading_texts(readings@));
    let mut text = String::from_str("[");
    text.append(join(&parts, ", ").as_str());
    text.append("]");
    text
}

/// What is wrong with the controller's exposition, in words, if anything is.
pub open spec fn controller_complaint(
    generations: Seq<Reading>,
    fresh: Seq<Reading>,
    progress: Seq<Reading>,
) -> Option<Seq<char>> {
    match controller_fault(generations, fresh, progress) {
        Some(MetricsFault::NoGeneration) => Some(
            "controller exposition carries no published generation: "@ + readings_text(
                generations,
            ),
        ),
        Some(MetricsFault::FewReports) => Some(
            "controller exposition reports fewer than the fleet's "@ + decimal_digits(
                NODE_COUNT as nat,
            ) + " fresh reports: "@ + readings_text(fresh),
        ),
        Some(_) => Some(
            "controller exposition projects a verdict for "@ + decimal_digits(ones(progress))
                + " groups, not the fleet's "@ + decimal_digits(COHORT_COUNT as nat) + ": "@
                + readings_text(progress),
        ),
        None => None,
    }
}

/// What is wrong with the controller's exposition, in words, if anything is.
pub fn complain_of_controller(
    generations: &Vec<Reading>,
    fresh: &Vec<Reading>,
    progress: &Vec<Reading>,
) -> (result: Option<String>)
    ensures
        view_of(result) == controller_complaint(generations@, fresh@, progress@),
{
    match judge_controller(generations, fresh, progress) {
        Some(MetricsFault::NoGeneration) => {
            let mut message = String::from_str(
                "controller exposition carries no published generation: ",
            );
            message.append(write_readings(generations).as_str());
            Some(message)
        },
        Some(MetricsFault::FewReports) => {
            let mut message = String::from_str(
                "controller exposition reports fewer than the fleet's ",
            );
            message.append(decimal(NODE_COUNT as u64).as_str());
            message.append(" fresh reports: ");
            message.append(write_readings(fresh).as_str());
            Some(message)
        },
        Some(_) => {
            let hot = count_ones(progress);
            let mut message = String::from_str("controller exposition projects a verdict for ");
            message.append(decimal(hot as u64).as_str());
            message.append(" groups, not the fleet's ");
            message.append(decimal(COHORT_COUNT as u64).as_str());
            message.append(": ");
            message.append(write_readings(progress).as_str());
            Some(message)
        },
        None => None,
    }
}

/// The reading of the backends that are up, as it is shown.
pub open spec fn up_text(backends: Seq<Reading>) -> Seq<char> {
    match reading_labelled(backends, "{state=\"up\"}"@, 0) {
        Some(index) => "Some("@ + backends[index].shown@ + ")"@,
        None => "None"@,
    }
}

fn write_up(backends: &Vec<Reading>) -> (result: String)
    ensures
        result@ == up_text(backends@),
{
    let mut index: usize = 0;
    while index < backends.len()
        invariant
            index <= backends.len(),
            reading_labelled(backends@, "{state=\"up\"}"@, 0) == reading_labelled(
                backends@,
                "{state=\"up\"}"@,
                index as int,
            ),
        decreases backends.len() - index,
    {
        if same(backends[index].labels.as_str(), "{state=\"up\"}") {
            let mut text = String::from_str("Some(");
            text.append(backends[index].shown.as_str());
            text.append(")");
            return text;
        }
        index = index + 1;
    }
    String::from_str("None")
}

/// What is wrong with the load balancers' exposition, in words, if anything is.
pub open spec fn healthproxy_complaint(backends: Seq<Reading>, read: Seq<Reading>) -> Option<
    Seq<char>,
> {
    match healthproxy_fault(backends, read) {
        Some(MetricsFault::NoBackend) => Some(
            "healthproxy exposition programs no ready backend (state=\"up\" is "@ + up_text(
                backends,
            ) + ")"@,
        ),
        Some(_) => Some(
            "healthproxy exposition never observed the document behind "@ + REPORTS_SERIES@
                + ": "@ + readings_text(read),
        ),
        None => None,
    }
}

/// What is wrong with the load balancers' exposition, in words, if anything is.
pub fn complain_of_healthproxy(backends: &Vec<Reading>, read: &Vec<Reading>) -> (result: Option<
    String,
>)
    ensures
        view_of(result) == healthproxy_complaint(backends@, read@),
{
    match judge_healthproxy(backends, read) {
        Some(MetricsFault::NoBackend) => {
            let mut message = String::from_str(
                "healthproxy exposition programs no ready backend (state=\"up\" is ",
            );
            message.append(write_up(backends).as_str());
            message.append(")");
            Some(message)
        },
        Some(_) => {
            let mut message = String::from_str(
                "healthproxy exposition never observed the document behind ",
            );
            message.append(REPORTS_SERIES);
            message.append(": ");
            message.append(write_readings(read).as_str());
            Some(message)
        },
        None => None,
    }
}

/// A line states a sample of a series exactly as it is built: the name, then labels in braces or none,
/// then a blank and the value. A name that goes on, without braces, is another series.
pub proof fn samples_are_read_as_they_are_written(
    name: Seq<char>,
    labels: Seq<char>,
    value: Seq<char>,
)
    requires
        crate::text::is_without(labels, ' '),
    ensures
        labels.len() == 0 || (labels[0] == '{' && labels.last() == '}') ==> line_sample(
            name + labels + " "@ + value,
            name,
        ) == Some((labels, trimmed(value))),
        labels.len() > 0 && (labels[0] != '{' || labels.last() != '}') ==> line_sample(
            name + labels + " "@ + value,
            name,
        ) is None,
        line_sample(name + labels, name) is None,
{
    reveal_strlit(" ");
    reveal_strlit("{");
    reveal_strlit("}");
    let line = name + labels + " "@ + value;
    assert(line.take(name.len() as int) =~= name);
    assert(line.skip(name.len() as int) =~= labels + seq![' '] + value);
    crate::text::lemma_divided(labels, ' ', value);
    assert((name + labels).take(name.len() as int) =~= name);
    assert((name + labels).skip(name.len() as int) =~= labels);
    crate::text::lemma_position(labels, ' ', labels.len() as int);
    if labels.len() > 0 {
        assert(labels.take(1) =~= seq![labels[0]]);
        assert("{"@ =~= seq!['{']);
        assert("}"@ =~= seq!['}']);
        assert(labels.skip(labels.len() - 1) =~= seq![labels.last()]);
        if labels[0] != '{' {
            assert(labels.take(1)[0] != "{"@[0]);
        }
        if labels.last() != '}' {
            assert(labels.skip(labels.len() - 1)[0] != "}"@[0]);
        }
    }
}

/// As many readings count as one as say that they are.
pub proof fn ones_are_counted(readings: Seq<Reading>)
    ensures
        ones(readings) == readings.filter(|reading: Reading| reading.is_one).len(),
    decreases readings.len(),
{
    reveal(Seq::filter);
    if readings.len() > 0 {
        ones_are_counted(readings.drop_last());
        crate::demo::fleet::lemma_filter_push(
            readings.drop_last(),
            readings.last(),
            |reading: Reading| reading.is_one,
        );
        assert(readings.drop_last().push(readings.last()) =~= readings);
    }
}

/// The controller's exposition passes exactly when it shows generations, none below the first, one
/// reading of the fresh reports, without labels, that covers the fleet, and a verdict for at least
/// sixteen groups.
pub proof fn a_controller_passes_with_a_verdict_for_every_group(
    generations: Seq<Reading>,
    fresh: Seq<Reading>,
    progress: Seq<Reading>,
)
    ensures
        controller_fault(generations, fresh, progress) is None <==> {
            &&& generations.len() > 0
            &&& forall|i: int| 0 <= i < generations.len() ==> !(#[trigger] generations[i]).below_one
            &&& fresh.len() == 1
            &&& fresh[0].labels@.len() == 0
            &&& fresh[0].covers_fleet
            &&& progress.filter(|reading: Reading| reading.is_one).len() >= 16
        },
{
    ones_are_counted(progress);
}

proof fn lemma_labelled(readings: Seq<Reading>, labels: Seq<char>, from: int)
    requires
        0 <= from <= readings.len(),
    ensures
        match reading_labelled(readings, labels, from) {
            Some(index) => from <= index < readings.len() && readings[index].labels@ == labels && forall|
                i: int,
            |
                from <= i < index ==> (#[trigger] readings[i]).labels@ != labels,
            None => forall|i: int|
                from <= i < readings.len() ==> (#[trigger] readings[i]).labels@ != labels,
        },
    decreases readings.len() - from,
{
    if from < readings.len() && readings[from].labels@ != labels {
        lemma_labelled(readings, labels, from + 1);
    }
}

/// The load balancers' exposition passes exactly when its first reading of the backends that are up is
/// not below one and it shows one reading, without labels, of when the reports were read, above zero.
pub proof fn load_balancers_pass_with_a_backend_up(backends: Seq<Reading>, read: Seq<Reading>)
    ensures
        healthproxy_fault(backends, read) is None <==> {
            &&& read.len() == 1
            &&& read[0].labels@.len() == 0
            &&& read[0].above_zero
            &&& exists|i: int|
                {
                    &&& 0 <= i < backends.len()
                    &&& (#[trigger] backends[i]).labels@ == "{state=\"up\"}"@
                    &&& !backends[i].below_one
                    &&& forall|j: int|
                        0 <= j < i ==> (#[trigger] backends[j]).labels@ != "{state=\"up\"}"@
                }
        },
{
    lemma_labelled(backends, "{state=\"up\"}"@, 0);
    match reading_labelled(backends, "{state=\"up\"}"@, 0) {
        Some(index) => {
            assert(backends[index].labels@ == "{state=\"up\"}"@);
        },
        None => {},
    }
}

/// The samples of a series are those of its lines, in order; a line of another series, or that is no
/// sample, adds none.
pub proof fn every_line_of_a_series_is_a_sample(
    rows: Seq<Seq<char>>,
    row: Seq<char>,
    name: Seq<char>,
)
    ensures
        series_samples(Seq::empty(), name).len() == 0,
        line_sample(row, name) is None ==> series_samples(rows.push(row), name) == series_samples(
            rows,
            name,
        ),
        line_sample(row, name) is Some ==> series_samples(rows.push(row), name) == series_samples(
            rows,
            name,
        ).push(line_sample(row, name)->0),
{
    assert(rows.push(row).drop_last() =~= rows);
}

/// An exposition is complained of exactly where it lacks something, and the complaint shows what was read
/// of what it lacks.
pub proof fn complaints_show_what_was_read(
    generations: Seq<Reading>,
    fresh: Seq<Reading>,
    progress: Seq<Reading>,
    backends: Seq<Reading>,
    read: Seq<Reading>,
)
    ensures
        ({
            let fault = controller_fault(generations, fresh, progress);
            let complaint = controller_complaint(generations, fresh, progress);
            &&& complaint is None <==> fault is None
            &&& fault == Some(MetricsFault::NoGeneration) ==> complaint == Some(
                "controller exposition carries no published generation: "@ + readings_text(
                    generations,
                ),
            )
            &&& fault == Some(MetricsFault::FewReports) ==> complaint == Some(
                "controller exposition reports fewer than the fleet's "@ + decimal_digits(
                    NODE_COUNT as nat,
                ) + " fresh reports: "@ + readings_text(fresh),
            )
        }),
        healthproxy_complaint(backends, read) is None <==> healthproxy_fault(backends, read) is None,
        healthproxy_fault(backends, read) == Some(MetricsFault::NoBackend)
            ==> healthproxy_complaint(backends, read) == Some(
            "healthproxy exposition programs no ready backend (state=\"up\" is "@ + up_text(
                backends,
            ) + ")"@,
        ),
        backends.len() == 0 ==> up_text(backends) == "None"@,
        backends.len() > 0 && backends[0].labels@ == "{state=\"up\"}"@ ==> up_text(backends)
            == "Some("@ + backends[0].shown@ + ")"@,
{
}

} // verus!
