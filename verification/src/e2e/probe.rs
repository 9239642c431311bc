//! The load probe: what it counts, the lines it writes, and how they are read back.

use crate::demo::fleet::lemma_filter_push;
use crate::encoding::read_utf8;
use crate::json::{
    member, member_of, natural, object_text, parse_json, parsed_json, plain_members, plain_said, said,
    said_of, write_plain, Json, JsonView, PlainMember, PlainValue,
};
use crate::text::{
    decimal, decimal_digits, is_blank, lines, lines_of, trim, trimmed,
    trimming_drops_outer_blanks_only, views,
};
use vstd::prelude::*;
use vstd::utf8::{decode_utf8, valid_utf8};

verus! {

/// How often a summary is written, in nanoseconds.
pub const SUMMARY_EVERY_NANOS: u64 = 500_000_000;

/// How long a request may take, in milliseconds.
pub const REQUEST_TIMEOUT_MILLIS: u64 = 800;

/// The most bytes of a response that are read.
pub const RESPONSE_BODY_LIMIT: usize = 8192;

// ----- summaries -----

/// What a probe has seen so far.
pub struct Summary {
    /// The requests so far.
    pub total: u64,
    /// Those that failed.
    pub failed: u64,
    /// The longest time between two responses, in milliseconds.
    pub max_gap_ms: u64,
    /// What the first failure was; empty where there was none.
    pub first_failure: String,
}

/// What a probe has seen so far.
#[verifier::ext_equal]
pub struct SummaryView {
    pub total: u64,
    pub failed: u64,
    pub max_gap_ms: u64,
    pub first_failure: Seq<char>,
}

impl View for Summary {
    type V = SummaryView;

    open spec fn view(&self) -> SummaryView {
        SummaryView {
            total: self.total,
            failed: self.failed,
            max_gap_ms: self.max_gap_ms,
            first_failure: self.first_failure@,
        }
    }
}

/// The members of a summary, in order.
pub open spec fn summary_members(summary: SummaryView) -> Seq<(Seq<char>, JsonView)> {
    seq![
        ("total"@, natural(summary.total)),
        ("failed"@, natural(summary.failed)),
        ("max_gap_ms"@, natural(summary.max_gap_ms)),
        ("first_failure"@, JsonView::Text(summary.first_failure)),
    ]
}

/// The summary that four values make, if they are three natural numbers and a text.
pub open spec fn summary_of(
    total: JsonView,
    failed: JsonView,
    max_gap_ms: JsonView,
    first_failure: JsonView,
) -> Option<SummaryView> {
    match (total, failed, max_gap_ms, first_failure) {
        (
            JsonView::Number(Some(total), _),
            JsonView::Number(Some(failed), _),
            JsonView::Number(Some(max_gap_ms), _),
            JsonView::Text(first_failure),
        ) => Some(SummaryView { total, failed, max_gap_ms, first_failure }),
        _ => None,
    }
}

/// The summary that a document states: as an object, by the names of its members; as a list, by
/// their order. The line is read as a JSON value first: a name that is given twice has the value that
/// it is given last, and a line with a number that no value can hold states no summary, wherever that
/// number stands.
pub open spec fn summary_in(document: JsonView) -> Option<SummaryView> {
    match document {
        JsonView::Object(_) => summary_of(
            member_of(document, "total"@),
            member_of(document, "failed"@),
            member_of(document, "max_gap_ms"@),
            member_of(document, "first_failure"@),
        ),
        JsonView::List(items) => if items.len() == 4 {
            summary_of(items[0], items[1], items[2], items[3])
        } else {
            None
        },
        _ => None,
    }
}

fn make_summary(
    total: Option<&Json>,
    failed: Option<&Json>,
    max_gap_ms: Option<&Json>,
    first_failure: Option<&Json>,
) -> (result: Option<Summary>)
    ensures
        match result {
            Some(summary) => summary_of(
                said_of(total),
                said_of(failed),
                said_of(max_gap_ms),
                said_of(first_failure),
            ) == Some(summary@),
            None => summary_of(
                said_of(total),
                said_of(failed),
                said_of(max_gap_ms),
                said_of(first_failure),
            ) is None,
        },
{
    match (total, failed, max_gap_ms, first_failure) {
        (
            Some(Json::Number(Some(total), _)),
            Some(Json::Number(Some(failed), _)),
            Some(Json::Number(Some(max_gap_ms), _)),
            Some(Json::Text(first_failure)),
        ) => Some(
            Summary {
                total: *total,
                failed: *failed,
                max_gap_ms: *max_gap_ms,
                first_failure: first_failure.clone(),
            },
        ),
        _ => None,
    }
}

/// The summary that a document states, if it states one.
pub fn read_summary(document: &Json) -> (result: Option<Summary>)
    ensures
        match result {
            Some(summary) => summary_in(said(*document)) == Some(summary@),
            None => summary_in(said(*document)) is None,
        },
{
    let whole = Some(document);
    match document {
        Json::Object(_) => make_summary(
            member(whole, "total"),
            member(whole, "failed"),
            member(whole, "max_gap_ms"),
            member(whole, "first_failure"),
        ),
        Json::List(items) => {
            if items.len() == 4 {
                make_summary(Some(&items[0]), Some(&items[1]), Some(&items[2]), Some(&items[3]))
            } else {
                None
            }
        },
        _ => None,
    }
}

/// The summary that a line states, if it states one.
pub open spec fn line_summary(line: Seq<char>) -> Option<SummaryView> {
    match parsed_json(trimmed(line)) {
        Ok(document) => summary_in(document),
        Err(_) => None,
    }
}

/// The summary that the last of some lines states that states one.
pub open spec fn last_summary(rows: Seq<Seq<char>>) -> Option<SummaryView>
    decreases rows.len(),
{
    if rows.len() == 0 {
        None
    } else {
        match line_summary(rows.last()) {
            Some(summary) => Some(summary),
            None => last_summary(rows.drop_last()),
        }
    }
}

impl Summary {
    /// The last summary of a log: summaries add up, so it covers the whole run.
    pub fn from_logs(logs: &str) -> (result: Option<Summary>)
        ensures
            match result {
                Some(summary) => last_summary(lines_of(logs@)) == Some(summary@),
                None => last_summary(lines_of(logs@)) is None,
            },
    {
        let rows = lines(logs);
        let ghost all = lines_of(logs@);
        let mut index: usize = rows.len();
        assert(views(rows@) == all && views(rows@).len() == rows@.len());
        assert(all.take(rows.len() as int) =~= all);
        while index > 0
            invariant
                index <= rows.len(),
                views(rows@) == all,
                rows@.len() == all.len(),
                all == lines_of(logs@),
                last_summary(all) == last_summary(all.take(index as int)),
            decreases index,
        {
            assert(all.take(index as int).drop_last() =~= all.take(index - 1));
            assert(views(rows@)[index - 1] == rows@[index - 1]@);
            assert(all.take(index as int).last() == rows@[index - 1]@);
            match parse_json(trim(rows[index - 1].as_str())) {
                Ok(document) => match read_summary(&document) {
                    Some(summary) => return Some(summary),
                    None => {},
                },
                Err(_) => {},
            }
            index = index - 1;
        }
        None
    }

    /// The line that states the summary.
    pub fn to_line(&self) -> (result: String)
        ensures
            result@ == object_text(summary_members(self@)),
            parsed_json(result@) is Ok,
            summary_in(parsed_json(result@)->Ok_0) == Some(self@),
    {
        let members: Vec<PlainMember> = vec![
            PlainMember { name: "total".to_owned(), value: PlainValue::Number(self.total) },
            PlainMember { name: "failed".to_owned(), value: PlainValue::Number(self.failed) },
            PlainMember {
                name: "max_gap_ms".to_owned(),
                value: PlainValue::Number(self.max_gap_ms),
            },
            PlainMember {
                name: "first_failure".to_owned(),
                value: PlainValue::Text(self.first_failure.clone()),
            },
        ];
        proof {
            reveal_strlit("total");
            reveal_strlit("failed");
            reveal_strlit("max_gap_ms");
            reveal_strlit("first_failure");
            assert("total"@.len() == 5 && "failed"@.len() == 6 && "max_gap_ms"@.len() == 10
                && "first_failure"@.len() == 13);
            assert(members@[0].name@ == "total"@ && members@[1].name@ == "failed"@
                && members@[2].name@ == "max_gap_ms"@ && members@[3].name@ == "first_failure"@);
            assert(plain_members(members@) =~= summary_members(self@));
        }
        let line = write_plain(&members);
        proof {
            let document = parsed_json(line@)->Ok_0;
            assert(member_of(document, members@[0].name@) == plain_said(members@[0].value));
            assert(member_of(document, members@[1].name@) == plain_said(members@[1].value));
            assert(member_of(document, members@[2].name@) == plain_said(members@[2].value));
            assert(member_of(document, members@[3].name@) == plain_said(members@[3].value));
        }
        line
    }
}

/// A line that states a summary is read back from the log it was written to, whatever stands before
/// it, and whatever comes after it that states none.
pub proof fn the_last_summary_is_read_back(
    before: Seq<Seq<char>>,
    line: Seq<char>,
    after: Seq<Seq<char>>,
    summary: SummaryView,
)
    requires
        line == object_text(summary_members(summary)),
        parsed_json(line) is Ok,
        summary_in(parsed_json(line)->Ok_0) == Some(summary),
        forall|i: int| 0 <= i < after.len() ==> line_summary(#[trigger] after[i]) is None,
    ensures
        last_summary(before.push(line) + after) == Some(summary),
    decreases after.len(),
{
    let rows = before.push(line) + after;
    if after.len() == 0 {
        reveal_strlit("{");
        reveal_strlit("}");
        assert(line[0] == '{' && line.last() == '}');
        crate::text::lemma_nothing_to_trim(line);
        assert(rows =~= before.push(line));
    } else {
        assert(rows.last() == after[after.len() - 1]);
        assert(rows.drop_last() =~= before.push(line) + after.drop_last());
        assert forall|i: int| 0 <= i < after.drop_last().len() implies line_summary(
            #[trigger] after.drop_last()[i],
        ) is None by {
            assert(after.drop_last()[i] == after[i]);
        }
        the_last_summary_is_read_back(before, line, after.drop_last(), summary);
    }
}

// ----- counting -----

/// Why a response does not count as one, if it does not.
pub open spec fn body_error(body: Seq<u8>) -> Option<Seq<char>> {
    if !valid_utf8(body) {
        Some("response body is not UTF-8"@)
    } else if trimmed(decode_utf8(body)).len() == 0 {
        Some("empty response body"@)
    } else {
        None
    }
}

/// Whether a response counts as one: it says something.
pub fn judge_body(body: &Vec<u8>) -> (result: Result<(), String>)
    ensures
        match result {
            Ok(_) => body_error(body@) is None,
            Err(message) => body_error(body@) == Some(message@),
        },
{
    match read_utf8(body.as_slice()) {
        Some(text) => {
            proof {
                vstd::utf8::encode_utf8_valid_utf8(text@);
                vstd::utf8::encode_utf8_decode_utf8(text@);
            }
            if trim(text.as_str()).unicode_len() == 0 {
                Err(String::from_str("empty response body"))
            } else {
                Ok(())
            }
        },
        None => Err(String::from_str("response body is not UTF-8")),
    }
}

/// A probe under way. Times are nanoseconds since some moment.
pub struct Probe {
    pub total: u64,
    pub failed: u64,
    pub first_failure: String,
    /// When the last response came.
    pub last_ok: u64,
    /// The longest time between two responses.
    pub max_gap: u64,
    /// When the last summary was written.
    pub last_summary: u64,
}

/// A probe under way.
#[verifier::ext_equal]
pub struct ProbeView {
    pub total: u64,
    pub failed: u64,
    pub first_failure: Seq<char>,
    pub last_ok: u64,
    pub max_gap: u64,
    pub last_summary: u64,
}

impl View for Probe {
    type V = ProbeView;

    open spec fn view(&self) -> ProbeView {
        ProbeView {
            total: self.total,
            failed: self.failed,
            first_failure: self.first_failure@,
            last_ok: self.last_ok,
            max_gap: self.max_gap,
            last_summary: self.last_summary,
        }
    }
}

/// The longer of two times.
pub open spec fn longer(left: int, right: int) -> u64 {
    if left >= right {
        left as u64
    } else {
        right as u64
    }
}

/// A probe after one more request, of which this is known at this time.
pub open spec fn counted(probe: ProbeView, failure: Option<Seq<char>>, now: u64) -> ProbeView {
    let total = (probe.total + 1) as u64;
    match failure {
        None => ProbeView {
            total,
            max_gap: longer(probe.max_gap as int, now - probe.last_ok),
            last_ok: now,
            ..probe
        },
        Some(error) => ProbeView {
            total,
            failed: (probe.failed + 1) as u64,
            first_failure: if probe.first_failure.len() == 0 {
                "request "@ + decimal_digits(total as nat) + ": "@ + error
            } else {
                probe.first_failure
            },
            ..probe
        },
    }
}

/// What a probe has seen by a time. A stall that is still open counts.
pub open spec fn summary_at(probe: ProbeView, now: u64) -> SummaryView {
    SummaryView {
        total: probe.total,
        failed: probe.failed,
        max_gap_ms: longer(probe.max_gap as int, now - probe.last_ok) / 1_000_000,
        first_failure: probe.first_failure,
    }
}

/// Whether a probe counts right: no more failures than requests, and the first is on record.
pub open spec fn probe_wf(probe: ProbeView) -> bool {
    probe.failed <= probe.total && (probe.failed == 0 <==> probe.first_failure.len() == 0)
}

impl Probe {
    /// A probe that starts at a time.
    pub fn new(now: u64) -> (result: Probe)
        ensures
            result@ == (ProbeView {
                total: 0,
                failed: 0,
                first_failure: Seq::empty(),
                last_ok: now,
                max_gap: 0,
                last_summary: now,
            }),
            probe_wf(result@),
    {
        let first_failure = String::new();
        assert(first_failure@ =~= Seq::<char>::empty());
        Probe { total: 0, failed: 0, first_failure, last_ok: now, max_gap: 0, last_summary: now }
    }

    /// Counts a request, by what came of it at a time.
    pub fn count(&mut self, outcome: Result<(), String>, now: u64)
        requires
            old(self).total < u64::MAX,
            old(self).failed < u64::MAX,
            now >= old(self).last_ok,
        ensures
            final(self)@ == counted(
                old(self)@,
                match outcome {
                    Ok(_) => None,
                    Err(error) => Some(error@),
                },
                now,
            ),
    {
        self.total = self.total + 1;
        match outcome {
            Ok(_) => {
                let gap: u64 = now - self.last_ok;
                if gap > self.max_gap {
                    self.max_gap = gap;
                }
                self.last_ok = now;
            },
            Err(error) => {
                self.failed = self.failed + 1;
                if self.first_failure.as_str().unicode_len() == 0 {
                    let mut text = String::from_str("request ");
                    text.append(decimal(self.total).as_str());
                    text.append(": ");
                    text.append(error.as_str());
                    self.first_failure = text;
                }
            },
        }
    }

    /// The summary to write at a time; none where the last is too recent.
    pub fn summarize(&mut self, now: u64) -> (result: Option<Summary>)
        requires
            now >= old(self).last_ok,
            now >= old(self).last_summary,
        ensures
            match result {
                Some(summary) => now - old(self).last_summary >= SUMMARY_EVERY_NANOS && summary@
                    == summary_at(old(self)@, now) && final(self)@ == (ProbeView {
                    last_summary: now,
                    ..old(self)@
                }),
                None => now - old(self).last_summary < SUMMARY_EVERY_NANOS && final(self)@ == old(
                    self,
                )@,
            },
    {
        if now - self.last_summary < SUMMARY_EVERY_NANOS {
            return None;
        }
        self.last_summary = now;
        let open: u64 = now - self.last_ok;
        let gap: u64 = if open > self.max_gap {
            open
        } else {
            self.max_gap
        };
        Some(
            Summary {
                total: self.total,
                failed: self.failed,
                max_gap_ms: gap / 1_000_000,
                first_failure: self.first_failure.clone(),
            },
        )
    }
}

/// A probe adds up: another request counts once, is never forgotten, and neither shortens the
/// longest gap nor replaces the first failure.
pub proof fn probes_add_up(probe: ProbeView, failure: Option<Seq<char>>, now: u64)
    requires
        probe_wf(probe),
        probe.total < u64::MAX,
        now >= probe.last_ok,
    ensures
        probe_wf(counted(probe, failure, now)),
        counted(probe, failure, now).total == probe.total + 1,
        counted(probe, failure, now).failed >= probe.failed,
        counted(probe, failure, now).max_gap >= probe.max_gap,
        probe.failed > 0 ==> counted(probe, failure, now).first_failure == probe.first_failure,
{
    match failure {
        None => {},
        Some(error) => {
            if probe.first_failure.len() == 0 {
                reveal_strlit("request ");
                let head = "request "@ + decimal_digits((probe.total + 1) as nat);
                assert(counted(probe, failure, now).first_failure.len() >= "request "@.len());
            }
        },
    }
}

/// A response counts unless it is not text or holds nothing but blanks.
pub proof fn responses_say_something(body: Seq<u8>)
    ensures
        body_error(body) is None <==> valid_utf8(body) && exists|i: int|
            0 <= i < decode_utf8(body).len() && !is_blank(#[trigger] decode_utf8(body)[i]),
        !valid_utf8(body) ==> body_error(body) == Some("response body is not UTF-8"@),
        valid_utf8(body) && body_error(body) is Some ==> body_error(body) == Some(
            "empty response body"@,
        ),
{
    let bounds = trimming_drops_outer_blanks_only(decode_utf8(body));
}

/// A response at a time lengthens the longest gap to the time since the response before it, where that
/// is longer, and to nothing else; it is then the last response, and no failure is counted or
/// forgotten.
pub proof fn a_response_closes_a_gap(probe: ProbeView, now: u64)
    requires
        probe.total < u64::MAX,
        now >= probe.last_ok,
    ensures
        ({
            let after = counted(probe, None, now);
            &&& after.max_gap >= now - probe.last_ok
            &&& after.max_gap >= probe.max_gap
            &&& after.max_gap == now - probe.last_ok || after.max_gap == probe.max_gap
            &&& after.last_ok == now
            &&& after.total == probe.total + 1
            &&& after.failed == probe.failed
            &&& after.first_failure == probe.first_failure
            &&& after.last_summary == probe.last_summary
        }),
{
}

/// A failure is counted, is put on record where it is the first, and leaves the gap that is open as it
/// is.
pub proof fn a_failure_keeps_the_gap_open(probe: ProbeView, error: Seq<char>, now: u64)
    requires
        probe.total < u64::MAX,
        probe.failed < u64::MAX,
    ensures
        ({
            let after = counted(probe, Some(error), now);
            &&& after.total == probe.total + 1
            &&& after.failed == probe.failed + 1
            &&& after.last_ok == probe.last_ok
            &&& after.max_gap == probe.max_gap
            &&& after.last_summary == probe.last_summary
            &&& probe.first_failure.len() > 0 ==> after.first_failure == probe.first_failure
            &&& probe.first_failure.len() == 0 ==> after.first_failure == "request "@
                + decimal_digits((probe.total + 1) as nat) + ": "@ + error
        }),
{
}

/// One request: why it failed, if it did, and when that was known.
pub struct Attempt {
    pub failure: Option<Seq<char>>,
    pub at: u64,
}

/// A probe after some requests, one after the other.
pub open spec fn after_attempts(probe: ProbeView, attempts: Seq<Attempt>) -> ProbeView
    decreases attempts.len(),
{
    if attempts.len() == 0 {
        probe
    } else {
        counted(
            after_attempts(probe, attempts.drop_last()),
            attempts.last().failure,
            attempts.last().at,
        )
    }
}

/// Whether requests come one after the other, none before a time.
pub open spec fn in_order(attempts: Seq<Attempt>, start: u64) -> bool {
    &&& forall|i: int| 0 <= i < attempts.len() ==> (#[trigger] attempts[i]).at >= start
    &&& forall|i: int, j: int|
        0 <= i <= j < attempts.len() ==> (#[trigger] attempts[i]).at <= (#[trigger] attempts[j]).at
}

/// Whether the response to one request is the next after that to another, with failures only in
/// between.
pub open spec fn are_consecutive(attempts: Seq<Attempt>, earlier: int, later: int) -> bool {
    &&& 0 <= earlier < later < attempts.len()
    &&& attempts[earlier].failure is None
    &&& attempts[later].failure is None
    &&& forall|k: int| earlier < k < later ==> (#[trigger] attempts[k]).failure is Some
}

proof fn lemma_attempts(probe: ProbeView, attempts: Seq<Attempt>)
    requires
        in_order(attempts, probe.last_ok),
        probe.total + attempts.len() <= u64::MAX,
        probe.failed + attempts.len() <= u64::MAX,
    ensures
        ({
            let after = after_attempts(probe, attempts);
            &&& after.total == probe.total + attempts.len()
            &&& after.failed == probe.failed + attempts.filter(
                |attempt: Attempt| attempt.failure is Some,
            ).len()
            &&& attempts.filter(|attempt: Attempt| attempt.failure is Some).len() <= attempts.len()
            &&& after.max_gap >= probe.max_gap
            &&& after.last_ok >= probe.last_ok
            &&& attempts.len() > 0 ==> after.last_ok <= attempts.last().at
            &&& forall|i: int|
                0 <= i < attempts.len() && (#[trigger] attempts[i]).failure is None && (forall|k: int|
                    i < k < attempts.len() ==> (#[trigger] attempts[k]).failure is Some)
                    ==> after.last_ok == attempts[i].at
            &&& (forall|i: int| 0 <= i < attempts.len() ==> (#[trigger] attempts[i]).failure is Some)
                ==> after.last_ok == probe.last_ok
        }),
    decreases attempts.len(),
{
    let failed = |attempt: Attempt| attempt.failure is Some;
    reveal(Seq::filter);
    if attempts.len() > 0 {
        let before = attempts.drop_last();
        let last = attempts.last();
        assert forall|i: int| 0 <= i < before.len() implies before[i] == attempts[i] by {}
        assert(last == attempts[attempts.len() - 1]);
        lemma_attempts(probe, before);
        lemma_filter_push(before, last, failed);
        assert(before.push(last) =~= attempts);
        if before.len() > 0 {
            assert(before.last() == attempts[before.len() - 1]);
        }
        let after = after_attempts(probe, attempts);
        assert forall|i: int|
            0 <= i < attempts.len() && (#[trigger] attempts[i]).failure is None && (forall|k: int|
                i < k < attempts.len() ==> (#[trigger] attempts[k]).failure is Some) implies after.last_ok
            == attempts[i].at by {
            if i < before.len() {
                assert(attempts[attempts.len() - 1].failure is Some);
                assert(before[i].failure is None);
                assert forall|k: int| i < k < before.len() implies (#[trigger] before[k]).failure is Some by {
                    assert(attempts[k].failure is Some);
                }
            }
        }
        if forall|i: int| 0 <= i < attempts.len() ==> (#[trigger] attempts[i]).failure is Some {
            assert(attempts[attempts.len() - 1].failure is Some);
            assert forall|i: int| 0 <= i < before.len() implies (#[trigger] before[i]).failure is Some by {
                assert(attempts[i].failure is Some);
            }
        }
    }
}

/// A probe counts every request and every failure once.
pub proof fn every_attempt_is_counted(probe: ProbeView, attempts: Seq<Attempt>)
    requires
        in_order(attempts, probe.last_ok),
        probe.total + attempts.len() <= u64::MAX,
        probe.failed + attempts.len() <= u64::MAX,
    ensures
        after_attempts(probe, attempts).total == probe.total + attempts.len(),
        after_attempts(probe, attempts).failed == probe.failed + attempts.filter(
            |attempt: Attempt| attempt.failure is Some,
        ).len(),
{
    lemma_attempts(probe, attempts);
}

/// No gap is lost: every summary states at least the milliseconds between any two consecutive
/// responses that were counted, between the start and the first of them, and between the last of them
/// and the time of the summary.
pub proof fn every_gap_is_in_the_summary(
    probe: ProbeView,
    attempts: Seq<Attempt>,
    earlier: int,
    later: int,
    now: u64,
)
    requires
        in_order(attempts, probe.last_ok),
        probe.total + attempts.len() <= u64::MAX,
        probe.failed + attempts.len() <= u64::MAX,
        forall|i: int| 0 <= i < attempts.len() ==> (#[trigger] attempts[i]).at <= now,
        probe.last_ok <= now,
    ensures
        are_consecutive(attempts, earlier, later) ==> summary_at(
            after_attempts(probe, attempts),
            now,
        ).max_gap_ms >= (attempts[later].at - attempts[earlier].at) / 1_000_000,
        are_consecutive(attempts, earlier, later) ==> after_attempts(probe, attempts).max_gap
            >= attempts[later].at - attempts[earlier].at,
        0 <= later < attempts.len() && attempts[later].failure is None && (forall|k: int|
            0 <= k < later ==> (#[trigger] attempts[k]).failure is Some) ==> summary_at(
            after_attempts(probe, attempts),
            now,
        ).max_gap_ms >= (attempts[later].at - probe.last_ok) / 1_000_000,
        0 <= later < attempts.len() && attempts[later].failure is None && (forall|k: int|
            later < k < attempts.len() ==> (#[trigger] attempts[k]).failure is Some) ==> summary_at(
            after_attempts(probe, attempts),
            now,
        ).max_gap_ms >= (now - attempts[later].at) / 1_000_000,
{
    lemma_attempts(probe, attempts);
    lemma_gap_held(probe, attempts, earlier, later);
}

proof fn lemma_gap_held(probe: ProbeView, attempts: Seq<Attempt>, earlier: int, later: int)
    requires
        in_order(attempts, probe.last_ok),
        probe.total + attempts.len() <= u64::MAX,
        probe.failed + attempts.len() <= u64::MAX,
    ensures
        are_consecutive(attempts, earlier, later) ==> after_attempts(probe, attempts).max_gap
            >= attempts[later].at - attempts[earlier].at,
        0 <= later < attempts.len() && attempts[later].failure is None && (forall|k: int|
            0 <= k < later ==> (#[trigger] attempts[k]).failure is Some) ==> after_attempts(
            probe,
            attempts,
        ).max_gap >= attempts[later].at - probe.last_ok,
    decreases attempts.len(),
{
    if attempts.len() > 0 {
        let before = attempts.drop_last();
        let last = attempts.last();
        assert forall|i: int| 0 <= i < before.len() implies before[i] == attempts[i] by {}
        lemma_attempts(probe, before);
        lemma_gap_held(probe, before, earlier, later);
        if before.len() > 0 {
            assert(before.last() == attempts[before.len() - 1]);
        }
        assert(last == attempts[attempts.len() - 1]);
        let wait = after_attempts(probe, before);
        assert(last.failure is None ==> counted(wait, last.failure, last.at).max_gap >= last.at
            - wait.last_ok);
        assert(counted(wait, last.failure, last.at).max_gap >= wait.max_gap);
        if later == before.len() {
            if are_consecutive(attempts, earlier, later) {
                assert(before[earlier].failure is None);
                assert forall|k: int| earlier < k < before.len() implies (
                #[trigger] before[k]).failure is Some by {
                    assert(attempts[k].failure is Some);
                }
                assert(wait.last_ok == before[earlier].at);
            }
            if forall|k: int| 0 <= k < later ==> (#[trigger] attempts[k]).failure is Some {
                assert forall|k: int| 0 <= k < before.len() implies (
                #[trigger] before[k]).failure is Some by {
                    assert(attempts[k].failure is Some);
                }
            }
        } else if 0 <= later < before.len() {
            if are_consecutive(attempts, earlier, later) {
                assert forall|k: int| earlier < k < later implies (
                #[trigger] before[k]).failure is Some by {
                    assert(attempts[k].failure is Some);
                }
                assert(are_consecutive(before, earlier, later));
            }
            if forall|k: int| 0 <= k < later ==> (#[trigger] attempts[k]).failure is Some {
                assert forall|k: int| 0 <= k < later implies (
                #[trigger] before[k]).failure is Some by {
                    assert(attempts[k].failure is Some);
                }
            }
        }
    }
}

/// A summary states what was counted, and the longest gap, the one that is still open too, in whole
/// milliseconds: neither less than a gap nor more than the longest.
pub proof fn a_summary_states_the_longest_gap(probe: ProbeView, now: u64)
    requires
        now >= probe.last_ok,
    ensures
        ({
            let summary = summary_at(probe, now);
            &&& summary.total == probe.total
            &&& summary.failed == probe.failed
            &&& summary.first_failure == probe.first_failure
            &&& summary.max_gap_ms >= probe.max_gap / 1_000_000
            &&& summary.max_gap_ms >= (now - probe.last_ok) / 1_000_000
            &&& summary.max_gap_ms == probe.max_gap / 1_000_000 || summary.max_gap_ms == (now
                - probe.last_ok) / 1_000_000
        }),
{
}

/// A summary is read from an object by the names of its members, and from a list of four by their
/// order; nothing else states one.
pub proof fn summaries_are_objects_or_lists_of_four(
    document: JsonView,
    items: Seq<JsonView>,
    summary: SummaryView,
    digits: (Seq<char>, Seq<char>, Seq<char>),
)
    ensures
        ({
            let total = JsonView::Number(Some(summary.total), digits.0);
            let failed = JsonView::Number(Some(summary.failed), digits.1);
            let gap = JsonView::Number(Some(summary.max_gap_ms), digits.2);
            let first = JsonView::Text(summary.first_failure);
            &&& summary_in(JsonView::List(seq![total, failed, gap, first])) == Some(summary)
            &&& document is Object && member_of(document, "total"@) == total && member_of(
                document,
                "failed"@,
            ) == failed && member_of(document, "max_gap_ms"@) == gap && member_of(
                document,
                "first_failure"@,
            ) == first ==> summary_in(document) == Some(summary)
        }),
        items.len() != 4 ==> summary_in(JsonView::List(items)) is None,
        summary_in(JsonView::List(items)) is Some ==> items[0] is Number && items[1] is Number
            && items[2] is Number && items[3] is Text,
        summary_in(document) is Some ==> document is Object || document is List,
{
}

} // verus!
