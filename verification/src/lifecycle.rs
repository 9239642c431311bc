//! The evidence that an update ran as one ordered transaction: an audit log, completion markers
//! and a receipt.

use crate::text::{
    contains, has_substring, holds, lines, lines_of, listed, pieces, quote_list, quoted, quoted_list,
    quoted_text, same, split_at_char, trim, trimmed, view_of, views,
};
use vstd::prelude::*;

verus! {

/// The phases that a transaction runs through, in order. Each requires the completion marker of
/// the one before it.
pub open spec fn sub_phases() -> Seq<Seq<char>> {
    seq![
        "preflight"@,
        "prepare"@,
        "pre-drain"@,
        "drain"@,
        "stop"@,
        "activate"@,
        "start"@,
        "verify"@,
    ]
}

/// The phases that a transaction runs through, in order.
pub fn lifecycle_sub_phases() -> (result: Vec<String>)
    ensures
        views(result@) == sub_phases(),
{
    listed(
        vec!["preflight", "prepare", "pre-drain", "drain", "stop", "activate", "start", "verify"],
    )
}

/// The marker that a phase leaves when it is complete.
pub open spec fn done_marker(phase: Seq<char>) -> Seq<char> {
    phase + ".done"@
}

/// The phases among some whose marker is not there, in order.
pub open spec fn unmarked(phases: Seq<Seq<char>>, markers: Seq<Seq<char>>) -> Seq<Seq<char>>
    decreases phases.len(),
{
    if phases.len() == 0 {
        Seq::empty()
    } else if markers.contains(done_marker(phases.last())) {
        unmarked(phases.drop_last(), markers)
    } else {
        unmarked(phases.drop_last(), markers).push(phases.last())
    }
}

/// The phases whose completion markers are missing, in order.
pub fn missing_sub_phase_markers(markers: &Vec<String>) -> (result: Vec<String>)
    ensures
        views(result@) == unmarked(sub_phases(), views(markers@)),
{
    let phases = lifecycle_sub_phases();
    let ghost all = views(phases@);
    let mut result: Vec<String> = Vec::new();
    let mut index: usize = 0;
    assert(views(result@) =~= unmarked(all.take(0), views(markers@)));
    while index < phases.len()
        invariant
            index <= phases.len(),
            all == views(phases@),
            views(result@) == unmarked(all.take(index as int), views(markers@)),
        decreases phases.len() - index,
    {
        assert(all.take(index + 1).drop_last() =~= all.take(index as int));
        let ghost before = result@;
        let mut marker = phases[index].clone();
        marker.append(".done");
        if !holds(markers, marker.as_str()) {
            let phase = phases[index].clone();
            result.push(phase);
            assert(views(result@) =~= views(before).push(phase@));
        }
        index = index + 1;
    }
    assert(all.take(phases.len() as int) =~= all);
    result
}

proof fn lemma_unmarked(phases: Seq<Seq<char>>, markers: Seq<Seq<char>>)
    ensures
        unmarked(phases, markers).len() == 0 <==> forall|i: int|
            0 <= i < phases.len() ==> markers.contains(done_marker(#[trigger] phases[i])),
    decreases phases.len(),
{
    if phases.len() > 0 {
        let rest = phases.drop_last();
        lemma_unmarked(rest, markers);
        if unmarked(phases, markers).len() == 0 {
            assert forall|i: int| 0 <= i < phases.len() implies markers.contains(
                done_marker(#[trigger] phases[i]),
            ) by {
                if i < rest.len() {
                    assert(phases[i] == rest[i]);
                }
            }
        }
        if forall|i: int|
            0 <= i < phases.len() ==> markers.contains(done_marker(#[trigger] phases[i])) {
            assert forall|i: int| 0 <= i < rest.len() implies markers.contains(
                done_marker(#[trigger] rest[i]),
            ) by {
                assert(rest[i] == phases[i]);
            }
            assert(markers.contains(done_marker(phases[phases.len() - 1])));
        }
    }
}

/// No phase is missing exactly when the marker of every phase is there, whatever else is.
pub proof fn nothing_is_missing_when_every_marker_is_there(markers: Seq<Seq<char>>)
    ensures
        unmarked(sub_phases(), markers).len() == 0 <==> forall|i: int|
            0 <= i < sub_phases().len() ==> markers.contains(done_marker(#[trigger] sub_phases()[i])),
{
    lemma_unmarked(sub_phases(), markers);
}

/// The lines of a listing, trimmed, without the blank ones.
pub open spec fn listing(rows: Seq<Seq<char>>) -> Seq<Seq<char>>
    decreases rows.len(),
{
    if rows.len() == 0 {
        Seq::empty()
    } else if trimmed(rows.last()).len() == 0 {
        listing(rows.drop_last())
    } else {
        listing(rows.drop_last()).push(trimmed(rows.last()))
    }
}

/// The completion markers that a listing of an attempt's directory shows.
pub fn lifecycle_attempt_markers(output: &str) -> (result: Vec<String>)
    ensures
        views(result@) == listing(lines_of(output@)),
{
    let rows = lines(output);
    let ghost all = views(rows@);
    let mut result: Vec<String> = Vec::new();
    let mut index: usize = 0;
    assert(views(result@) =~= listing(all.take(0)));
    while index < rows.len()
        invariant
            index <= rows.len(),
            all == views(rows@),
            views(result@) == listing(all.take(index as int)),
        decreases rows.len() - index,
    {
        assert(all.take(index + 1).drop_last() =~= all.take(index as int));
        let ghost before = result@;
        let name = trim(rows[index].as_str());
        if name.unicode_len() > 0 {
            let marker = name.to_owned();
            result.push(marker);
            assert(views(result@) =~= views(before).push(marker@));
        }
        index = index + 1;
    }
    assert(all.take(rows.len() as int) =~= all);
    result
}

// ----- the audit log -----

/// The attempt that a line of the audit log completes: one that runs `operation` under an attempt
/// that is not reserved. A line is an operation, an attempt and an event, separated by tabs.
pub open spec fn completed_attempt(
    line: Seq<char>,
    operation: Seq<char>,
    reserved: Seq<Seq<char>>,
) -> Option<Seq<char>> {
    let fields = pieces(line, '\t');
    if fields.len() >= 3 && fields[0] == operation && fields[2] == "completed"@
        && !reserved.contains(fields[1]) {
        Some(fields[1])
    } else {
        None
    }
}

/// The attempt that the last of some lines completes that completes one.
pub open spec fn last_completed(
    rows: Seq<Seq<char>>,
    operation: Seq<char>,
    reserved: Seq<Seq<char>>,
) -> Option<Seq<char>>
    decreases rows.len(),
{
    if rows.len() == 0 {
        None
    } else {
        match completed_attempt(rows.last(), operation, reserved) {
            Some(attempt) => Some(attempt),
            None => last_completed(rows.drop_last(), operation, reserved),
        }
    }
}

/// The newest transaction that an audit log shows as complete.
pub fn newest_transaction(audit: &str, operation: &str, reserved: &Vec<String>) -> (result: Option<
    String,
>)
    ensures
        view_of(result) == last_completed(lines_of(audit@), operation@, views(reserved@)),
{
    let rows = lines(audit);
    let ghost all = views(rows@);
    let mut index: usize = rows.len();
    assert(all.take(rows.len() as int) =~= all);
    while index > 0
        invariant
            index <= rows.len(),
            all == views(rows@),
            all == lines_of(audit@),
            last_completed(all, operation@, views(reserved@)) == last_completed(
                all.take(index as int),
                operation@,
                views(reserved@),
            ),
        decreases index,
    {
        assert(all.take(index as int).drop_last() =~= all.take(index - 1));
        assert(all.take(index as int).last() == rows@[index - 1]@);
        let fields = split_at_char(rows[index - 1].as_str(), '\t');
        if fields.len() >= 3 {
            assert(views(fields@)[0] == fields@[0]@);
            assert(views(fields@)[1] == fields@[1]@);
            assert(views(fields@)[2] == fields@[2]@);
            if same(fields[0].as_str(), operation) && same(fields[2].as_str(), "completed")
                && !holds(reserved, fields[1].as_str()) {
                return Some(fields[1].clone());
            }
        }
        index = index - 1;
    }
    None
}

/// Lines that complete no transaction do not change which one is the newest: observations after
/// a transaction never displace it.
pub proof fn observations_displace_no_transaction(
    rows: Seq<Seq<char>>,
    line: Seq<char>,
    operation: Seq<char>,
    reserved: Seq<Seq<char>>,
)
    ensures
        last_completed(rows.push(line), operation, reserved) == (match completed_attempt(
            line,
            operation,
            reserved,
        ) {
            Some(attempt) => Some(attempt),
            None => last_completed(rows, operation, reserved),
        }),
{
    assert(rows.push(line).drop_last() =~= rows);
}

// ----- the verdicts -----

/// Whether a transaction ran all its phases.
pub fn check_markers(attempt: &str, markers: &Vec<String>) -> (result: Result<(), String>)
    ensures
        match result {
            Ok(_) => unmarked(sub_phases(), views(markers@)).len() == 0,
            Err(message) => unmarked(sub_phases(), views(markers@)).len() > 0 && message@
                == "lifecycle transaction "@ + attempt@
                + " completed without its ordered sub-phases: missing "@ + quoted_list(
                unmarked(sub_phases(), views(markers@)),
            ),
        },
{
    let missing = missing_sub_phase_markers(markers);
    if missing.len() == 0 {
        assert(views(missing@).len() == 0);
        return Ok(());
    }
    assert(views(missing@).len() > 0);
    let mut message = String::from_str("lifecycle transaction ");
    message.append(attempt);
    message.append(" completed without its ordered sub-phases: missing ");
    message.append(quote_list(&missing).as_str());
    Err(message)
}

/// Whether a receipt is for the release of a version.
pub fn check_receipt(receipt: &str, version: &str) -> (result: Result<(), String>)
    ensures
        match result {
            Ok(_) => has_substring(receipt@, "green release "@ + version@),
            Err(message) => !has_substring(receipt@, "green release "@ + version@) && message@
                == "missing lifecycle audit receipt: "@ + quoted_text(receipt@),
        },
{
    let mut expected = String::from_str("green release ");
    expected.append(version);
    if contains(receipt, expected.as_str()) {
        return Ok(());
    }
    let mut message = String::from_str("missing lifecycle audit receipt: ");
    message.append(quoted(receipt).as_str());
    Err(message)
}

/// A phase is missing exactly when it is one of those that are due and its marker is not there.
pub proof fn missing_phases_are_unmarked(
    phases: Seq<Seq<char>>,
    markers: Seq<Seq<char>>,
    phase: Seq<char>,
)
    ensures
        unmarked(phases, markers).contains(phase) <==> phases.contains(phase) && !markers.contains(
            phase + ".done"@,
        ),
    decreases phases.len(),
{
    if phases.len() > 0 {
        let before = phases.drop_last();
        missing_phases_are_unmarked(before, markers, phase);
        crate::text::appending_adds_one_text(before, phases.last(), phase);
        crate::text::appending_adds_one_text(unmarked(before, markers), phases.last(), phase);
        assert(phases =~= before.push(phases.last()));
    }
}

/// A transaction drains before it stops, stops before it activates, starts what it activated, and
/// verifies last of all.
pub proof fn phases_run_in_order()
    ensures
        sub_phases().len() == 8,
        sub_phases()[0] == "preflight"@,
        sub_phases()[1] == "prepare"@,
        sub_phases()[2] == "pre-drain"@,
        sub_phases()[3] == "drain"@,
        sub_phases()[4] == "stop"@,
        sub_phases()[5] == "activate"@,
        sub_phases()[6] == "start"@,
        sub_phases()[7] == "verify"@,
{
}

/// A listing holds the rows that say something, without the blanks around them, in order.
pub proof fn listings_hold_what_rows_say(rows: Seq<Seq<char>>, row: Seq<char>)
    ensures
        listing(Seq::<Seq<char>>::empty()).len() == 0,
        (forall|i: int| 0 <= i < row.len() ==> crate::text::is_blank(#[trigger] row[i])) ==> listing(
            rows.push(row),
        ) == listing(rows),
        (exists|i: int| 0 <= i < row.len() && !crate::text::is_blank(#[trigger] row[i])) ==> listing(
            rows.push(row),
        ) == listing(rows).push(trimmed(row)),
{
    assert(rows.push(row).drop_last() =~= rows);
    let bounds = crate::text::trimming_drops_outer_blanks_only(row);
}

/// A line of three fields completes its attempt exactly when it is of the operation, its event is
/// `completed`, and the attempt is not reserved; a line of fewer fields completes none.
pub proof fn lines_complete_their_own_attempt(
    first: Seq<char>,
    attempt: Seq<char>,
    event: Seq<char>,
    operation: Seq<char>,
    reserved: Seq<Seq<char>>,
)
    requires
        crate::text::is_without(first, '\t'),
        crate::text::is_without(attempt, '\t'),
        crate::text::is_without(event, '\t'),
    ensures
        ({
            let line = first + seq!['\t'] + (attempt + seq!['\t'] + event);
            let found = completed_attempt(line, operation, reserved);
            &&& found is Some <==> first == operation && event == "completed"@ && !reserved.contains(
                attempt,
            )
            &&& found is Some ==> found == Some(attempt)
        }),
        completed_attempt(first + seq!['\t'] + attempt, operation, reserved) is None,
        completed_attempt(first, operation, reserved) is None,
{
    crate::text::lemma_divided(first, '\t', attempt + seq!['\t'] + event);
    crate::text::lemma_divided(attempt, '\t', event);
    crate::text::lemma_divided(event, '\t', event);
    crate::text::lemma_divided(first, '\t', attempt);
    let line = first + seq!['\t'] + (attempt + seq!['\t'] + event);
    assert(pieces(line, '\t') =~= seq![first, attempt, event]);
    assert(pieces(first + seq!['\t'] + attempt, '\t') =~= seq![first, attempt]);
}

} // verus!
