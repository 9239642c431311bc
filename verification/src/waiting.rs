//! Bounded waits.

use crate::text::{decimal, decimal_digits};
use vstd::prelude::*;

verus! {

/// The last error of a wait as its message ends with it; nothing where the last look found none.
pub open spec fn error_suffix(last: Seq<char>) -> Seq<char> {
    if last.len() == 0 {
        Seq::empty()
    } else {
        "; last error: "@ + last
    }
}

/// The last error of a wait as its message ends with it.
pub fn write_error_suffix(last: &str) -> (result: String)
    ensures
        result@ == error_suffix(last@),
{
    if last.unicode_len() == 0 {
        let empty = String::new();
        assert(empty@ =~= Seq::<char>::empty());
        empty
    } else {
        let mut suffix = String::from_str("; last error: ");
        suffix.append(last);
        suffix
    }
}

/// A wait for something, with one look a second.
pub struct Wait {
    pub what: String,
    pub seconds: usize,
    /// The looks so far.
    pub second: usize,
    /// The error of the last look; empty where it had none.
    pub last: String,
}

/// A wait for something, with one look a second.
#[verifier::ext_equal]
pub struct WaitView {
    pub what: Seq<char>,
    pub seconds: nat,
    pub second: nat,
    pub last: Seq<char>,
}

impl View for Wait {
    type V = WaitView;

    open spec fn view(&self) -> WaitView {
        WaitView {
            what: self.what@,
            seconds: self.seconds as nat,
            second: self.second as nat,
            last: self.last@,
        }
    }
}

/// A wait after one more look. A look that fails decides nothing: its error is kept only until the
/// next look.
pub open spec fn looked(wait: WaitView, outcome: Result<bool, Seq<char>>) -> WaitView {
    WaitView {
        second: wait.second + 1,
        last: match outcome {
            Ok(_) => Seq::empty(),
            Err(error) => error,
        },
        ..wait
    }
}

/// The outcome of a look.
pub open spec fn outcome_view(outcome: Result<bool, String>) -> Result<bool, Seq<char>> {
    match outcome {
        Ok(holds) => Ok(holds),
        Err(error) => Err(error@),
    }
}

/// The notice at a look that did not end a wait: one every fifteen seconds, not at the first.
pub open spec fn wait_notice(wait: WaitView) -> Option<Seq<char>> {
    if wait.second % 15 == 0 && wait.second > 0 {
        Some(
            "waiting for "@ + wait.what + " ("@ + decimal_digits(wait.second) + "/"@
                + decimal_digits(wait.seconds) + "s)"@,
        )
    } else {
        None
    }
}

/// What a look comes to.
pub enum Look {
    /// What was waited for holds.
    Done,
    /// It does not hold yet; with a notice now and again.
    Again(Option<String>),
}

impl Wait {
    /// A wait of so many seconds.
    pub fn new(seconds: usize, what: &str) -> (result: Wait)
        ensures
            result@ == (WaitView {
                what: what@,
                seconds: seconds as nat,
                second: 0,
                last: Seq::empty(),
            }),
    {
        let last = String::new();
        assert(last@ =~= Seq::<char>::empty());
        Wait { what: what.to_owned(), seconds, second: 0, last }
    }

    /// Whether the wait has run out.
    pub fn is_over(&self) -> (result: bool)
        ensures
            result == (self@.second >= self@.seconds),
    {
        self.second >= self.seconds
    }

    /// Takes the outcome of a look.
    pub fn look(&mut self, outcome: Result<bool, String>) -> (result: Look)
        requires
            old(self)@.second < old(self)@.seconds,
        ensures
            outcome == Ok::<bool, String>(true) ==> result is Done && final(self)@ == old(self)@,
            outcome != Ok::<bool, String>(true) ==> {
                &&& result is Again
                &&& crate::text::view_of(result->Again_0) == wait_notice(old(self)@)
                &&& final(self)@ == looked(old(self)@, outcome_view(outcome))
            },
    {
        let last = match outcome {
            Ok(holds) => {
                if holds {
                    return Look::Done;
                }
                let empty = String::new();
                assert(empty@ =~= Seq::<char>::empty());
                empty
            },
            Err(error) => error,
        };
        let notice = if self.second % 15 == 0 && self.second > 0 {
            let mut text = String::from_str("waiting for ");
            text.append(self.what.as_str());
            text.append(" (");
            text.append(decimal(self.second as u64).as_str());
            text.append("/");
            text.append(decimal(self.seconds as u64).as_str());
            text.append("s)");
            Some(text)
        } else {
            None
        };
        self.last = last;
        self.second = self.second + 1;
        Look::Again(notice)
    }

    /// The message of a wait that has run out.
    pub fn timeout_message(&self) -> (result: String)
        ensures
            result@ == timeout_text(self@),
    {
        let mut message = String::from_str("timed out after ");
        message.append(decimal(self.seconds as u64).as_str());
        message.append("s waiting for ");
        message.append(self.what.as_str());
        message.append(write_error_suffix(self.last.as_str()).as_str());
        message
    }
}

/// The message of a wait that has run out.
pub open spec fn timeout_text(wait: WaitView) -> Seq<char> {
    "timed out after "@ + decimal_digits(wait.seconds) + "s waiting for "@ + wait.what
        + error_suffix(wait.last)
}

/// A wait after a run of looks.
pub open spec fn after_looks(wait: WaitView, outcomes: Seq<Result<bool, Seq<char>>>) -> WaitView
    decreases outcomes.len(),
{
    if outcomes.len() == 0 {
        wait
    } else {
        looked(after_looks(wait, outcomes.drop_last()), outcomes.last())
    }
}

/// A wait runs out after exactly as many looks as it has seconds, and reports the error of the last
/// look alone.
pub proof fn waits_are_bounded(wait: WaitView, outcomes: Seq<Result<bool, Seq<char>>>)
    ensures
        after_looks(wait, outcomes).second == wait.second + outcomes.len(),
        after_looks(wait, outcomes).seconds == wait.seconds,
        after_looks(wait, outcomes).what == wait.what,
        outcomes.len() > 0 ==> after_looks(wait, outcomes).last == (match outcomes.last() {
            Ok(_) => Seq::empty(),
            Err(error) => error,
        }),
    decreases outcomes.len(),
{
    if outcomes.len() > 0 {
        waits_are_bounded(wait, outcomes.drop_last());
    }
}

// ----- what a fleet that did not converge is reported as -----

/// A node that lags, as a message lists it.
pub open spec fn lag_text(
    node: Seq<char>,
    healthy: bool,
    version: Option<Seq<char>>,
    group: Option<Seq<char>>,
) -> Seq<char> {
    node + "={healthy:"@ + (if healthy {
        "true"@
    } else {
        "false"@
    }) + ",version:"@ + (match version {
        Some(version) => version,
        None => "unreachable"@,
    }) + ",group:"@ + (match group {
        Some(group) => group,
        None => "unassigned"@,
    }) + "}"@
}

/// A node that lags, as a message lists it.
pub fn write_lag(node: &str, healthy: bool, version: &Option<String>, group: &Option<String>) -> (result:
    String)
    ensures
        result@ == lag_text(
            node@,
            healthy,
            crate::text::view_of(*version),
            crate::text::view_of(*group),
        ),
{
    let mut text = String::from_str(node);
    text.append("={healthy:");
    text.append(
        if healthy {
            "true"
        } else {
            "false"
        },
    );
    text.append(",version:");
    match version {
        Some(version) => text.append(version.as_str()),
        None => text.append("unreachable"),
    }
    text.append(",group:");
    match group {
        Some(group) => text.append(group.as_str()),
        None => text.append("unassigned"),
    }
    text.append("}");
    text
}

/// The message of a fleet that did not converge.
pub open spec fn lagging_text(
    version: Seq<char>,
    observed: nat,
    lagging: Seq<Seq<char>>,
    last_error: Seq<char>,
) -> Seq<char> {
    "fleet did not converge at "@ + version + ": observed "@ + decimal_digits(observed)
        + " nodes; lagging ["@ + crate::text::joined(lagging, ", "@) + "]"@ + error_suffix(
        last_error,
    )
}

/// The message of a fleet that did not converge.
pub fn write_lagging(version: &str, observed: usize, lagging: &Vec<String>, last_error: &str) -> (result:
    String)
    ensures
        result@ == lagging_text(
            version@,
            observed as nat,
            crate::text::views(lagging@),
            last_error@,
        ),
{
    let mut text = String::from_str("fleet did not converge at ");
    text.append(version);
    text.append(": observed ");
    text.append(decimal(observed as u64).as_str());
    text.append(" nodes; lagging [");
    text.append(crate::text::join(lagging, ", ").as_str());
    text.append("]");
    text.append(write_error_suffix(last_error).as_str());
    text
}

/// A wait tells of itself exactly once in fifteen looks, and not at its first; it names what is waited
/// for.
pub proof fn notices_come_every_fifteen_looks(wait: WaitView)
    ensures
        wait.second == 0 ==> wait_notice(wait) is None,
        wait_notice(wait) is Some <==> wait.second > 0 && exists|k: nat|
            wait.second == #[trigger] (15 * k),
{
    if wait.second % 15 == 0 {
        let k = wait.second / 15;
        assert(wait.second == 15 * k);
    }
}

/// A message ends with the error of the last look exactly where that had one.
pub proof fn only_the_last_error_is_told(wait: WaitView)
    ensures
        wait.last.len() == 0 ==> timeout_text(wait) == "timed out after "@ + decimal_digits(
            wait.seconds,
        ) + "s waiting for "@ + wait.what,
        wait.last.len() > 0 ==> timeout_text(wait).skip(timeout_text(wait).len() - wait.last.len())
            == wait.last,
{
    let head = "timed out after "@ + decimal_digits(wait.seconds) + "s waiting for "@ + wait.what;
    if wait.last.len() == 0 {
        assert(timeout_text(wait) =~= head);
    } else {
        assert(timeout_text(wait).skip(timeout_text(wait).len() - wait.last.len()) =~= wait.last);
    }
}

/// A node that lags is listed with its health, its version and its group; one that cannot be reached, or
/// that no group has selected, is said to be so.
pub proof fn lagging_nodes_are_described(
    node: Seq<char>,
    healthy: bool,
    version: Seq<char>,
    group: Seq<char>,
)
    ensures
        lag_text(node, true, Some(version), Some(group)) == node + "={healthy:"@ + "true"@
            + ",version:"@ + version + ",group:"@ + group + "}"@,
        lag_text(node, false, Some(version), Some(group)) == node + "={healthy:"@ + "false"@
            + ",version:"@ + version + ",group:"@ + group + "}"@,
        lag_text(node, healthy, None, Some(group)) == lag_text(
            node,
            healthy,
            Some("unreachable"@),
            Some(group),
        ),
        lag_text(node, healthy, Some(version), None) == lag_text(
            node,
            healthy,
            Some(version),
            Some("unassigned"@),
        ),
{
}

/// A look that did not end a wait counts as one second, and leaves its own error and nothing else.
pub proof fn a_look_counts_one_second(wait: WaitView, outcome: Result<bool, Seq<char>>)
    ensures
        looked(wait, outcome).second == wait.second + 1,
        looked(wait, outcome).seconds == wait.seconds,
        looked(wait, outcome).what == wait.what,
        outcome is Ok ==> looked(wait, outcome).last.len() == 0,
        outcome is Err ==> looked(wait, outcome).last == outcome->Err_0,
{
}

} // verus!
