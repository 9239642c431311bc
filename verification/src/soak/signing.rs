//! How a campaign comes by the secret with its signing keys: the one that is there, or one made from
//! keys of its own.

use vstd::prelude::*;

verus! {

/// The steps towards the secret.
#[derive(Clone, Copy, PartialEq, Eq, Structural, Debug)]
pub enum SecretStep {
    /// Looks whether the secret is there.
    Look,
    /// Holds the secret that is there to what it should be.
    Check,
    /// Reads the keys that an earlier attempt left; they are of use where they are complete and
    /// marked as ready.
    ReadSeed,
    /// Removes what an earlier attempt left.
    Clear,
    /// Makes new keys.
    Generate,
    /// Reads the keys that were made.
    ReadKeys,
    /// Marks the keys as ready.
    MarkReady,
    /// Creates the secret, unless another process was faster.
    Create,
    Done,
}

/// The step after a step that succeeded. `answer` is what the step found: whether the secret is
/// there, whether the keys are of use, whether the secret could be created.
pub open spec fn secret_after(step: SecretStep, answer: bool) -> SecretStep {
    match step {
        SecretStep::Look => if answer {
            SecretStep::Check
        } else {
            SecretStep::ReadSeed
        },
        SecretStep::Check => SecretStep::Done,
        SecretStep::ReadSeed => if answer {
            SecretStep::Create
        } else {
            SecretStep::Clear
        },
        SecretStep::Clear => SecretStep::Generate,
        SecretStep::Generate => SecretStep::ReadKeys,
        SecretStep::ReadKeys => SecretStep::MarkReady,
        SecretStep::MarkReady => SecretStep::Create,
        SecretStep::Create => if answer {
            SecretStep::Done
        } else {
            SecretStep::Check
        },
        SecretStep::Done => SecretStep::Done,
    }
}

impl SecretStep {
    /// The step after this one.
    pub fn next(self, answer: bool) -> (result: SecretStep)
        ensures
            result == secret_after(self, answer),
    {
        match self {
            SecretStep::Look => if answer {
                SecretStep::Check
            } else {
                SecretStep::ReadSeed
            },
            SecretStep::Check => SecretStep::Done,
            SecretStep::ReadSeed => if answer {
                SecretStep::Create
            } else {
                SecretStep::Clear
            },
            SecretStep::Clear => SecretStep::Generate,
            SecretStep::Generate => SecretStep::ReadKeys,
            SecretStep::ReadKeys => SecretStep::MarkReady,
            SecretStep::MarkReady => SecretStep::Create,
            SecretStep::Create => if answer {
                SecretStep::Done
            } else {
                SecretStep::Check
            },
            SecretStep::Done => SecretStep::Done,
        }
    }
}

/// Where the steps have led after some answers.
pub open spec fn secret_path(answers: Seq<bool>) -> SecretStep
    decreases answers.len(),
{
    if answers.len() == 0 {
        SecretStep::Look
    } else {
        secret_after(secret_path(answers.drop_last()), answers.last())
    }
}

/// Keys are marked as ready only once they were made anew and read, and a secret is created only
/// from keys that are ready.
pub proof fn only_ready_keys_become_a_secret(step: SecretStep, answer: bool)
    ensures
        secret_after(step, answer) == SecretStep::MarkReady ==> step == SecretStep::ReadKeys,
        secret_after(step, answer) == SecretStep::ReadKeys ==> step == SecretStep::Generate,
        secret_after(step, answer) == SecretStep::Generate ==> step == SecretStep::Clear,
        secret_after(step, answer) == SecretStep::Create ==> step == SecretStep::MarkReady || (step
            == SecretStep::ReadSeed && answer),
{
}

/// A secret that is there is never replaced: it is held to what it should be, and that is all,
/// whether it was there from the start or another process was faster.
pub proof fn a_secret_is_never_replaced(answers: Seq<bool>)
    requires
        answers.len() >= 1,
        answers[0],
    ensures
        secret_path(answers) == SecretStep::Check || secret_path(answers) == SecretStep::Done,
        secret_after(SecretStep::Create, false) == SecretStep::Check,
    decreases answers.len(),
{
    reveal_with_fuel(secret_path, 3);
    if answers.len() > 1 {
        a_secret_is_never_replaced(answers.drop_last());
    } else {
        assert(answers.drop_last().len() == 0);
    }
}

/// The steps come to an end, whatever they find: eight answers are always enough.
pub proof fn the_secret_is_come_by(answers: Seq<bool>)
    requires
        answers.len() == 8,
    ensures
        secret_path(answers) == SecretStep::Done,
{
    reveal_with_fuel(secret_path, 9);
    let seven = answers.drop_last();
    let six = seven.drop_last();
    let five = six.drop_last();
    let four = five.drop_last();
    let three = four.drop_last();
    let two = three.drop_last();
    let one = two.drop_last();
    assert(one.drop_last().len() == 0);
}

/// Each step leads on by what it found: a secret that is there is checked and no keys are read, made or
/// marked; keys that are of use are used again rather than made anew; a secret that could be created is
/// the end of it.
pub proof fn steps_lead_on_by_what_they_found(answer: bool)
    ensures
        secret_after(SecretStep::Look, true) == SecretStep::Check,
        secret_after(SecretStep::Look, false) == SecretStep::ReadSeed,
        secret_after(SecretStep::ReadSeed, true) == SecretStep::Create,
        secret_after(SecretStep::ReadSeed, false) == SecretStep::Clear,
        secret_after(SecretStep::Create, true) == SecretStep::Done,
        secret_after(SecretStep::Create, false) == SecretStep::Check,
        secret_after(SecretStep::Clear, answer) == SecretStep::Generate,
        secret_after(SecretStep::Generate, answer) == SecretStep::ReadKeys,
        secret_after(SecretStep::ReadKeys, answer) == SecretStep::MarkReady,
        secret_after(SecretStep::MarkReady, answer) == SecretStep::Create,
        secret_after(SecretStep::Check, answer) == SecretStep::Done,
        secret_after(SecretStep::Done, answer) == SecretStep::Done,
{
}

} // verus!
