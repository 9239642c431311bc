//! The golden signals of the synthetic load: the rolling window and what is counted from it.

use crate::demo::fleet::{lemma_count_of_both, lemma_filter_push};
use crate::demo::layout::LOAD_WINDOW_NANOS;
use std::collections::VecDeque;
use vstd::prelude::*;

verus! {

/// The outcome of one synthetic request. Times are nanoseconds on one clock.
#[derive(Clone, Copy)]
pub struct LoadSample {
    pub at: u64,
    pub ok: bool,
    pub latency_ms: u64,
}

/// The outcomes of the last while.
pub struct LoadWindow {
    pub samples: VecDeque<LoadSample>,
}

/// Samples without the leading ones from before `cutoff`.
pub open spec fn aged(samples: Seq<LoadSample>, cutoff: int) -> Seq<LoadSample>
    decreases samples.len(),
{
    if samples.len() > 0 && samples[0].at < cutoff {
        aged(samples.skip(1), cutoff)
    } else {
        samples
    }
}

/// Samples with one more, and without the leading ones that have aged out of the window by then.
pub open spec fn recorded(samples: Seq<LoadSample>, sample: LoadSample) -> Seq<LoadSample> {
    aged(samples, sample.at - LOAD_WINDOW_NANOS).push(sample)
}

impl LoadWindow {
    /// An empty window.
    pub fn new() -> (result: LoadWindow)
        ensures
            result.samples@.len() == 0,
    {
        LoadWindow { samples: VecDeque::new() }
    }

    /// Records an outcome, and drops those that have aged out of the window by then.
    pub fn record(&mut self, sample: LoadSample)
        ensures
            final(self).samples@ == recorded(old(self).samples@, sample),
    {
        let ghost before = self.samples@;
        if sample.at >= LOAD_WINDOW_NANOS {
            let cutoff: u64 = sample.at - LOAD_WINDOW_NANOS;
            while self.samples.len() > 0 && self.samples[0].at < cutoff
                invariant
                    aged(self.samples@, cutoff as int) == aged(before, cutoff as int),
                decreases self.samples@.len(),
            {
                let ghost now = self.samples@;
                let _ = self.samples.pop_front();
                assert(self.samples@ =~= now.skip(1));
            }
        } else {
            assert(aged(before, sample.at - LOAD_WINDOW_NANOS) == before);
        }
        self.samples.push_back(sample);
    }
}

/// Whether samples are in the order of their times, none later than `now`.
pub open spec fn in_time_order(samples: Seq<LoadSample>, now: int) -> bool {
    &&& forall|i: int, j: int|
        0 <= i <= j < samples.len() ==> (#[trigger] samples[i]).at <= (#[trigger] samples[j]).at
    &&& forall|i: int| 0 <= i < samples.len() ==> (#[trigger] samples[i]).at <= now
}

proof fn lemma_aged_fresh(samples: Seq<LoadSample>, cutoff: int, now: int)
    requires
        in_time_order(samples, now),
    ensures
        in_time_order(aged(samples, cutoff), now),
        forall|i: int|
            0 <= i < aged(samples, cutoff).len() ==> (#[trigger] aged(samples, cutoff)[i]).at
                >= cutoff,
    decreases samples.len(),
{
    if samples.len() > 0 && samples[0].at < cutoff {
        let rest = samples.skip(1);
        assert forall|i: int, j: int| 0 <= i <= j < rest.len() implies (#[trigger] rest[i]).at <= (
        #[trigger] rest[j]).at by {
            assert(samples[i + 1].at <= samples[j + 1].at);
        }
        lemma_aged_fresh(rest, cutoff, now);
    } else if samples.len() > 0 {
        assert forall|i: int| 0 <= i < samples.len() implies (#[trigger] samples[i]).at
            >= cutoff by {
            assert(samples[0].at <= samples[i].at);
        }
    }
}

/// A window that outcomes are recorded in as they happen holds only outcomes of the window before
/// the newest one, still in order.
pub proof fn the_window_holds_only_the_window(samples: Seq<LoadSample>, sample: LoadSample)
    requires
        in_time_order(samples, sample.at as int),
    ensures
        in_time_order(recorded(samples, sample), sample.at as int),
        forall|i: int|
            0 <= i < recorded(samples, sample).len() ==> (#[trigger] recorded(
                samples,
                sample,
            )[i]).at >= sample.at - LOAD_WINDOW_NANOS,
{
    lemma_aged_fresh(samples, sample.at - LOAD_WINDOW_NANOS, sample.at as int);
    let kept = aged(samples, sample.at - LOAD_WINDOW_NANOS);
    let all = recorded(samples, sample);
    assert forall|i: int, j: int| 0 <= i <= j < all.len() implies (#[trigger] all[i]).at <= (
    #[trigger] all[j]).at by {
        if j < kept.len() {
            assert(kept[i].at <= kept[j].at);
        } else if i < kept.len() {
            assert(kept[i].at <= sample.at);
        }
    }
}

// ----- what is counted from a window -----

/// How many samples failed.
pub open spec fn failures(samples: Seq<LoadSample>) -> nat
    decreases samples.len(),
{
    if samples.len() == 0 {
        0
    } else {
        failures(samples.drop_last()) + (if samples.last().ok {
            0nat
        } else {
            1
        })
    }
}

/// The latencies of some samples.
pub open spec fn latencies(samples: Seq<LoadSample>) -> Seq<u64> {
    Seq::new(samples.len(), |i: int| samples[i].latency_ms)
}

/// Whether numbers never decrease.
pub open spec fn is_sorted(numbers: Seq<u64>) -> bool {
    forall|i: int, j: int| 0 <= i <= j < numbers.len() ==> numbers[i] <= numbers[j]
}

/// What the golden signals are computed from.
pub struct WindowCounts {
    pub requests: usize,
    pub errors: usize,
    /// The latencies, from the lowest to the highest.
    pub latencies: Vec<u64>,
    /// When the oldest request was made.
    pub oldest: Option<u64>,
}

fn insert_sorted(numbers: &mut Vec<u64>, number: u64)
    requires
        is_sorted(old(numbers)@),
    ensures
        is_sorted(final(numbers)@),
        final(numbers)@.to_multiset() == old(numbers)@.to_multiset().insert(number),
        final(numbers)@.len() == old(numbers)@.len() + 1,
{
    broadcast use vstd::seq_lib::group_to_multiset_ensures;

    let ghost before = numbers@;
    let mut at: usize = numbers.len();
    while at > 0 && numbers[at - 1] > number
        invariant
            at <= numbers@.len(),
            numbers@ == before,
            is_sorted(before),
            forall|i: int| at <= i < before.len() ==> before[i] > number,
        decreases at,
    {
        at = at - 1;
    }
    numbers.insert(at, number);
    proof {
        let after = numbers@;
        assert(after == before.insert(at as int, number));
        assert forall|i: int, j: int| 0 <= i <= j < after.len() implies after[i] <= after[j] by {
            let a = if i < at {
                i
            } else {
                i - 1
            };
            let b = if j < at {
                j
            } else {
                j - 1
            };
            if i != at && j != at {
                assert(before[a] <= before[b]);
            } else if i == at && j != at {
                assert(before[b] > number);
            } else if j == at && i != at {
                assert(before[i] <= before[at - 1]);
            }
        }
        let head = before.take(at as int);
        let tail = before.skip(at as int);
        assert(before =~= head + tail);
        assert(after =~= head.push(number) + tail);
        vstd::seq_lib::lemma_multiset_commutative(head, tail);
        vstd::seq_lib::lemma_multiset_commutative(head.push(number), tail);
        assert(after.to_multiset() =~= before.to_multiset().insert(number));
    }
}

/// Counts what a window holds.
pub fn count_window(window: &LoadWindow) -> (result: WindowCounts)
    ensures
        result.requests == window.samples@.len(),
        result.errors == failures(window.samples@),
        result.errors == window.samples@.filter(|sample: LoadSample| !sample.ok).len(),
        is_sorted(result.latencies@),
        result.latencies@.to_multiset() == latencies(window.samples@).to_multiset(),
        result.latencies@.len() == window.samples@.len(),
        match result.oldest {
            Some(oldest) => {
                &&& exists|i: int|
                    0 <= i < window.samples@.len() && (#[trigger] window.samples@[i]).at == oldest
                &&& forall|i: int|
                    0 <= i < window.samples@.len() ==> oldest <= (#[trigger] window.samples@[i]).at
            },
            None => window.samples@.len() == 0,
        },
{
    broadcast use vstd::seq_lib::group_to_multiset_ensures;

    proof {
        errors_are_the_samples_that_failed(window.samples@);
    }
    let ghost all = window.samples@;
    let size: usize = window.samples.len();
    let mut errors: usize = 0;
    let mut sorted: Vec<u64> = Vec::new();
    let mut oldest: Option<u64> = None;
    let mut index: usize = 0;
    assert(latencies(all.take(0)) =~= Seq::<u64>::empty());
    while index < size
        invariant
            index <= size,
            size == all.len(),
            all == window.samples@,
            errors == failures(all.take(index as int)),
            errors <= index,
            is_sorted(sorted@),
            sorted@.len() == index,
            sorted@.to_multiset() == latencies(all.take(index as int)).to_multiset(),
            match oldest {
                Some(oldest) => {
                    &&& exists|i: int| 0 <= i < index && (#[trigger] all[i]).at == oldest
                    &&& forall|i: int| 0 <= i < index ==> oldest <= (#[trigger] all[i]).at
                },
                None => index == 0,
            },
        decreases size - index,
    {
        broadcast use vstd::seq_lib::group_to_multiset_ensures;

        let sample = window.samples[index];
        proof {
            assert(sample == all[index as int]);
            assert(all.take(index + 1).drop_last() =~= all.take(index as int));
            assert(latencies(all.take(index + 1)) =~= latencies(all.take(index as int)).push(
                sample.latency_ms,
            ));
        }
        if !sample.ok {
            errors = errors + 1;
        }
        insert_sorted(&mut sorted, sample.latency_ms);
        oldest = match oldest {
            Some(earlier) => if sample.at < earlier {
                Some(sample.at)
            } else {
                Some(earlier)
            },
            None => Some(sample.at),
        };
        index = index + 1;
    }
    assert(all.take(size as int) =~= all);
    WindowCounts { requests: size, errors, latencies: sorted, oldest }
}

/// The latency at a rank among sorted latencies; the highest where the rank lies beyond them, and
/// zero where there are none.
pub fn latency_at(sorted: &Vec<u64>, rank: usize) -> (result: u64)
    ensures
        sorted@.len() == 0 ==> result == 0,
        sorted@.len() > 0 && rank < sorted@.len() ==> result == sorted@[rank as int],
        sorted@.len() > 0 && rank >= sorted@.len() ==> result == sorted@.last(),
{
    if sorted.len() == 0 {
        0
    } else if rank < sorted.len() {
        sorted[rank]
    } else {
        sorted[sorted.len() - 1]
    }
}

/// The windows of every set, one after the other.
pub open spec fn pooled(windows: Seq<LoadWindow>) -> Seq<LoadSample>
    decreases windows.len(),
{
    if windows.len() == 0 {
        Seq::empty()
    } else {
        pooled(windows.drop_last()) + windows.last().samples@
    }
}

/// The outcomes of every set in one window.
pub fn pool_windows(windows: &Vec<LoadWindow>) -> (result: LoadWindow)
    ensures
        result.samples@ == pooled(windows@),
{
    let mut samples: VecDeque<LoadSample> = VecDeque::new();
    let mut index: usize = 0;
    while index < windows.len()
        invariant
            index <= windows.len(),
            samples@ == pooled(windows@.take(index as int)),
        decreases windows.len() - index,
    {
        let ghost before = samples@;
        let ghost added = windows@[index as int].samples@;
        let size: usize = windows[index].samples.len();
        let mut at: usize = 0;
        assert(before + added.take(0) =~= before);
        while at < size
            invariant
                at <= size,
                index < windows@.len(),
                added == windows@[index as int].samples@,
                size == added.len(),
                samples@ == before + added.take(at as int),
            decreases size - at,
        {
            let sample = windows[index].samples[at];
            samples.push_back(sample);
            assert(samples@ =~= before + added.take(at + 1));
            at = at + 1;
        }
        assert(added.take(size as int) =~= added);
        assert(windows@.take(index + 1).drop_last() =~= windows@.take(index as int));
        index = index + 1;
    }
    assert(windows@.take(windows.len() as int) =~= windows@);
    LoadWindow { samples }
}

// ----- what the counts rest on -----

/// The errors of some samples are those that failed, one for one: none where all went well, and as
/// many as there are samples where none did.
pub proof fn errors_are_the_samples_that_failed(samples: Seq<LoadSample>)
    ensures
        failures(samples) == samples.filter(|sample: LoadSample| !sample.ok).len(),
        failures(samples) <= samples.len(),
        (forall|i: int| 0 <= i < samples.len() ==> (#[trigger] samples[i]).ok) ==> failures(samples)
            == 0,
        (forall|i: int| 0 <= i < samples.len() ==> !(#[trigger] samples[i]).ok) ==> failures(samples)
            == samples.len(),
    decreases samples.len(),
{
    reveal(Seq::filter);
    if samples.len() > 0 {
        let before = samples.drop_last();
        let last = samples.last();
        errors_are_the_samples_that_failed(before);
        lemma_filter_push(before, last, |sample: LoadSample| !sample.ok);
        assert(before.push(last) =~= samples);
        assert(last == samples[samples.len() - 1]);
        assert forall|i: int| 0 <= i < before.len() implies before[i] == samples[i] by {}
        if forall|i: int| 0 <= i < samples.len() ==> (#[trigger] samples[i]).ok {
            assert forall|i: int| 0 <= i < before.len() implies (#[trigger] before[i]).ok by {
                assert(samples[i].ok);
            }
        }
        if forall|i: int| 0 <= i < samples.len() ==> !(#[trigger] samples[i]).ok {
            assert forall|i: int| 0 <= i < before.len() implies !(#[trigger] before[i]).ok by {
                assert(!samples[i].ok);
            }
        }
    }
}

/// One more sample adds one error where it failed, and none where it went well.
pub proof fn a_sample_adds_its_own_error(samples: Seq<LoadSample>, sample: LoadSample)
    ensures
        sample.ok ==> failures(samples.push(sample)) == failures(samples),
        !sample.ok ==> failures(samples.push(sample)) == failures(samples) + 1,
        latencies(samples.push(sample)) == latencies(samples).push(sample.latency_ms),
{
    assert(samples.push(sample).drop_last() =~= samples);
    assert(latencies(samples.push(sample)) =~= latencies(samples).push(sample.latency_ms));
}

/// Ageing drops leading samples only: all that it drops are from before the cutoff, and the first that
/// it keeps is not.
pub proof fn ageing_drops_leading_samples_only(samples: Seq<LoadSample>, cutoff: int) -> (dropped: int)
    ensures
        0 <= dropped <= samples.len(),
        aged(samples, cutoff) == samples.skip(dropped),
        forall|i: int| 0 <= i < dropped ==> (#[trigger] samples[i]).at < cutoff,
        dropped < samples.len() ==> samples[dropped].at >= cutoff,
    decreases samples.len(),
{
    if samples.len() > 0 && samples[0].at < cutoff {
        let rest = samples.skip(1);
        let dropped = ageing_drops_leading_samples_only(rest, cutoff);
        assert(rest.skip(dropped) =~= samples.skip(dropped + 1));
        assert forall|i: int| 0 <= i < dropped + 1 implies (#[trigger] samples[i]).at < cutoff by {
            if i > 0 {
                assert(rest[i - 1] == samples[i]);
            }
        }
        if dropped < rest.len() {
            assert(rest[dropped] == samples[dropped + 1]);
        }
        dropped + 1
    } else {
        assert(samples.skip(0) =~= samples);
        0
    }
}

/// Recording an outcome as it happens keeps every earlier one that is at most thirty seconds older,
/// drops every other one, and adds the new one last.
pub proof fn recording_keeps_thirty_seconds(samples: Seq<LoadSample>, sample: LoadSample, index: int)
    requires
        in_time_order(samples, sample.at as int),
        0 <= index < samples.len(),
    ensures
        recorded(samples, sample).last() == sample,
        recorded(samples, sample).len() <= samples.len() + 1,
        ({
            let dropped = samples.len() + 1 - recorded(samples, sample).len();
            &&& samples[index].at + 30_000_000_000 >= sample.at <==> index >= dropped
            &&& index >= dropped ==> recorded(samples, sample)[index - dropped] == samples[index]
        }),
{
    let dropped = ageing_drops_leading_samples_only(samples, sample.at - LOAD_WINDOW_NANOS);
    let kept = samples.skip(dropped);
    assert(recorded(samples, sample) == kept.push(sample));
    if index >= dropped {
        assert(samples[dropped].at <= samples[index].at);
        assert(kept[index - dropped] == samples[index]);
    }
}

/// Pooling loses no sample and adds none: the windows of more sets pool to those of the others and
/// their own, and so do the errors.
pub proof fn pooling_adds_up(windows: Seq<LoadWindow>, window: LoadWindow)
    ensures
        pooled(Seq::<LoadWindow>::empty()).len() == 0,
        pooled(windows.push(window)) == pooled(windows) + window.samples@,
        failures(pooled(windows.push(window))) == failures(pooled(windows)) + failures(
            window.samples@,
        ),
{
    assert(windows.push(window).drop_last() =~= windows);
    errors_are_the_samples_that_failed(pooled(windows));
    errors_are_the_samples_that_failed(window.samples@);
    errors_are_the_samples_that_failed(pooled(windows) + window.samples@);
    lemma_count_of_both(pooled(windows), window.samples@, |sample: LoadSample| !sample.ok);
}

/// Sorted numbers begin with the least and end with the greatest.
pub proof fn sorted_numbers_are_in_order(numbers: Seq<u64>, index: int)
    requires
        is_sorted(numbers),
        0 <= index < numbers.len(),
    ensures
        numbers[0] <= numbers[index] <= numbers.last(),
        index > 0 ==> numbers[index - 1] <= numbers[index],
{
}

} // verus!
