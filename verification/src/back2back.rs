//! Back-to-back frame test (RFC 2544 §26.4): the largest burst that the
//! device under test forwards without loss.

use vstd::prelude::*;

verus! {

/// The step by which a burst grows after a trial without loss, and shrinks
/// after a trial with loss.
pub const BURST_STEP: u64 = 100;

/// The state of the burst search of a back-to-back test at one frame size:
/// the burst the next trial sends, the largest burst that passed so far, and
/// the number of trials that passed.
#[derive(Debug, Clone, Copy, PartialEq, Eq)]
pub struct BurstSearch {
    pub burst_size: u64,
    pub max_burst: u64,
    pub passed_trials: u32,
}

/// Whether the search can take in a trial's outcome without its counters
/// leaving their range: a passed trial must leave room to grow the burst
/// and count the pass; a failed trial of more than one frame must have sent
/// at least `BURST_STEP` frames, so that the burst can shrink.
pub open spec fn burst_record_allowed(s: BurstSearch, passed: bool) -> bool {
    if passed {
        s.burst_size <= u64::MAX - BURST_STEP && s.passed_trials < u32::MAX
    } else {
        s.burst_size > 1 ==> s.burst_size >= BURST_STEP
    }
}

/// The search after a trial with the given outcome: a pass counts, raises
/// the largest passing burst if this one is larger, and grows the burst by
/// `BURST_STEP`; a loss shrinks the burst by `BURST_STEP`, unless it is a
/// single frame (or none).
pub open spec fn burst_after(s: BurstSearch, passed: bool) -> BurstSearch {
    if passed {
        BurstSearch {
            burst_size: (s.burst_size + BURST_STEP) as u64,
            max_burst: if s.burst_size > s.max_burst {
                s.burst_size
            } else {
                s.max_burst
            },
            passed_trials: (s.passed_trials + 1) as u32,
        }
    } else {
        BurstSearch {
            burst_size: if s.burst_size > 1 {
                (s.burst_size - BURST_STEP) as u64
            } else {
                s.burst_size
            },
            ..s
        }
    }
}

/// Law: a pass grows the burst by 100 frames, counts once and keeps the
/// largest passing burst; a loss shrinks a burst of more than one frame by
/// 100 frames (a single frame or none stays as it is) and changes nothing
/// else; so the next burst depends on the current burst and the outcome
/// alone, never on the largest passing burst.
pub proof fn lemma_burst_step(s: BurstSearch, passed: bool)
    requires
        burst_record_allowed(s, passed),
    ensures
        passed ==> burst_after(s, passed).burst_size == s.burst_size + 100,
        passed ==> burst_after(s, passed).passed_trials == s.passed_trials + 1,
        passed ==> burst_after(s, passed).max_burst >= s.burst_size,
        passed ==> burst_after(s, passed).max_burst >= s.max_burst,
        passed ==> (burst_after(s, passed).max_burst == s.burst_size
            || burst_after(s, passed).max_burst == s.max_burst),
        !passed && s.burst_size > 1 ==> burst_after(s, passed).burst_size == s.burst_size - 100,
        !passed && s.burst_size <= 1 ==> burst_after(s, passed).burst_size == s.burst_size,
        !passed ==> burst_after(s, passed).max_burst == s.max_burst,
        !passed ==> burst_after(s, passed).passed_trials == s.passed_trials,
        forall|m: u64|
            #![trigger burst_after(BurstSearch { max_burst: m, ..s }, passed)]
            burst_after(BurstSearch { max_burst: m, ..s }, passed).burst_size == burst_after(
                s,
                passed,
            ).burst_size,
{
}

impl BurstSearch {
    /// A search that starts with bursts of `initial_burst` frames, with no
    /// trial run yet.
    pub fn new(initial_burst: u64) -> (s: Self)
        ensures
            s.burst_size == initial_burst,
            s.max_burst == 0,
            s.passed_trials == 0,
    {
        BurstSearch { burst_size: initial_burst, max_burst: 0, passed_trials: 0 }
    }

    /// Whether `record` may take in this outcome (see
    /// `burst_record_allowed`).
    pub fn record_allowed(&self, passed: bool) -> (r: bool)
        ensures
            r == burst_record_allowed(*self, passed),
    {
        if passed {
            self.burst_size <= u64::MAX - BURST_STEP && self.passed_trials < u32::MAX
        } else {
            self.burst_size <= 1 || self.burst_size >= BURST_STEP
        }
    }

    /// Takes in the outcome of the trial that sent `burst_size` frames.
    pub fn record(&mut self, passed: bool)
        requires
            burst_record_allowed(*old(self), passed),
        ensures
            *final(self) == burst_after(*old(self), passed),
            passed ==> final(self).burst_size == old(self).burst_size + 100,
            passed ==> final(self).passed_trials == old(self).passed_trials + 1,
            passed ==> final(self).max_burst == if old(self).burst_size > old(self).max_burst {
                old(self).burst_size
            } else {
                old(self).max_burst
            },
            !passed ==> final(self).burst_size == if old(self).burst_size > 1 {
                old(self).burst_size - 100
            } else {
                old(self).burst_size as int
            },
            !passed ==> final(self).max_burst == old(self).max_burst,
            !passed ==> final(self).passed_trials == old(self).passed_trials,
    {
        if passed {
            self.passed_trials = self.passed_trials + 1;
            if self.burst_size > self.max_burst {
                self.max_burst = self.burst_size;
            }
            self.burst_size = self.burst_size + BURST_STEP;
        } else {
            if self.burst_size > 1 {
                self.burst_size = self.burst_size - BURST_STEP;
            }
        }
    }
}

/// The search after taking in each of the outcomes in turn.
pub open spec fn burst_after_all(s: BurstSearch, outcomes: Seq<bool>) -> BurstSearch
    decreases outcomes.len(),
{
    if outcomes.len() == 0 {
        s
    } else {
        burst_after(burst_after_all(s, outcomes.drop_last()), outcomes.last())
    }
}

/// The bursts that the trials send when the search takes in the outcomes in
/// turn: trial `i` sends the burst of the search after the first `i`
/// outcomes.
pub open spec fn burst_of_trial(s: BurstSearch, outcomes: Seq<bool>, i: int) -> u64 {
    burst_after_all(s, outcomes.take(i)).burst_size
}

/// Law: after any series of trials, the largest passing burst is at least
/// every burst that passed and the starting value, and it is one of them:
/// the largest burst among the trials that passed, or the starting value
/// when none was larger.
pub proof fn lemma_burst_search_max(s: BurstSearch, outcomes: Seq<bool>)
    ensures
        forall|i: int|
            0 <= i < outcomes.len() && #[trigger] outcomes[i] ==> burst_of_trial(s, outcomes, i)
                <= burst_after_all(s, outcomes).max_burst,
        s.max_burst <= burst_after_all(s, outcomes).max_burst,
        burst_after_all(s, outcomes).max_burst == s.max_burst || exists|i: int|
            0 <= i < outcomes.len() && #[trigger] outcomes[i] && burst_after_all(s, outcomes).max_burst
                == burst_of_trial(s, outcomes, i),
    decreases outcomes.len(),
{
    if outcomes.len() > 0 {
        let prev = outcomes.drop_last();
        lemma_burst_search_max(s, prev);
        let n = outcomes.len() - 1;
        assert(outcomes.take(n) =~= prev);
        assert forall|i: int| 0 <= i < n implies outcomes.take(i) =~= prev.take(i) by {}
        assert forall|i: int| 0 <= i < n implies #[trigger] outcomes[i] == prev[i] by {}
        let t = burst_after_all(s, outcomes);
        let p = burst_after_all(s, prev);
        assert forall|i: int|
            0 <= i < outcomes.len() && #[trigger] outcomes[i] implies burst_of_trial(s, outcomes, i)
            <= t.max_burst by {
            if i < n {
                assert(outcomes.take(i) =~= prev.take(i));
                assert(burst_of_trial(s, outcomes, i) == burst_of_trial(s, prev, i));
            }
        }
        if t.max_burst != s.max_burst && t.max_burst == p.max_burst {
            let i = choose|i: int|
                0 <= i < prev.len() && #[trigger] prev[i] && p.max_burst == burst_of_trial(s, prev, i);
            assert(outcomes.take(i) =~= prev.take(i));
            assert(outcomes[i]);
            assert(burst_of_trial(s, outcomes, i) == burst_of_trial(s, prev, i));
        }
    }
}

/// The outcome of one back-to-back trial: whether it passed, and how many
/// frames were sent and received.
#[derive(Debug, Clone, Copy, PartialEq, Eq)]
pub struct TrialOutcome {
    pub passed: bool,
    pub tx_packets: u64,
    pub rx_packets: u64,
}

/// The index of the first failed trial at or after `i`, or the number of
/// trials when none fails.
pub open spec fn first_failure_from(trials: Seq<TrialOutcome>, i: int) -> int
    decreases trials.len() - i,
{
    if i < 0 || i >= trials.len() || !trials[i].passed {
        i
    } else {
        first_failure_from(trials, i + 1)
    }
}

/// The back-to-back threshold of a series of trials: the burst (frames
/// sent) of the last trial in the run of passed trials that opens the
/// series, i.e. the largest burst sent before the first loss; when the first
/// trial already lost frames, the burst at which loss first appeared (that
/// trial's); `None` when there are no trials.
pub open spec fn back2back_threshold(trials: Seq<TrialOutcome>) -> Option<u64> {
    let k = first_failure_from(trials, 0);
    if trials.len() == 0 {
        None
    } else if k == 0 {
        Some(trials[0].tx_packets)
    } else {
        Some(trials[k - 1].tx_packets)
    }
}

/// The index of the first failure is past a run of passed trials, and is a
/// failed trial or the end.
pub proof fn lemma_first_failure(trials: Seq<TrialOutcome>, i: int)
    requires
        0 <= i <= trials.len(),
    ensures
        i <= first_failure_from(trials, i) <= trials.len(),
        forall|j: int| i <= j < first_failure_from(trials, i) ==> (#[trigger] trials[j]).passed,
        first_failure_from(trials, i) < trials.len() ==> !trials[first_failure_from(
            trials,
            i,
        )].passed,
    decreases trials.len() - i,
{
    if i < trials.len() && trials[i].passed {
        lemma_first_failure(trials, i + 1);
    }
}

/// Calculates the back-to-back threshold from the trials of one frame size,
/// in the order they ran: the burst of the last trial that passed before the
/// first loss appeared. When every trial passed it is the burst of the last
/// trial; when the first trial already lost frames, that trial's burst.
pub fn calc_back2back_threshold(frame_size: u32, trials: &[TrialOutcome]) -> (r: Option<u64>)
    ensures
        r == back2back_threshold(trials@),
{
    let mut i: usize = 0;
    while i < trials.len() && trials[i].passed
        invariant
            i <= trials@.len(),
            first_failure_from(trials@, i as int) == first_failure_from(trials@, 0),
        decreases trials@.len() - i,
    {
        i = i + 1;
    }
    if trials.len() == 0 {
        None
    } else if i == 0 {
        Some(trials[0].tx_packets)
    } else {
        Some(trials[i - 1].tx_packets)
    }
}

/// Law: there is a threshold exactly when there are trials; it is the burst
/// of a trial that passed, every trial before it passed too, unless the
/// first trial failed, in which case it is that trial's burst; when all
/// trials passed, it is the last one's burst.
pub proof fn lemma_threshold_passed(trials: Seq<TrialOutcome>)
    ensures
        back2back_threshold(trials) is Some <==> trials.len() > 0,
        back2back_threshold(trials) matches Some(b) ==> (!trials[0].passed && b
            == trials[0].tx_packets) || exists|k: int|
            0 <= k < trials.len() && (#[trigger] trials[k]).passed && trials[k].tx_packets == b
                && forall|j: int| 0 <= j <= k ==> (#[trigger] trials[j]).passed,
        trials.len() > 0 && (forall|j: int| 0 <= j < trials.len() ==> (#[trigger] trials[j]).passed)
            ==> back2back_threshold(trials) == Some(trials.last().tx_packets),
{
    lemma_first_failure(trials, 0);
    let k = first_failure_from(trials, 0);
    if k > 0 {
        assert(trials[k - 1].passed);
    }
    if trials.len() > 0 && (forall|j: int| 0 <= j < trials.len() ==> (#[trigger] trials[j]).passed) {
        if k < trials.len() {
            assert(trials[k].passed);
        }
    }
}

} // verus!
