//! Frame loss test (RFC 2544 §26.3): the frame counts of the trials and the
//! rules that end a series of trials. (The offered load itself steps down
//! over fractions of the line rate, outside this library.)

use vstd::prelude::*;

verus! {

/// Frames sent and received in one trial.
#[derive(Debug, Clone, Copy, PartialEq, Eq)]
pub struct FrameCount {
    pub sent: u64,
    pub received: u64,
}

/// When a series of frame loss trials ends.
#[derive(Debug, Clone, Copy, PartialEq, Eq)]
pub enum StopRule {
    /// At the first trial without loss.
    FirstLossFree,
    /// At the second trial without loss in a row (the packet ratio method).
    TwoLossFreeInARow,
}

/// The state of a series of frame loss trials: its stopping rule, and
/// whether the last trial was free of loss.
#[derive(Debug, Clone, Copy, PartialEq, Eq)]
pub struct LossSeries {
    pub rule: StopRule,
    pub last_loss_free: bool,
}

/// Whether a trial with these counts lost no frame.
pub open spec fn loss_free(c: FrameCount) -> bool {
    c.sent == c.received
}

/// Whether the series ends after a trial with these counts.
pub open spec fn series_stops(s: LossSeries, c: FrameCount) -> bool {
    match s.rule {
        StopRule::FirstLossFree => loss_free(c),
        StopRule::TwoLossFreeInARow => loss_free(c) && s.last_loss_free,
    }
}

/// Law: a trial is loss-free exactly when it received every frame it sent;
/// a series under the first rule stops exactly at a trial that received
/// every frame, and under the second rule exactly at such a trial that
/// follows another one.
pub proof fn lemma_loss_free_exact(s: LossSeries, c: FrameCount)
    ensures
        loss_free(c) <==> c.sent == c.received,
        c.received < c.sent ==> !loss_free(c) && !series_stops(s, c),
        s.rule == StopRule::FirstLossFree ==> (series_stops(s, c) <==> c.sent == c.received),
        s.rule == StopRule::TwoLossFreeInARow ==> (series_stops(s, c) <==> (c.sent == c.received
            && s.last_loss_free)),
{
}

impl LossSeries {
    /// A series under the given rule, with no trial run yet.
    pub fn new(rule: StopRule) -> (s: Self)
        ensures
            s.rule == rule,
            !s.last_loss_free,
    {
        LossSeries { rule, last_loss_free: false }
    }

    /// Takes in a trial's counts; returns whether the series ends here.
    pub fn record(&mut self, c: FrameCount) -> (stop: bool)
        ensures
            stop == series_stops(*old(self), c),
            final(self).rule == old(self).rule,
            final(self).last_loss_free == loss_free(c),
            final(self).last_loss_free == (c.sent == c.received),
            old(self).rule == StopRule::FirstLossFree ==> stop == (c.sent == c.received),
            old(self).rule == StopRule::TwoLossFreeInARow ==> stop == (c.sent == c.received
                && old(self).last_loss_free),
    {
        let no_loss = c.sent == c.received;
        let stop = match self.rule {
            StopRule::FirstLossFree => no_loss,
            StopRule::TwoLossFreeInARow => no_loss && self.last_loss_free,
        };
        self.last_loss_free = no_loss;
        stop
    }
}

/// Frames lost in a trial.
pub open spec fn frames_lost_spec(c: FrameCount) -> int {
    c.sent - c.received
}

/// Frames lost in a trial: sent minus received. A trial cannot receive more
/// frames than it sent.
pub fn frames_lost(c: FrameCount) -> (r: u64)
    requires
        c.received <= c.sent,
    ensures
        r == frames_lost_spec(c),
{
    c.sent - c.received
}

/// The total frames sent in a series of trials.
pub open spec fn total_sent(counts: Seq<FrameCount>) -> nat
    decreases counts.len(),
{
    if counts.len() == 0 {
        0
    } else {
        total_sent(counts.drop_last()) + counts.last().sent as nat
    }
}

/// The total frames received in a series of trials.
pub open spec fn total_received(counts: Seq<FrameCount>) -> nat
    decreases counts.len(),
{
    if counts.len() == 0 {
        0
    } else {
        total_received(counts.drop_last()) + counts.last().received as nat
    }
}

/// The totals of a prefix do not exceed the totals of the whole series.
proof fn lemma_totals_prefix(counts: Seq<FrameCount>, k: int)
    requires
        0 <= k <= counts.len(),
    ensures
        total_sent(counts.take(k)) <= total_sent(counts),
        total_received(counts.take(k)) <= total_received(counts),
    decreases counts.len(),
{
    if k < counts.len() {
        assert(counts.drop_last().take(k) =~= counts.take(k));
        lemma_totals_prefix(counts.drop_last(), k);
    } else {
        assert(counts.take(k) =~= counts);
    }
}

/// The totals of frames sent and received over a series of trials, or
/// `None` when either does not fit in a `u64`.
pub fn frame_totals(counts: &[FrameCount]) -> (r: Option<(u64, u64)>)
    ensures
        r == if total_sent(counts@) <= u64::MAX && total_received(counts@) <= u64::MAX {
            Some((total_sent(counts@) as u64, total_received(counts@) as u64))
        } else {
            None::<(u64, u64)>
        },
{
    let mut sent: u64 = 0;
    let mut received: u64 = 0;
    let mut i: usize = 0;
    while i < counts.len()
        invariant
            i <= counts@.len(),
            sent == total_sent(counts@.take(i as int)),
            received == total_received(counts@.take(i as int)),
        decreases counts@.len() - i,
    {
        let c = counts[i];
        assert(counts@.take(i + 1).drop_last() =~= counts@.take(i as int));
        proof {
            lemma_totals_prefix(counts@, i + 1);
            lemma_totals_prefix(counts@, counts@.len() as int);
            assert(counts@.take(counts@.len() as int) =~= counts@);
        }
        if sent > u64::MAX - c.sent || received > u64::MAX - c.received {
            return None;
        }
        sent = sent + c.sent;
        received = received + c.received;
        i = i + 1;
    }
    assert(counts@.take(counts@.len() as int) =~= counts@);
    Some((sent, received))
}

} // verus!
