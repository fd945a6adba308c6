//! Running statistics over the outcomes of one target.
//!
//! Durations are counted in nanoseconds.

use vstd::prelude::*;

use crate::host::PingResponse;

verus! {

/// The longest round-trip time that can be recorded, in nanoseconds: what
/// a duration of `u64::MAX` seconds and 999,999,999 nanoseconds amounts to.
pub const MAX_RTT_NANOS: u128 = 18_446_744_073_709_551_615_999_999_999;

/// One hundred percent in the unit of `loss_percent`.
pub const FULL_LOSS: u32 = 100_000;

/// Counts and round-trip extrema of the outcomes seen so far.
#[derive(Clone, Copy, Debug, PartialEq, Eq, Structural)]
pub struct PingStats {
    /// Attempts made, answered or not.
    pub sent: u32,
    /// Attempts answered.
    pub received: u32,
    /// The shortest round trip among the answered attempts.
    pub min_rtt: Option<u128>,
    /// The longest round trip among the answered attempts.
    pub max_rtt: Option<u128>,
    /// The sum of the round trips of the answered attempts.
    pub sum_rtt: u128,
    /// The sequence number of the latest attempt.
    pub last_seq: u16,
}

/// How many of `outcomes` are successes.
pub open spec fn successes(outcomes: Seq<PingResponse>) -> nat
    decreases outcomes.len(),
{
    if outcomes.len() == 0 {
        0
    } else {
        successes(outcomes.drop_last()) + if outcomes.last().is_success_spec() {
            1nat
        } else {
            0nat
        }
    }
}

/// How many of `outcomes` are failures.
pub open spec fn failures(outcomes: Seq<PingResponse>) -> nat
    decreases outcomes.len(),
{
    if outcomes.len() == 0 {
        0
    } else {
        failures(outcomes.drop_last()) + if outcomes.last().is_success_spec() {
            0nat
        } else {
            1nat
        }
    }
}

/// Whether every outcome in `outcomes` is well formed and holds a
/// round-trip time that can be recorded.
pub open spec fn recordable(outcomes: Seq<PingResponse>) -> bool {
    forall|i: int|
        0 <= i < outcomes.len() ==> (#[trigger] outcomes[i]).wf() && (outcomes[i].rtt is Some
            ==> outcomes[i].rtt->Some_0 <= MAX_RTT_NANOS)
}

impl PingStats {
    /// The statistics before any outcome.
    pub open spec fn empty() -> PingStats {
        PingStats { sent: 0, received: 0, min_rtt: None, max_rtt: None, sum_rtt: 0, last_seq: 0 }
    }

    /// The counts agree with the extrema: nothing received means no
    /// extrema and no sum; otherwise both extrema are there, in order, and
    /// the sum lies between `received` times each.
    pub open spec fn wf(self) -> bool {
        &&& self.received <= self.sent
        &&& self.received == 0 ==> self.min_rtt is None && self.max_rtt is None && self.sum_rtt
            == 0
        &&& self.received > 0 ==> {
            &&& self.min_rtt is Some
            &&& self.max_rtt is Some
            &&& self.min_rtt->Some_0 <= self.max_rtt->Some_0 <= MAX_RTT_NANOS
            &&& self.received * self.min_rtt->Some_0 <= self.sum_rtt <= self.received
                * self.max_rtt->Some_0
        }
    }

    /// The statistics after one more success with round trip `rtt`.
    pub open spec fn with_success(self, seq: u16, rtt: u128) -> PingStats {
        PingStats {
            sent: (self.sent + 1) as u32,
            received: (self.received + 1) as u32,
            min_rtt: match self.min_rtt {
                Some(m) if m <= rtt => Some(m),
                _ => Some(rtt),
            },
            max_rtt: match self.max_rtt {
                Some(m) if m >= rtt => Some(m),
                _ => Some(rtt),
            },
            sum_rtt: (self.sum_rtt + rtt) as u128,
            last_seq: seq,
        }
    }

    /// The statistics after one more failure.
    pub open spec fn with_failure(self, seq: u16) -> PingStats {
        PingStats { sent: (self.sent + 1) as u32, last_seq: seq, ..self }
    }

    /// The statistics after one more outcome of either kind.
    pub open spec fn with_outcome(self, outcome: PingResponse) -> PingStats {
        if outcome.is_success_spec() {
            self.with_success(outcome.seq, outcome.rtt->Some_0)
        } else {
            self.with_failure(outcome.seq)
        }
    }

    /// The statistics after all of `outcomes`, in order.
    pub open spec fn replay(outcomes: Seq<PingResponse>) -> PingStats
        decreases outcomes.len(),
    {
        if outcomes.len() == 0 {
            PingStats::empty()
        } else {
            PingStats::replay(outcomes.drop_last()).with_outcome(outcomes.last())
        }
    }

    /// The mean round trip, rounded down; absent while nothing was received.
    pub open spec fn avg_rtt_spec(self) -> Option<u128> {
        if self.received > 0 {
            Some((self.sum_rtt / self.received as u128) as u128)
        } else {
            None
        }
    }

    /// The share of attempts that went unanswered, in thousandths of a
    /// percent and rounded down; zero while nothing was sent.
    pub open spec fn loss_percent_spec(self) -> int {
        if self.sent > 0 {
            (self.sent - self.received) * 100_000 / self.sent as int
        } else {
            0
        }
    }

    /// Fresh statistics.
    pub fn new() -> (stats: Self)
        ensures
            stats == PingStats::empty(),
            stats.wf(),
    {
        PingStats { sent: 0, received: 0, min_rtt: None, max_rtt: None, sum_rtt: 0, last_seq: 0 }
    }

    /// Counts an answered attempt and folds its round trip in.
    pub fn update_with_success(&mut self, seq: u16, rtt: u128)
        requires
            old(self).wf(),
            old(self).sent < u32::MAX,
            rtt <= MAX_RTT_NANOS,
        ensures
            *final(self) == old(self).with_success(seq, rtt),
            final(self).wf(),
            final(self).sent == old(self).sent + 1,
            final(self).received == old(self).received + 1,
            final(self).sum_rtt == old(self).sum_rtt + rtt,
    {
        proof {
            lemma_sum_has_room(*self, rtt);
            lemma_success_keeps_wf(*self, seq, rtt);
        }
        self.sent = self.sent + 1;
        self.received = self.received + 1;
        self.last_seq = seq;
        self.sum_rtt = self.sum_rtt + rtt;
        match self.min_rtt {
            Some(min_rtt) => {
                if rtt < min_rtt {
                    self.min_rtt = Some(rtt);
                }
            },
            None => {
                self.min_rtt = Some(rtt);
            },
        }
        match self.max_rtt {
            Some(max_rtt) => {
                if rtt > max_rtt {
                    self.max_rtt = Some(rtt);
                }
            },
            None => {
                self.max_rtt = Some(rtt);
            },
        }
    }

    /// Counts an unanswered attempt.
    pub fn update_with_failure(&mut self, seq: u16)
        requires
            old(self).wf(),
            old(self).sent < u32::MAX,
        ensures
            *final(self) == old(self).with_failure(seq),
            final(self).wf(),
            final(self).sent == old(self).sent + 1,
            final(self).received == old(self).received,
    {
        self.sent = self.sent + 1;
        self.last_seq = seq;
    }

    /// Counts one outcome, as a success where it holds no error.
    pub fn record(&mut self, outcome: &PingResponse)
        requires
            old(self).wf(),
            old(self).sent < u32::MAX,
            outcome.wf(),
            outcome.rtt is Some ==> outcome.rtt->Some_0 <= MAX_RTT_NANOS,
        ensures
            *final(self) == old(self).with_outcome(*outcome),
            final(self).wf(),
    {
        if outcome.is_success() {
            match outcome.rtt {
                Some(rtt) => self.update_with_success(outcome.seq, rtt),
                None => {},
            }
        } else {
            self.update_with_failure(outcome.seq);
        }
    }

    /// The mean round trip of the answered attempts, rounded down.
    ///
    /// Absent exactly while nothing was received; otherwise it lies
    /// between the shortest and the longest round trip.
    pub fn avg_rtt(&self) -> (avg: Option<u128>)
        requires
            self.wf(),
        ensures
            avg == self.avg_rtt_spec(),
            avg is Some <==> self.received > 0,
            avg is Some ==> self.min_rtt->Some_0 <= avg->Some_0 <= self.max_rtt->Some_0,
    {
        if self.received > 0 {
            proof {
                lemma_mean_between_extrema(*self);
            }
            Some(self.sum_rtt / (self.received as u128))
        } else {
            None
        }
    }

    /// The share of attempts that went unanswered, in thousandths of a
    /// percent and rounded down: 0 for no loss or nothing sent, `FULL_LOSS`
    /// for nothing received.
    pub fn loss_percent(&self) -> (loss: u32)
        requires
            self.wf(),
        ensures
            loss == self.loss_percent_spec(),
            loss <= FULL_LOSS,
            self.sent > 0 && self.received == 0 ==> loss == FULL_LOSS,
            self.received == self.sent ==> loss == 0,
    {
        if self.sent > 0 {
            let lost: u64 = (self.sent - self.received) as u64;
            let sent: u64 = self.sent as u64;
            proof {
                lemma_loss_range(*self);
            }
            (lost * 100_000 / sent) as u32
        } else {
            0
        }
    }
}

/// The sum of well-formed statistics has room for one more round trip.
proof fn lemma_sum_has_room(stats: PingStats, rtt: u128)
    requires
        stats.wf(),
        rtt <= MAX_RTT_NANOS,
    ensures
        stats.sum_rtt + rtt <= u128::MAX,
{
    if stats.received > 0 {
        let r = stats.received as int;
        let m = stats.max_rtt->Some_0 as int;
        assert(r * m <= 0xffff_ffff * 18_446_744_073_709_551_615_999_999_999) by (nonlinear_arith)
            requires
                0 <= r <= 0xffff_ffff,
                0 <= m <= 18_446_744_073_709_551_615_999_999_999,
        ;
    }
}

/// One more success leaves well-formed statistics well formed.
proof fn lemma_success_keeps_wf(stats: PingStats, seq: u16, rtt: u128)
    requires
        stats.wf(),
        stats.sent < u32::MAX,
        rtt <= MAX_RTT_NANOS,
    ensures
        stats.with_success(seq, rtt).wf(),
        stats.with_success(seq, rtt).sent == stats.sent + 1,
        stats.with_success(seq, rtt).received == stats.received + 1,
        stats.with_success(seq, rtt).sum_rtt == stats.sum_rtt + rtt,
{
    lemma_sum_has_room(stats, rtt);
    let next = stats.with_success(seq, rtt);
    let r = stats.received as int;
    let s = stats.sum_rtt as int;
    let t = rtt as int;
    if stats.received > 0 {
        let lo = stats.min_rtt->Some_0 as int;
        let hi = stats.max_rtt->Some_0 as int;
        let nlo = next.min_rtt->Some_0 as int;
        let nhi = next.max_rtt->Some_0 as int;
        assert((r + 1) * nlo <= s + t) by (nonlinear_arith)
            requires
                r * lo <= s,
                nlo <= lo,
                nlo <= t,
                r >= 0,
        ;
        assert(s + t <= (r + 1) * nhi) by (nonlinear_arith)
            requires
                s <= r * hi,
                hi <= nhi,
                t <= nhi,
                r >= 0,
        ;
    } else {
        assert((r + 1) * t == t) by (nonlinear_arith)
            requires
                r == 0,
        ;
    }
}

/// The mean of well-formed statistics lies between the extrema.
proof fn lemma_mean_between_extrema(stats: PingStats)
    requires
        stats.wf(),
        stats.received > 0,
    ensures
        stats.min_rtt->Some_0 <= stats.sum_rtt / stats.received as u128 <= stats.max_rtt->Some_0,
{
    let r = stats.received as int;
    let s = stats.sum_rtt as int;
    let lo = stats.min_rtt->Some_0 as int;
    let hi = stats.max_rtt->Some_0 as int;
    assert(lo <= s / r <= hi) by (nonlinear_arith)
        requires
            r > 0,
            r * lo <= s <= r * hi,
    ;
}

/// The loss of well-formed statistics lies between nothing and everything.
proof fn lemma_loss_range(stats: PingStats)
    requires
        stats.wf(),
        stats.sent > 0,
    ensures
        0 <= (stats.sent - stats.received) * 100_000 / stats.sent as int <= 100_000,
        (stats.sent - stats.received) * 100_000 <= u64::MAX,
        stats.received == 0 ==> (stats.sent - stats.received) * 100_000 / stats.sent as int
            == 100_000,
        stats.received == stats.sent ==> (stats.sent - stats.received) * 100_000
            / stats.sent as int == 0,
{
    let n = stats.sent as int;
    let lost = stats.sent - stats.received;
    assert(0 <= lost * 100_000 / n <= 100_000) by (nonlinear_arith)
        requires
            n > 0,
            0 <= lost <= n,
    ;
    assert(lost == n ==> lost * 100_000 / n == 100_000) by (nonlinear_arith)
        requires
            n > 0,
    ;
}

/// The laws of the statistics, for any run of outcomes that can be
/// counted: every attempt is a success or a failure and `sent` counts them
/// all, `received` counts the successes, the loss lies between nothing and
/// everything, and mean and extrema are absent together, exactly while
/// nothing was received, and otherwise ordered.
pub proof fn lemma_stats_laws(outcomes: Seq<PingResponse>)
    requires
        recordable(outcomes),
        outcomes.len() <= u32::MAX,
    ensures
        ({
            let s = PingStats::replay(outcomes);
            &&& s.wf()
            &&& s.sent == outcomes.len()
            &&& s.received == successes(outcomes)
            &&& s.sent == successes(outcomes) + failures(outcomes)
            &&& 0 <= s.loss_percent_spec() <= FULL_LOSS
            &&& s.received == 0 ==> s.avg_rtt_spec() is None && s.min_rtt is None && s.max_rtt
                is None
            &&& s.received > 0 ==> s.min_rtt->Some_0 <= s.avg_rtt_spec()->Some_0
                <= s.max_rtt->Some_0
        }),
    decreases outcomes.len(),
{
    if outcomes.len() > 0 {
        let before = outcomes.drop_last();
        assert(recordable(before));
        lemma_stats_laws(before);
        let prev = PingStats::replay(before);
        let last = outcomes.last();
        assert(last.wf());
        if last.is_success_spec() {
            lemma_success_keeps_wf(prev, last.seq, last.rtt->Some_0);
        }
    }
    let s = PingStats::replay(outcomes);
    if s.sent > 0 {
        lemma_loss_range(s);
    }
    if s.received > 0 {
        lemma_mean_between_extrema(s);
    }
}

} // verus!
