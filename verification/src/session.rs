//! A bounded series of probes against one target, as a state machine.
//!
//! For each sequence number the session makes up to `retry + 1` attempts
//! and stops at the first that succeeds. The outcome of every attempt is
//! forwarded to the consumer. Retries are spaced by a short fixed pause,
//! successive sequence numbers by the configured period. The session ends
//! when the sequence numbers are used up, or as soon as the consumer is
//! gone.

use vstd::prelude::*;

use crate::host::PingResponse;

verus! {

/// Milliseconds between a failed attempt and its retry.
pub const RETRY_PAUSE_MS: u64 = 100;

/// What a session is waiting for.
#[derive(Clone, Copy, Debug, PartialEq, Eq, Structural)]
pub enum SessionPhase {
    /// The outcome of a probe is awaited.
    Probing,
    /// The delivery of an outcome to the consumer is awaited.
    Forwarding,
    /// The end of a pause is awaited.
    Pausing,
    /// The session is over.
    Finished,
}

/// A session in progress.
#[derive(Clone, Copy, Debug, PartialEq, Eq, Structural)]
pub struct ProbeSession {
    /// How many sequence numbers to probe.
    pub count: u32,
    /// Milliseconds between successive sequence numbers.
    pub period_ms: u64,
    /// Milliseconds before an attempt times out.
    pub timeout_ms: u64,
    /// How many times a failed attempt is repeated.
    pub retry: u32,
    /// How many sequence numbers are done with.
    pub index: u32,
    /// How many attempts of the current sequence number have failed, the
    /// one being forwarded not counted.
    pub failed: u32,
    /// Whether the attempt being forwarded succeeded.
    pub succeeded: bool,
    /// What the session is waiting for.
    pub phase: SessionPhase,
}

/// What the caller reports to a session.
#[derive(Debug)]
pub enum SessionEvent {
    /// The probe that was asked for ended with this outcome.
    Probed(PingResponse),
    /// The consumer took the outcome.
    Forwarded,
    /// The consumer is no longer there to take outcomes.
    ConsumerGone,
    /// The pause is over.
    Slept,
}

/// What a session asks the caller to do.
#[derive(Debug)]
pub enum SessionAction {
    /// Probe once with this sequence number and timeout and report
    /// `Probed`.
    Probe(u16, u64),
    /// Hand this outcome to the consumer and report `Forwarded` or
    /// `ConsumerGone`.
    Forward(PingResponse),
    /// Pause for this many milliseconds and report `Slept`.
    Sleep(u64),
    /// The session is over.
    Finish,
}

/// The sequence number of the `index`-th probe: it wraps at 65536.
pub open spec fn sequence_number(index: u32) -> u16 {
    (index % 0x1_0000) as u16
}

impl ProbeSession {
    /// A running session has sequence numbers left and has not failed the
    /// current one more often than it may retry.
    pub open spec fn wf(self) -> bool {
        self.phase != SessionPhase::Finished ==> self.index < self.count && self.failed
            <= self.retry
    }

    /// The session as it starts out with the given settings.
    pub open spec fn initial(count: u32, period_ms: u64, timeout_ms: u64, retry: u32) -> (
        ProbeSession,
        SessionAction,
    ) {
        let session = ProbeSession {
            count,
            period_ms,
            timeout_ms,
            retry,
            index: 0,
            failed: 0,
            succeeded: false,
            phase: if count == 0 {
                SessionPhase::Finished
            } else {
                SessionPhase::Probing
            },
        };
        (
            session,
            if count == 0 {
                SessionAction::Finish
            } else {
                SessionAction::Probe(0, timeout_ms)
            },
        )
    }

    /// Whether the attempt being forwarded closes its sequence number: it
    /// succeeded, or it was the last attempt allowed.
    pub open spec fn sequence_done(self) -> bool {
        self.succeeded || self.failed >= self.retry
    }

    /// The session and the action that follow `event`.
    ///
    /// An event that the session did not wait for ends it.
    pub open spec fn next(self, event: SessionEvent) -> (ProbeSession, SessionAction) {
        match (self.phase, event) {
            (SessionPhase::Probing, SessionEvent::Probed(outcome)) => (
                ProbeSession {
                    succeeded: outcome.is_success_spec(),
                    phase: SessionPhase::Forwarding,
                    ..self
                },
                SessionAction::Forward(outcome),
            ),
            (SessionPhase::Forwarding, SessionEvent::Forwarded) => if !self.sequence_done() {
                (
                    ProbeSession {
                        failed: (self.failed + 1) as u32,
                        phase: SessionPhase::Pausing,
                        ..self
                    },
                    SessionAction::Sleep(RETRY_PAUSE_MS),
                )
            } else if self.index + 1 < self.count {
                (
                    ProbeSession {
                        index: (self.index + 1) as u32,
                        failed: 0,
                        phase: SessionPhase::Pausing,
                        ..self
                    },
                    SessionAction::Sleep(self.period_ms),
                )
            } else {
                (ProbeSession { phase: SessionPhase::Finished, ..self }, SessionAction::Finish)
            },
            (SessionPhase::Pausing, SessionEvent::Slept) => (
                ProbeSession { phase: SessionPhase::Probing, ..self },
                SessionAction::Probe(sequence_number(self.index), self.timeout_ms),
            ),
            _ => (ProbeSession { phase: SessionPhase::Finished, ..self }, SessionAction::Finish),
        }
    }

    /// Starts a session.
    ///
    /// With nothing to probe the session is over at once; otherwise the
    /// first probe, with sequence number 0, is asked for.
    pub fn start(count: u32, period_ms: u64, timeout_ms: u64, retry: u32) -> (res: (
        Self,
        SessionAction,
    ))
        ensures
            res == Self::initial(count, period_ms, timeout_ms, retry),
            res.0.wf(),
    {
        let phase = if count == 0 {
            SessionPhase::Finished
        } else {
            SessionPhase::Probing
        };
        let session = ProbeSession {
            count,
            period_ms,
            timeout_ms,
            retry,
            index: 0,
            failed: 0,
            succeeded: false,
            phase,
        };
        let action = if count == 0 {
            SessionAction::Finish
        } else {
            SessionAction::Probe(0, timeout_ms)
        };
        (session, action)
    }

    /// Advances the session by one event and says what to do next.
    pub fn step(&mut self, event: SessionEvent) -> (action: SessionAction)
        requires
            old(self).wf(),
        ensures
            (*final(self), action) == old(self).next(event),
            final(self).wf(),
            action is Finish <==> final(self).phase == SessionPhase::Finished,
            final(self).count == old(self).count,
            final(self).retry == old(self).retry,
    {
        match (self.phase, event) {
            (SessionPhase::Probing, SessionEvent::Probed(outcome)) => {
                self.succeeded = outcome.is_success();
                self.phase = SessionPhase::Forwarding;
                SessionAction::Forward(outcome)
            },
            (SessionPhase::Forwarding, SessionEvent::Forwarded) => {
                if !self.succeeded && self.failed < self.retry {
                    self.failed = self.failed + 1;
                    self.phase = SessionPhase::Pausing;
                    SessionAction::Sleep(RETRY_PAUSE_MS)
                } else if self.index < self.count - 1 {
                    self.index = self.index + 1;
                    self.failed = 0;
                    self.phase = SessionPhase::Pausing;
                    SessionAction::Sleep(self.period_ms)
                } else {
                    self.phase = SessionPhase::Finished;
                    SessionAction::Finish
                }
            },
            (SessionPhase::Pausing, SessionEvent::Slept) => {
                self.phase = SessionPhase::Probing;
                SessionAction::Probe(wrapped(self.index), self.timeout_ms)
            },
            _ => {
                self.phase = SessionPhase::Finished;
                SessionAction::Finish
            },
        }
    }
}

/// The sequence number of the `index`-th probe.
fn wrapped(index: u32) -> (seq: u16)
    ensures
        seq == sequence_number(index),
{
    (index % 0x1_0000) as u16
}

/// How many outcomes a session that is about to probe forwards for its
/// current sequence number, when the attempts end as `outcomes` tells and
/// the consumer takes each: the session is driven through `next` until it
/// leaves the sequence number or the outcomes run out.
pub open spec fn forwarded_for_sequence(session: ProbeSession, outcomes: Seq<PingResponse>) -> nat
    decreases outcomes.len(),
{
    if outcomes.len() == 0 {
        0
    } else {
        let forwarding = session.next(SessionEvent::Probed(outcomes[0])).0;
        let after = forwarding.next(SessionEvent::Forwarded).0;
        if after.phase == SessionPhase::Pausing && after.index == session.index {
            1 + forwarded_for_sequence(
                after.next(SessionEvent::Slept).0,
                outcomes.drop_first(),
            )
        } else {
            1
        }
    }
}

/// Retry accounting: a sequence number never takes more attempts than the
/// retries left allow, and one whose first `k` attempts fail and whose next
/// succeeds, with `k` within the retries left, forwards exactly `k + 1`
/// outcomes.
pub proof fn lemma_retry_accounting(session: ProbeSession, outcomes: Seq<PingResponse>, k: nat)
    requires
        session.wf(),
        session.phase == SessionPhase::Probing,
    ensures
        forwarded_for_sequence(session, outcomes) <= session.retry - session.failed + 1,
        forwarded_for_sequence(session, outcomes) <= outcomes.len(),
        k <= session.retry - session.failed && k < outcomes.len()
            && outcomes[k as int].is_success_spec() && (forall|i: int|
            0 <= i < k ==> !outcomes[i].is_success_spec()) ==> forwarded_for_sequence(
            session,
            outcomes,
        ) == k + 1,
    decreases outcomes.len(),
{
    if outcomes.len() > 0 {
        let forwarding = session.next(SessionEvent::Probed(outcomes[0])).0;
        let after = forwarding.next(SessionEvent::Forwarded).0;
        if after.phase == SessionPhase::Pausing && after.index == session.index {
            let again = after.next(SessionEvent::Slept).0;
            let rest = outcomes.drop_first();
            let k1: nat = if k > 0 {
                (k - 1) as nat
            } else {
                0
            };
            if session.index + 1 < session.count && forwarding.sequence_done() {
                assert(after.index == session.index + 1);
            }
            assert(!outcomes[0].is_success_spec());
            assert(again.failed == session.failed + 1);
            lemma_retry_accounting(again, rest, k1);
            if k > 0 && k < outcomes.len() {
                assert(rest[k1 as int] == outcomes[k as int]);
                assert forall|i: int|
                    0 <= i < k1 && (forall|j: int|
                        0 <= j < k ==> !outcomes[j].is_success_spec()) implies !rest[i].is_success_spec() by {
                    assert(rest[i] == outcomes[i + 1]);
                }
            }
        } else {
            if k > 0 && k <= session.retry - session.failed && k < outcomes.len() && (forall|
                i: int,
            |
                0 <= i < k ==> !outcomes[i].is_success_spec()) {
                assert(!outcomes[0].is_success_spec());
                assert(!forwarding.sequence_done());
            }
        }
    }
}

} // verus!
