//! One probe of one target, as a state machine.
//!
//! The prober owns no socket and reads no clock. It says what to do next,
//! the caller does it and reports what happened:
//!
//! ```text
//! start_probe ──Send──▶ Sending ──Sent──▶ Timing ──Clock──▶ Receiving
//!                                           ▲                  │
//!                                           └──Slept── Pausing ◀┘ (no match)
//! ```
//!
//! The probe finishes with a success when a matching reply is received,
//! with a timeout when the clock reaches the deadline, with a send error
//! when sending fails, and with the catch-all error when receiving fails.

use vstd::prelude::*;
use vstd::string::*;

use crate::error::PingError;
use crate::host::{PingResponse, PingTarget};
use crate::icmp::{
    carries_control_message, ipv4_header_len, is_matching_reply, octets_from, parse_echo_reply,
    unwrap_ipv4, IcmpEchoRequest, MAX_PACKET_LEN,
};

verus! {

/// Milliseconds to wait after a poll that brought no matching reply.
pub const POLL_PAUSE_MS: u64 = 1;

/// Nanoseconds in a millisecond.
pub const NANOS_PER_MILLI: u128 = 1_000_000;

/// The fixed parameters of probing one target.
#[derive(Debug)]
pub struct Pinger {
    /// Tags every request of this prober.
    pub identifier: u16,
    /// The host that is probed.
    pub target: PingTarget,
    /// Octets in each request, header included.
    pub size: usize,
    /// Time to live that requests are sent with.
    pub ttl: u32,
}

/// What a probe is waiting for.
#[derive(Clone, Copy, Debug, PartialEq, Eq, Structural)]
pub enum ProbePhase {
    /// The request was handed out and its sending is awaited.
    Sending,
    /// A reading of the clock is awaited.
    Timing,
    /// The result of one poll of the socket is awaited.
    Receiving,
    /// The end of a short pause is awaited.
    Pausing,
    /// The outcome was handed out.
    Finished,
}

/// A probe in flight.
#[derive(Clone, Copy, Debug, PartialEq, Eq, Structural)]
pub struct Probe {
    /// The sequence number of the request.
    pub seq: u16,
    /// Milliseconds after sending at which the probe times out.
    pub timeout_ms: u64,
    /// What the probe is waiting for.
    pub phase: ProbePhase,
}

/// What the caller reports to a probe.
#[derive(Debug)]
pub enum ProbeEvent {
    /// The request was sent.
    Sent,
    /// Sending failed, with the system's message.
    SendFailed(String),
    /// The clock was read: nanoseconds since the request was handed out.
    Clock(u128),
    /// A datagram arrived, read at the given nanoseconds since the request
    /// was handed out.
    Datagram(Vec<u8>, u128),
    /// The socket had nothing to read.
    WouldBlock,
    /// Receiving failed, with the system's message.
    ReceiveFailed(String),
    /// The pause is over.
    Slept,
}

/// What a probe asks the caller to do.
#[derive(Debug)]
pub enum ProbeAction {
    /// Note the time, send these octets to the target and report `Sent` or
    /// `SendFailed`.
    Send(Vec<u8>),
    /// Read the clock and report `Clock`.
    ReadClock,
    /// Poll the socket once without blocking and report `Datagram`,
    /// `WouldBlock` or `ReceiveFailed`.
    Receive,
    /// Pause for this many milliseconds and report `Slept`.
    Sleep(u64),
    /// The probe is over, with this outcome.
    Finish(PingResponse),
}

/// Draws the identifier of a new prober with `rand::random::<u16>()`.
///
/// Trusted to return; nothing is claimed of the number drawn.
#[verifier::external_body]
fn random_identifier() -> u16 {
    rand::random::<u16>()
}

/// The low eight bits of a time to live, which is what an outcome reports.
pub open spec fn ttl_octet(ttl: u32) -> u8 {
    (ttl % 256) as u8
}

/// Whether `elapsed` nanoseconds reach a deadline of `timeout_ms`
/// milliseconds.
pub open spec fn deadline_reached(elapsed: u128, timeout_ms: u64) -> bool {
    elapsed >= timeout_ms as int * 1_000_000
}

/// Whether `datagram` is an IPv4 datagram that carries the echo reply to
/// the request tagged `identifier` and `seq`.
pub open spec fn holds_reply(datagram: Seq<u8>, identifier: u16, seq: u16) -> bool {
    carries_control_message(datagram) && is_matching_reply(
        datagram,
        ipv4_header_len(datagram),
        identifier,
        seq,
    )
}

/// `len` zero octets.
pub open spec fn zeros(len: usize) -> Seq<u8> {
    Seq::new(len as nat, |i: int| 0u8)
}

/// The text of the error for an event that a probe did not wait for.
pub open spec fn unexpected_event_text() -> Seq<char> {
    "unexpected probe event"@
}

/// The error that the creation of a raw socket failed with: a lack of
/// privilege is told apart from every other cause.
pub fn socket_error(permission_denied: bool, message: String) -> (error: PingError)
    ensures
        error == if permission_denied {
            PingError::PermissionDenied
        } else {
            PingError::SendError(message)
        },
{
    if permission_denied {
        PingError::PermissionDenied
    } else {
        PingError::SendError(message)
    }
}

impl Pinger {
    /// A prober with a freshly drawn identifier.
    pub fn new(target: PingTarget, size: usize, ttl: u32) -> (pinger: Self)
        ensures
            pinger.target == target,
            pinger.size == size,
            pinger.ttl == ttl,
    {
        Self::with_identifier(target, size, ttl, random_identifier())
    }

    /// A prober with the given identifier.
    pub fn with_identifier(target: PingTarget, size: usize, ttl: u32, identifier: u16) -> (pinger:
        Self)
        ensures
            pinger == (Pinger { identifier, target, size, ttl }),
    {
        Self { identifier, target, size, ttl }
    }

    /// The failed outcome of attempt `seq`.
    pub open spec fn failed(self, seq: u16, error: PingError) -> PingResponse {
        PingResponse {
            target: self.target,
            seq,
            rtt: None,
            bytes: self.size,
            ttl: ttl_octet(self.ttl),
            error: Some(error),
        }
    }

    /// The outcome of attempt `seq` answered by `datagram` after `elapsed`
    /// nanoseconds.
    pub open spec fn answered(self, seq: u16, datagram: Seq<u8>, elapsed: u128) -> PingResponse {
        PingResponse {
            target: self.target,
            seq,
            rtt: Some(elapsed),
            bytes: octets_from(datagram, ipv4_header_len(datagram)),
            ttl: datagram[8],
            error: None,
        }
    }

    /// Whether a request of this prober can be built at all: its size
    /// holds the echo header and is one whose checksum can be computed.
    pub open spec fn size_valid(self) -> bool {
        8 <= self.size <= MAX_PACKET_LEN
    }

    /// The request of attempt `seq` as it goes on the wire.
    pub open spec fn request_packet(self, seq: u16) -> Seq<u8> {
        (IcmpEchoRequest {
            identifier: self.identifier,
            sequence: seq,
            payload_size: self.size,
        }).encoded(zeros(self.size))
    }

    /// Builds the failed outcome of attempt `seq`.
    fn fail(&self, seq: u16, error: PingError) -> (res: PingResponse)
        ensures
            res == self.failed(seq, error),
            res.wf(),
    {
        PingResponse::failure(self.target.clone(), seq, self.size, low_octet_of(self.ttl), error)
    }

    /// Begins attempt `seq`.
    ///
    /// Where the request can be built, the probe waits for it to be sent.
    /// A size that cannot hold the echo header, or one too large for a
    /// checksum, finishes the probe at once with a construction error.
    pub fn start_probe(&self, seq: u16, timeout_ms: u64) -> (res: (Probe, ProbeAction))
        ensures
            res.0.seq == seq,
            res.0.timeout_ms == timeout_ms,
            self.size_valid() ==> res.0.phase == ProbePhase::Sending && res.1 is Send
                && res.1->Send_0@ == self.request_packet(seq),
            !self.size_valid() ==> res.0.phase == ProbePhase::Finished && res.1
                == ProbeAction::Finish(self.failed(seq, PingError::PacketConstructionError)),
    {
        if self.size > MAX_PACKET_LEN {
            let outcome = self.fail(seq, PingError::PacketConstructionError);
            return (Probe { seq, timeout_ms, phase: ProbePhase::Finished }, ProbeAction::Finish(
                outcome,
            ));
        }
        let mut buffer: Vec<u8> = zeroed(self.size);
        let request = IcmpEchoRequest::new(self.identifier, seq, self.size);
        match request.create_packet(&mut buffer) {
            Ok(()) => (
                Probe { seq, timeout_ms, phase: ProbePhase::Sending },
                ProbeAction::Send(buffer),
            ),
            Err(e) => {
                let outcome = self.fail(seq, e);
                (Probe { seq, timeout_ms, phase: ProbePhase::Finished }, ProbeAction::Finish(
                    outcome,
                ))
            },
        }
    }

    /// Looks for the reply to attempt `seq` in a received datagram.
    ///
    /// The datagram answers the attempt exactly when it is an IPv4
    /// datagram that carries ICMP and holds, behind the IPv4 header, an
    /// echo reply with this prober's identifier and the attempt's sequence
    /// number.
    pub fn match_reply(&self, seq: u16, datagram: &[u8], elapsed: u128) -> (res: Option<
        PingResponse,
    >)
        ensures
            res is Some <==> holds_reply(datagram@, self.identifier, seq),
            res is Some ==> res->Some_0 == self.answered(seq, datagram@, elapsed),
            res is Some ==> res->Some_0.wf(),
    {
        match unwrap_ipv4(datagram) {
            Some(envelope) => match parse_echo_reply(
                datagram,
                envelope.offset,
                self.identifier,
                seq,
                elapsed,
                envelope.ttl,
            ) {
                Some(reply) => Some(
                    PingResponse::success(
                        self.target.clone(),
                        seq,
                        reply.rtt,
                        reply.size,
                        reply.ttl,
                    ),
                ),
                None => None,
            },
            None => None,
        }
    }

    /// The phase and the action that follow `event` in `probe`, for an
    /// event that the probe waits for; nothing for any other event.
    pub open spec fn next(self, probe: Probe, event: ProbeEvent) -> Option<(Probe, ProbeAction)> {
        match (probe.phase, event) {
            (ProbePhase::Sending, ProbeEvent::Sent) => Some(
                (Probe { phase: ProbePhase::Timing, ..probe }, ProbeAction::ReadClock),
            ),
            (ProbePhase::Sending, ProbeEvent::SendFailed(message)) => Some(
                (
                    Probe { phase: ProbePhase::Finished, ..probe },
                    ProbeAction::Finish(self.failed(probe.seq, PingError::SendError(message))),
                ),
            ),
            (ProbePhase::Timing, ProbeEvent::Clock(elapsed)) => if deadline_reached(
                elapsed,
                probe.timeout_ms,
            ) {
                Some(
                    (
                        Probe { phase: ProbePhase::Finished, ..probe },
                        ProbeAction::Finish(self.failed(probe.seq, PingError::Timeout)),
                    ),
                )
            } else {
                Some((Probe { phase: ProbePhase::Receiving, ..probe }, ProbeAction::Receive))
            },
            (ProbePhase::Receiving, ProbeEvent::Datagram(data, elapsed)) => if holds_reply(
                data@,
                self.identifier,
                probe.seq,
            ) {
                Some(
                    (
                        Probe { phase: ProbePhase::Finished, ..probe },
                        ProbeAction::Finish(self.answered(probe.seq, data@, elapsed)),
                    ),
                )
            } else {
                Some(
                    (
                        Probe { phase: ProbePhase::Pausing, ..probe },
                        ProbeAction::Sleep(POLL_PAUSE_MS),
                    ),
                )
            },
            (ProbePhase::Receiving, ProbeEvent::WouldBlock) => Some(
                (Probe { phase: ProbePhase::Pausing, ..probe }, ProbeAction::Sleep(POLL_PAUSE_MS)),
            ),
            (ProbePhase::Receiving, ProbeEvent::ReceiveFailed(message)) => Some(
                (
                    Probe { phase: ProbePhase::Finished, ..probe },
                    ProbeAction::Finish(self.failed(probe.seq, PingError::Other(message))),
                ),
            ),
            (ProbePhase::Pausing, ProbeEvent::Slept) => Some(
                (Probe { phase: ProbePhase::Timing, ..probe }, ProbeAction::ReadClock),
            ),
            _ => None,
        }
    }

    /// Whether `outcome` is the failure that an event ends attempt `seq`
    /// with when the probe did not wait for it.
    pub open spec fn is_unexpected(self, seq: u16, outcome: PingResponse) -> bool {
        &&& outcome.target == self.target
        &&& outcome.seq == seq
        &&& outcome.rtt is None
        &&& outcome.bytes == self.size
        &&& outcome.ttl == ttl_octet(self.ttl)
        &&& outcome.error is Some
        &&& outcome.error->Some_0 is Other
        &&& outcome.error->Some_0->Other_0@ == unexpected_event_text()
    }

    /// Advances `probe` by one event and says what to do next.
    ///
    /// For an event that the probe waits for, phase and action are those
    /// of `next`. Any other event finishes the probe with the catch-all
    /// error.
    pub fn step(&self, probe: &mut Probe, event: ProbeEvent) -> (action: ProbeAction)
        ensures
            match self.next(*old(probe), event) {
                Some(after) => *final(probe) == after.0 && action == after.1,
                None => *final(probe) == (Probe { phase: ProbePhase::Finished, ..*old(probe) })
                    && action is Finish && self.is_unexpected(old(probe).seq, action->Finish_0),
            },
            action is Finish <==> final(probe).phase == ProbePhase::Finished,
            action is Finish ==> action->Finish_0.wf(),
    {
        let seq = probe.seq;
        match (probe.phase, event) {
            (ProbePhase::Sending, ProbeEvent::Sent) => {
                probe.phase = ProbePhase::Timing;
                ProbeAction::ReadClock
            },
            (ProbePhase::Sending, ProbeEvent::SendFailed(message)) => {
                probe.phase = ProbePhase::Finished;
                ProbeAction::Finish(self.fail(seq, PingError::SendError(message)))
            },
            (ProbePhase::Timing, ProbeEvent::Clock(elapsed)) => {
                if past_deadline(elapsed, probe.timeout_ms) {
                    probe.phase = ProbePhase::Finished;
                    ProbeAction::Finish(self.fail(seq, PingError::Timeout))
                } else {
                    probe.phase = ProbePhase::Receiving;
                    ProbeAction::Receive
                }
            },
            (ProbePhase::Receiving, ProbeEvent::Datagram(data, elapsed)) => {
                match self.match_reply(seq, data.as_slice(), elapsed) {
                    Some(outcome) => {
                        probe.phase = ProbePhase::Finished;
                        ProbeAction::Finish(outcome)
                    },
                    None => {
                        probe.phase = ProbePhase::Pausing;
                        ProbeAction::Sleep(POLL_PAUSE_MS)
                    },
                }
            },
            (ProbePhase::Receiving, ProbeEvent::WouldBlock) => {
                probe.phase = ProbePhase::Pausing;
                ProbeAction::Sleep(POLL_PAUSE_MS)
            },
            (ProbePhase::Receiving, ProbeEvent::ReceiveFailed(message)) => {
                probe.phase = ProbePhase::Finished;
                ProbeAction::Finish(self.fail(seq, PingError::Other(message)))
            },
            (ProbePhase::Pausing, ProbeEvent::Slept) => {
                probe.phase = ProbePhase::Timing;
                ProbeAction::ReadClock
            },
            _ => {
                probe.phase = ProbePhase::Finished;
                ProbeAction::Finish(
                    self.fail(seq, PingError::Other(String::from_str("unexpected probe event"))),
                )
            },
        }
    }
}

/// The low eight bits of `ttl`.
fn low_octet_of(ttl: u32) -> (octet: u8)
    ensures
        octet == ttl_octet(ttl),
{
    (ttl % 256) as u8
}

/// Whether `elapsed` nanoseconds reach a deadline of `timeout_ms`
/// milliseconds.
fn past_deadline(elapsed: u128, timeout_ms: u64) -> (reached: bool)
    ensures
        reached == deadline_reached(elapsed, timeout_ms),
{
    elapsed >= (timeout_ms as u128) * NANOS_PER_MILLI
}

/// A buffer of `len` zero octets.
fn zeroed(len: usize) -> (buffer: Vec<u8>)
    ensures
        buffer@ == zeros(len),
{
    let mut buffer: Vec<u8> = Vec::new();
    let mut i: usize = 0;
    while i < len
        invariant
            i <= len,
            buffer@ == Seq::new(i as nat, |k: int| 0u8),
        decreases len - i,
    {
        buffer.push(0);
        i = i + 1;
    }
    buffer
}

} // verus!
