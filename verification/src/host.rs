//! Probe targets and probe outcomes.

use vstd::prelude::*;
use vstd::string::*;

use crate::address::IpAddress;
use crate::error::PingError;

verus! {

/// A host to probe: the name it was given under and its address.
#[derive(Debug)]
pub struct PingTarget {
    /// The name as the user wrote it.
    pub name: String,
    /// The address the name resolved to.
    pub addr: IpAddress,
}

impl Clone for PingTarget {
    fn clone(&self) -> (res: Self)
        ensures
            res == *self,
    {
        PingTarget { name: self.name.clone(), addr: self.addr }
    }
}

impl PingTarget {
    /// A target with the given name and address.
    pub fn new(host: String, addr: IpAddress) -> (target: Self)
        ensures
            target == (PingTarget { name: host, addr }),
    {
        Self { name: host, addr }
    }
}

/// The outcome of one probe attempt.
///
/// A success holds a round-trip time and no error; a failure holds an
/// error and no round-trip time.
#[derive(Debug)]
pub struct PingResponse {
    /// The host that was probed.
    pub target: PingTarget,
    /// The sequence number of the attempt.
    pub seq: u16,
    /// Nanoseconds from request to reply, for a success.
    pub rtt: Option<u128>,
    /// Octets received, or octets sent where none came back.
    pub bytes: usize,
    /// Time to live seen on the reply, or the one sent with.
    pub ttl: u8,
    /// What went wrong, for a failure.
    pub error: Option<PingError>,
}

impl Clone for PingResponse {
    fn clone(&self) -> (res: Self)
        ensures
            res == *self,
    {
        let error = match &self.error {
            Some(e) => Some(e.clone()),
            None => None,
        };
        PingResponse {
            target: self.target.clone(),
            seq: self.seq,
            rtt: self.rtt,
            bytes: self.bytes,
            ttl: self.ttl,
            error,
        }
    }
}

impl PingResponse {
    /// Exactly one of round-trip time and error is present.
    pub open spec fn wf(self) -> bool {
        self.rtt is Some <==> self.error is None
    }

    /// Whether the outcome is a success.
    pub open spec fn is_success_spec(self) -> bool {
        self.error is None
    }

    /// The outcome of an attempt that was answered.
    pub fn success(target: PingTarget, seq: u16, rtt: u128, bytes: usize, ttl: u8) -> (res: Self)
        ensures
            res == (PingResponse { target, seq, rtt: Some(rtt), bytes, ttl, error: None }),
            res.wf(),
            res.is_success_spec(),
    {
        Self { target, seq, rtt: Some(rtt), bytes, ttl, error: None }
    }

    /// The outcome of an attempt that failed with `error`.
    pub fn failure(target: PingTarget, seq: u16, bytes: usize, ttl: u8, error: PingError) -> (res:
        Self)
        ensures
            res == (PingResponse { target, seq, rtt: None, bytes, ttl, error: Some(error) }),
            res.wf(),
            !res.is_success_spec(),
    {
        Self { target, seq, rtt: None, bytes, ttl, error: Some(error) }
    }

    /// Whether the outcome is a success.
    pub fn is_success(&self) -> (ok: bool)
        ensures
            ok == self.is_success_spec(),
    {
        self.error.is_none()
    }
}

/// The index of the first IPv4 address in `candidates`, or their number
/// where there is none.
pub open spec fn first_ipv4(candidates: Seq<IpAddress>) -> int
    decreases candidates.len(),
{
    if candidates.len() == 0 {
        0
    } else if candidates[0] is V4 {
        0
    } else {
        1 + first_ipv4(candidates.drop_first())
    }
}

/// The address to use out of those a name resolved to: the first IPv4
/// address where there is one, else the first address, else none.
pub open spec fn preferred_address(candidates: Seq<IpAddress>) -> Option<IpAddress> {
    if candidates.len() == 0 {
        None
    } else if first_ipv4(candidates) < candidates.len() {
        Some(candidates[first_ipv4(candidates)])
    } else {
        Some(candidates[0])
    }
}

/// Where `first_ipv4` points: at an IPv4 address with none before it, or
/// past the end of a list that holds none.
pub proof fn lemma_first_ipv4(candidates: Seq<IpAddress>)
    ensures
        0 <= first_ipv4(candidates) <= candidates.len(),
        first_ipv4(candidates) < candidates.len() ==> candidates[first_ipv4(candidates)] is V4,
        forall|i: int| 0 <= i < first_ipv4(candidates) ==> !(#[trigger] candidates[i] is V4),
    decreases candidates.len(),
{
    if candidates.len() > 0 && !(candidates[0] is V4) {
        let rest = candidates.drop_first();
        lemma_first_ipv4(rest);
        assert forall|i: int| 0 <= i < first_ipv4(candidates) implies !(
        #[trigger] candidates[i] is V4) by {
            if i > 0 {
                assert(candidates[i] == rest[i - 1]);
            }
        }
    }
}

/// Picks the address to probe out of those a name resolved to, IPv4 first.
pub fn select_address(candidates: &Vec<IpAddress>) -> (chosen: Option<IpAddress>)
    ensures
        chosen == preferred_address(candidates@),
{
    proof {
        lemma_first_ipv4(candidates@);
    }
    let mut i: usize = 0;
    while i < candidates.len()
        invariant
            i <= candidates.len(),
            i <= first_ipv4(candidates@),
            first_ipv4(candidates@) <= candidates@.len(),
            first_ipv4(candidates@) < candidates@.len() ==> candidates@[first_ipv4(
                candidates@,
            )] is V4,
        decreases candidates.len() - i,
    {
        if candidates[i].is_ipv4() {
            proof {
                lemma_first_ipv4(candidates@);
            }
            return Some(candidates[i]);
        }
        i = i + 1;
    }
    if candidates.len() > 0 {
        Some(candidates[0])
    } else {
        None
    }
}

/// The text of the error for a name that resolved to no address.
pub open spec fn no_addresses_text(host: Seq<char>) -> Seq<char> {
    "No addresses found for "@ + host
}

/// The text of the error for a name whose lookup failed.
pub open spec fn lookup_failed_text(host: Seq<char>) -> Seq<char> {
    "Failed to resolve "@ + host
}

/// Decides what a host name resolves to.
///
/// `literal` is the address that the text itself spells, where it spells
/// one, and `lookup` is what the system resolver found, or nothing where
/// the lookup failed. A literal wins; else the preferred address of the
/// lookup; else the error names the host.
pub fn resolve_host(host: &str, literal: Option<IpAddress>, lookup: Option<Vec<IpAddress>>) -> (res:
    Result<IpAddress, PingError>)
    ensures
        literal is Some ==> res == Ok::<IpAddress, PingError>(literal->Some_0),
        literal is None && lookup is Some && lookup->Some_0@.len() > 0 ==> res is Ok && Some(
            res->Ok_0,
        ) == preferred_address(lookup->Some_0@),
        literal is None && lookup is Some && lookup->Some_0@.len() == 0 ==> res is Err
            && res->Err_0 is ResolutionError && res->Err_0->ResolutionError_0@
            == no_addresses_text(host@),
        literal is None && lookup is None ==> res is Err && res->Err_0 is ResolutionError
            && res->Err_0->ResolutionError_0@ == lookup_failed_text(host@),
{
    if let Some(addr) = literal {
        return Ok(addr);
    }
    match lookup {
        Some(found) => match select_address(&found) {
            Some(addr) => Ok(addr),
            None => Err(
                PingError::ResolutionError(String::from_str("No addresses found for ").concat(host)),
            ),
        },
        None => Err(
            PingError::ResolutionError(String::from_str("Failed to resolve ").concat(host)),
        ),
    }
}

} // verus!
