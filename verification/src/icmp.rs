//! The ICMP echo wire codec.
//!
//! An echo packet is eight header octets followed by the payload:
//!
//! ```text
//!  0      1      2      3      4      5      6      7      8 ...
//! +------+------+-------------+-------------+-------------+--------
//! | type | code |  checksum   | identifier  |  sequence   | payload
//! +------+------+-------------+-------------+-------------+--------
//! ```
//!
//! All sixteen-bit fields are big-endian. The checksum is the one's
//! complement of the one's-complement sum of the packet read as sixteen-bit
//! words, with the checksum field itself left out.

use vstd::prelude::*;

use crate::error::PingError;

verus! {

/// The type octet of an echo request.
pub const ECHO_REQUEST: u8 = 8;

/// The type octet of an echo reply.
pub const ECHO_REPLY: u8 = 0;

/// Octets in the echo header, the least an echo packet can hold.
pub const ECHO_HEADER_LEN: usize = 8;

/// Octets in the fixed part of an IPv4 header.
pub const IPV4_HEADER_LEN: usize = 20;

/// The protocol number of ICMP in an IPv4 header.
pub const IPV4_PROTOCOL_ICMP: u8 = 1;

/// The longest packet that is encoded: an IP datagram holds no more, and
/// the sum behind the checksum stays far inside 32 bits.
pub const MAX_PACKET_LEN: usize = 65535;

/// The value of two octets read as one big-endian word.
pub open spec fn be16(hi: u8, lo: u8) -> int {
    hi as int * 256 + lo as int
}

/// The sum of `data` read as big-endian sixteen-bit words, leaving out the
/// word at index `skip`. An odd last octet counts as the high half of one
/// more word.
pub open spec fn word_sum(data: Seq<u8>, skip: int) -> int
    decreases data.len(),
{
    if data.len() == 0 {
        0
    } else if data.len() % 2 == 1 {
        word_sum(data.drop_last(), skip) + if (data.len() - 1) / 2 == skip {
            0
        } else {
            data.last() as int * 256
        }
    } else {
        word_sum(data.subrange(0, data.len() - 2), skip) + if (data.len() - 2) / 2 == skip {
            0
        } else {
            be16(data[data.len() - 2], data[data.len() - 1])
        }
    }
}

/// Adds the carries above bit sixteen back in until none is left.
pub open spec fn fold_carries(sum: int) -> int
    decreases sum,
{
    if sum < 0x1_0000 {
        sum
    } else {
        fold_carries(sum / 0x1_0000 + sum % 0x1_0000)
    }
}

/// The checksum that belongs in octets two and three of `packet`.
pub open spec fn echo_checksum(packet: Seq<u8>) -> int {
    0xffff - fold_carries(word_sum(packet, 1))
}

/// The checksum that octets two and three of `packet` hold.
pub open spec fn embedded_checksum(packet: Seq<u8>) -> int
    recommends
        packet.len() >= 4,
{
    be16(packet[2], packet[3])
}

/// Whether the checksum inside `packet` is the one computed over it.
pub open spec fn checksum_valid(packet: Seq<u8>) -> bool {
    packet.len() >= 4 && embedded_checksum(packet) == echo_checksum(packet)
}

/// An echo request still to be encoded.
#[derive(Clone, Copy, Debug, PartialEq, Eq, Structural)]
pub struct IcmpEchoRequest {
    /// Tags every probe of one prober.
    pub identifier: u16,
    /// Tags one probe of a session.
    pub sequence: u16,
    /// Octets in the whole packet, header included.
    pub payload_size: usize,
}

/// An echo reply that matched the request it was checked against.
#[derive(Clone, Copy, Debug, PartialEq, Eq, Structural)]
pub struct IcmpEchoReply {
    /// The identifier found in the reply.
    pub identifier: u16,
    /// The sequence number found in the reply.
    pub sequence: u16,
    /// Time to live of the datagram that carried the reply.
    pub ttl: u8,
    /// Octets from the start of the echo header to the end of the datagram.
    pub size: usize,
    /// Nanoseconds between sending the request and reading the reply.
    pub rtt: u128,
}

impl IcmpEchoRequest {
    /// A request with the given tags and total size.
    pub fn new(identifier: u16, sequence: u16, payload_size: usize) -> (req: Self)
        ensures
            req == (IcmpEchoRequest { identifier, sequence, payload_size }),
    {
        Self { identifier, sequence, payload_size }
    }

    /// Octets of payload that the request asks for: what is left of its
    /// size after the header.
    pub open spec fn payload_len(self) -> int {
        if self.payload_size >= 8 {
            self.payload_size - 8
        } else {
            0
        }
    }

    /// Whether `buffer` has room for the payload that the request asks for.
    pub open spec fn payload_fits(self, buffer: Seq<u8>) -> bool {
        self.payload_len() > 0 && buffer.len() >= 8 + self.payload_len()
    }

    /// `buffer` after the payload pattern is written: octet `i` of the
    /// payload is `i mod 256`. Where the payload does not fit, nothing is
    /// written.
    pub open spec fn with_payload(self, buffer: Seq<u8>) -> Seq<u8> {
        if self.payload_fits(buffer) {
            Seq::new(
                buffer.len(),
                |i: int|
                    if 8 <= i < 8 + self.payload_len() {
                        ((i - 8) % 256) as u8
                    } else {
                        buffer[i]
                    },
            )
        } else {
            buffer
        }
    }

    /// `buffer` after type, code, identifier and sequence are written.
    pub open spec fn with_header(self, buffer: Seq<u8>) -> Seq<u8>
        recommends
            buffer.len() >= 8,
    {
        buffer.update(0, ECHO_REQUEST).update(1, 0u8).update(
            4,
            (self.identifier / 256) as u8,
        ).update(5, (self.identifier % 256) as u8).update(6, (self.sequence / 256) as u8).update(
            7,
            (self.sequence % 256) as u8,
        )
    }

    /// The packet that encoding the request into `buffer` leaves there.
    pub open spec fn encoded(self, buffer: Seq<u8>) -> Seq<u8>
        recommends
            buffer.len() >= 8,
    {
        let body = self.with_header(self.with_payload(buffer));
        let sum = echo_checksum(body);
        body.update(2, (sum / 256) as u8).update(3, (sum % 256) as u8)
    }

    /// Encodes the request into `buffer`, which becomes the packet.
    ///
    /// Fails, leaving the buffer as it was, exactly when the buffer cannot
    /// hold the echo header. Octets past the payload keep their values.
    pub fn create_packet(&self, buffer: &mut Vec<u8>) -> (res: Result<(), PingError>)
        requires
            old(buffer)@.len() <= MAX_PACKET_LEN,
        ensures
            old(buffer)@.len() < 8 ==> res == Err::<(), PingError>(
                PingError::PacketConstructionError,
            ) && final(buffer)@ == old(buffer)@,
            old(buffer)@.len() >= 8 ==> res is Ok && final(buffer)@ == self.encoded(
                old(buffer)@,
            ),
    {
        let payload_offset: usize = ECHO_HEADER_LEN;
        let payload_size: usize = if self.payload_size >= payload_offset {
            self.payload_size - payload_offset
        } else {
            0
        };
        if payload_size > 0 && buffer.len() >= payload_offset && buffer.len() - payload_offset
            >= payload_size {
            let mut i: usize = 0;
            while i < payload_size
                invariant
                    i <= payload_size,
                    payload_offset == 8,
                    payload_size == self.payload_len(),
                    buffer@.len() == old(buffer)@.len(),
                    buffer@.len() >= 8 + payload_size,
                    forall|k: int|
                        0 <= k < buffer@.len() ==> buffer@[k] == if 8 <= k < 8 + i {
                            ((k - 8) % 256) as u8
                        } else {
                            old(buffer)@[k]
                        },
                decreases payload_size - i,
            {
                buffer.set(payload_offset + i, (i % 256) as u8);
                i = i + 1;
            }
        }
        assert(buffer@ =~= self.with_payload(old(buffer)@));
        if buffer.len() < ECHO_HEADER_LEN {
            return Err(PingError::PacketConstructionError);
        }
        buffer.set(0, ECHO_REQUEST);
        buffer.set(1, 0);
        buffer.set(6, (self.sequence / 256) as u8);
        buffer.set(7, (self.sequence % 256) as u8);
        buffer.set(4, (self.identifier / 256) as u8);
        buffer.set(5, (self.identifier % 256) as u8);
        assert(buffer@ =~= self.with_header(self.with_payload(old(buffer)@)));
        let sum: u16 = packet_checksum(buffer);
        buffer.set(2, (sum / 256) as u8);
        buffer.set(3, (sum % 256) as u8);
        Ok(())
    }
}

/// Calls `pnet::packet::icmp::checksum` on the packet in `packet`.
///
/// Trusted: for a packet of four to `MAX_PACKET_LEN` octets the result is
/// the one's complement of the folded sum of its big-endian words, the
/// second word left out. Shorter input has no ICMP header to wrap, and much
/// longer input overflows the sum that the outside function keeps.
#[verifier::external_body]
fn packet_checksum(packet: &Vec<u8>) -> (sum: u16)
    requires
        4 <= packet@.len() <= MAX_PACKET_LEN,
    ensures
        sum == echo_checksum(packet@),
{
    pnet::packet::icmp::checksum(&pnet::packet::icmp::IcmpPacket::new(packet.as_slice()).unwrap())
}

/// Whether the octets of `buffer` from `offset` on are an echo reply to the
/// request tagged `expected_id` and `expected_seq`.
pub open spec fn is_matching_reply(
    buffer: Seq<u8>,
    offset: usize,
    expected_id: u16,
    expected_seq: u16,
) -> bool {
    let offset = offset as int;
    &&& offset + 8 <= buffer.len()
    &&& buffer[offset] == ECHO_REPLY
    &&& be16(buffer[offset + 4], buffer[offset + 5]) == expected_id
    &&& be16(buffer[offset + 6], buffer[offset + 7]) == expected_seq
}

/// Octets of `buffer` from `offset` to its end.
pub open spec fn octets_from(buffer: Seq<u8>, offset: usize) -> usize {
    (buffer.len() - offset) as usize
}

/// Reads the big-endian word at octets `at` and `at + 1`.
fn read_be16(buffer: &[u8], at: usize) -> (word: u16)
    requires
        at + 1 < buffer@.len(),
    ensures
        word == be16(buffer@[at as int], buffer@[at + 1]),
{
    (buffer[at] as u16) * 256 + (buffer[at + 1] as u16)
}

/// Decodes the echo reply that starts at `offset` in `buffer`.
///
/// Accepts exactly the replies whose identifier and sequence number are the
/// expected ones; anything shorter than an echo header, of another type, or
/// tagged otherwise is rejected. `elapsed` is the time since the request
/// left and `ttl` comes from the enclosing IP header; both are handed on.
pub fn parse_echo_reply(
    buffer: &[u8],
    offset: usize,
    expected_id: u16,
    expected_seq: u16,
    elapsed: u128,
    ttl: u8,
) -> (res: Option<IcmpEchoReply>)
    ensures
        res is Some <==> is_matching_reply(buffer@, offset, expected_id, expected_seq),
        res is Some ==> res->Some_0 == (IcmpEchoReply {
            identifier: expected_id,
            sequence: expected_seq,
            ttl,
            size: octets_from(buffer@, offset),
            rtt: elapsed,
        }),
{
    if buffer.len() < offset || buffer.len() - offset < ECHO_HEADER_LEN {
        return None;
    }
    if buffer[offset] != ECHO_REPLY {
        return None;
    }
    let id: u16 = read_be16(buffer, offset + 4);
    let seq: u16 = read_be16(buffer, offset + 6);
    if id != expected_id || seq != expected_seq {
        return None;
    }
    Some(IcmpEchoReply { identifier: id, sequence: seq, ttl, size: buffer.len() - offset, rtt: elapsed })
}

/// Where the ICMP message starts in an IPv4 datagram, and the datagram's
/// time to live.
#[derive(Clone, Copy, Debug, PartialEq, Eq, Structural)]
pub struct Ipv4Envelope {
    /// Octets of IPv4 header in front of the ICMP message.
    pub offset: usize,
    /// The time to live read from the IPv4 header.
    pub ttl: u8,
}

/// Whether `datagram` is long enough for an IPv4 header and carries ICMP.
pub open spec fn carries_control_message(datagram: Seq<u8>) -> bool {
    datagram.len() >= 20 && datagram[9] == IPV4_PROTOCOL_ICMP
}

/// The header length that the IPv4 header states, in octets: four times
/// the low half of its first octet.
pub open spec fn ipv4_header_len(datagram: Seq<u8>) -> usize
    recommends
        datagram.len() >= 1,
{
    ((datagram[0] as int % 16) * 4) as usize
}

/// The header length in octets that the first octet of an IPv4 header states.
fn header_octets(first: u8) -> (len: usize)
    ensures
        len == (first as int % 16) * 4,
{
    ((first % 16) as usize) * 4
}

/// Unwraps the IPv4 envelope of a received datagram.
///
/// Returns the envelope exactly for datagrams that hold a whole fixed
/// IPv4 header whose protocol is ICMP.
pub fn unwrap_ipv4(datagram: &[u8]) -> (res: Option<Ipv4Envelope>)
    ensures
        res is Some <==> carries_control_message(datagram@),
        res is Some ==> res->Some_0 == (Ipv4Envelope {
            offset: ipv4_header_len(datagram@),
            ttl: datagram@[8],
        }),
{
    if datagram.len() < IPV4_HEADER_LEN {
        return None;
    }
    if datagram[9] != IPV4_PROTOCOL_ICMP {
        return None;
    }
    Some(Ipv4Envelope { offset: header_octets(datagram[0]), ttl: datagram[8] })
}

/// The weight with which octet `index` enters the word sum: the high half
/// of a word counts 256 times, the low half once, and the skipped word not
/// at all.
pub open spec fn octet_weight(index: int, skip: int) -> int {
    if index / 2 == skip {
        0
    } else if index % 2 == 0 {
        256
    } else {
        1
    }
}

/// The word sum is never negative.
pub proof fn lemma_word_sum_nonnegative(data: Seq<u8>, skip: int)
    ensures
        word_sum(data, skip) >= 0,
    decreases data.len(),
{
    if data.len() == 0 {
    } else if data.len() % 2 == 1 {
        lemma_word_sum_nonnegative(data.drop_last(), skip);
    } else {
        lemma_word_sum_nonnegative(data.subrange(0, data.len() - 2), skip);
    }
}

/// Replacing one octet moves the word sum by the change of that octet
/// times its weight.
pub proof fn lemma_word_sum_update(data: Seq<u8>, skip: int, index: int, value: u8)
    requires
        0 <= index < data.len(),
    ensures
        word_sum(data.update(index, value), skip) == word_sum(data, skip) + (value
            - data[index]) * octet_weight(index, skip),
    decreases data.len(),
{
    let changed = data.update(index, value);
    let n = data.len() as int;
    let w = octet_weight(index, skip);
    let d = value - data[index];
    assert(w == 0 ==> d * w == 0) by (nonlinear_arith);
    assert(w == 1 ==> d * w == d) by (nonlinear_arith);
    assert(w == 256 ==> d * w == 256 * d) by (nonlinear_arith);
    if n % 2 == 1 {
        if index == n - 1 {
            assert(changed.drop_last() =~= data.drop_last());
        } else {
            assert(changed.drop_last() =~= data.drop_last().update(index, value));
            lemma_word_sum_update(data.drop_last(), skip, index, value);
        }
    } else {
        if index >= n - 2 {
            assert(changed.subrange(0, n - 2) =~= data.subrange(0, n - 2));
        } else {
            assert(changed.subrange(0, n - 2) =~= data.subrange(0, n - 2).update(index, value));
            lemma_word_sum_update(data.subrange(0, n - 2), skip, index, value);
        }
    }
}

/// Folding keeps a sum inside sixteen bits and inside its class modulo
/// `0xffff`, and maps nothing but zero to zero.
pub proof fn lemma_fold_carries(sum: int)
    requires
        sum >= 0,
    ensures
        0 <= fold_carries(sum) <= 0xffff,
        fold_carries(sum) % 0xffff == sum % 0xffff,
        sum > 0 ==> fold_carries(sum) > 0,
    decreases sum,
{
    if sum >= 0x1_0000 {
        let next = sum / 0x1_0000 + sum % 0x1_0000;
        lemma_fold_carries(next);
        assert(sum == 0x1_0000 * (sum / 0x1_0000) + sum % 0x1_0000);
        assert(sum - next == 0xffff * (sum / 0x1_0000));
        lemma_same_class(next, sum, sum / 0x1_0000);
    }
}

/// Two numbers that differ by a multiple of `0xffff` leave the same
/// remainder.
proof fn lemma_same_class(low: int, high: int, times: int)
    requires
        high - low == 0xffff * times,
    ensures
        low % 0xffff == high % 0xffff,
{
    vstd::arithmetic::div_mod::lemma_mod_multiples_vanish(times, low, 0xffff);
}

/// Two numbers with the same remainder differ by a multiple of `0xffff`,
/// so not by less.
proof fn lemma_distinct_classes(a: int, b: int)
    requires
        0 < b - a < 0xffff,
    ensures
        a % 0xffff != b % 0xffff,
{
    vstd::arithmetic::div_mod::lemma_fundamental_div_mod(a, 0xffff);
    vstd::arithmetic::div_mod::lemma_fundamental_div_mod(b, 0xffff);
    if a % 0xffff == b % 0xffff {
        let qa = a / 0xffff;
        let qb = b / 0xffff;
        assert(b - a == 0xffff * qb - 0xffff * qa);
        assert(b - a == 0xffff * (qb - qa)) by (nonlinear_arith)
            requires
                b - a == 0xffff * qb - 0xffff * qa,
        ;
        if qb - qa <= 0 {
            assert(0xffff * (qb - qa) <= 0) by (nonlinear_arith)
                requires
                    qb - qa <= 0,
            ;
        } else {
            assert(0xffff * (qb - qa) >= 0xffff) by (nonlinear_arith)
                requires
                    qb - qa >= 1,
            ;
        }
    }
}

/// The checksum of any packet fits in sixteen bits.
pub proof fn lemma_checksum_range(packet: Seq<u8>)
    ensures
        0 <= echo_checksum(packet) <= 0xffff,
{
    lemma_word_sum_nonnegative(packet, 1);
    lemma_fold_carries(word_sum(packet, 1));
}

/// The octet `value` with bit `bit` flipped.
pub open spec fn flip_bit(value: u8, bit: u8) -> u8 {
    value ^ (1u8 << bit)
}

/// Flipping one bit of an octet moves its value by that bit's power of two.
pub proof fn lemma_flip_bit(value: u8, bit: u8)
    requires
        bit < 8,
    ensures
        flip_bit(value, bit) != value,
        ({
            let d = flip_bit(value, bit) - value;
            (1 <= d <= 128 || -128 <= d <= -1)
        }),
{
    let f = flip_bit(value, bit);
    assert(f != value && (f > value ==> f - value <= 128) && (f < value ==> value - f <= 128))
        by (bit_vector)
        requires
            bit < 8,
            f == value ^ (1u8 << bit),
    ;
}

/// Single-bit errors are always detected: in a packet whose checksum is
/// valid, flipping any one bit, inside or outside the checksum field,
/// leaves a packet whose checksum is not valid.
pub proof fn lemma_bit_flip_detected(packet: Seq<u8>, index: int, bit: u8)
    requires
        checksum_valid(packet),
        0 <= index < packet.len(),
        bit < 8,
    ensures
        !checksum_valid(packet.update(index, flip_bit(packet[index], bit))),
{
    let flipped = flip_bit(packet[index], bit);
    let damaged = packet.update(index, flipped);
    let before = word_sum(packet, 1);
    let after = word_sum(damaged, 1);
    lemma_flip_bit(packet[index], bit);
    lemma_word_sum_update(packet, 1, index, flipped);
    lemma_word_sum_nonnegative(packet, 1);
    lemma_word_sum_nonnegative(damaged, 1);
    lemma_fold_carries(before);
    lemma_fold_carries(after);
    let d = flipped - packet[index];
    if index == 2 || index == 3 {
        assert(after == before);
        assert(embedded_checksum(damaged) != embedded_checksum(packet));
    } else {
        assert(embedded_checksum(damaged) == embedded_checksum(packet));
        let w = octet_weight(index, 1);
        assert(w == 1 || w == 256);
        assert(after - before == d * w);
        assert(0 < d * w < 0xffff || 0 < -(d * w) < 0xffff) by (nonlinear_arith)
            requires
                1 <= d <= 128 || -128 <= d <= -1,
                w == 1 || w == 256,
        ;
        if after > before {
            lemma_distinct_classes(before, after);
        } else {
            lemma_distinct_classes(after, before);
        }
        assert(fold_carries(after) != fold_carries(before));
    }
}

/// What encoding writes: the header fields hold the request, the payload
/// holds its pattern, the length is kept, and the checksum is valid.
pub proof fn lemma_encoded_packet(req: IcmpEchoRequest, buffer: Seq<u8>)
    requires
        buffer.len() >= 8,
    ensures
        ({
            let packet = req.encoded(buffer);
            &&& packet.len() == buffer.len()
            &&& packet[0] == ECHO_REQUEST
            &&& packet[1] == 0
            &&& be16(packet[4], packet[5]) == req.identifier
            &&& be16(packet[6], packet[7]) == req.sequence
            &&& checksum_valid(packet)
            &&& req.payload_fits(buffer) ==> forall|i: int|
                0 <= i < req.payload_len() ==> #[trigger] packet[8 + i] == i % 256
            &&& forall|i: int|
                8 + req.payload_len() <= i < buffer.len() ==> #[trigger] packet[i] == buffer[i]
        }),
{
    let body = req.with_header(req.with_payload(buffer));
    let sum = echo_checksum(body);
    lemma_checksum_range(body);
    let hi = high_octet(sum);
    let lo = low_octet(sum);
    let half = body.update(2, hi);
    let packet = half.update(3, lo);
    assert(packet == req.encoded(buffer));
    lemma_word_sum_update(body, 1, 2, hi);
    lemma_word_sum_update(half, 1, 3, lo);
    assert(word_sum(packet, 1) == word_sum(body, 1));
    assert(be16(hi, lo) == sum);
}

/// No single-bit error in an encoded request goes unseen: flipping any
/// one bit of the packet leaves a checksum that is not valid.
pub proof fn lemma_encoded_bit_flip_detected(
    req: IcmpEchoRequest,
    buffer: Seq<u8>,
    index: int,
    bit: u8,
)
    requires
        buffer.len() >= 8,
        0 <= index < buffer.len(),
        bit < 8,
    ensures
        !checksum_valid(
            req.encoded(buffer).update(index, flip_bit(req.encoded(buffer)[index], bit)),
        ),
{
    lemma_encoded_packet(req, buffer);
    lemma_bit_flip_detected(req.encoded(buffer), index, bit);
}

/// The high octet of a sixteen-bit word.
pub open spec fn high_octet(word: int) -> u8 {
    (word / 256) as u8
}

/// The low octet of a sixteen-bit word.
pub open spec fn low_octet(word: int) -> u8 {
    (word % 256) as u8
}

/// A reply that echoes the tags of an encoded request is accepted against
/// that request's identifier and sequence number, and against no others.
pub proof fn lemma_reply_round_trip(req: IcmpEchoRequest, buffer: Seq<u8>, reply: Seq<u8>)
    requires
        buffer.len() >= 8,
        reply.len() >= 8,
        reply[0] == ECHO_REPLY,
        forall|i: int| 4 <= i < 8 ==> reply[i] == req.encoded(buffer)[i],
    ensures
        is_matching_reply(reply, 0, req.identifier, req.sequence),
        forall|id: u16, seq: u16| #[trigger]
            is_matching_reply(reply, 0, id, seq) ==> id == req.identifier && seq == req.sequence,
{
    lemma_encoded_packet(req, buffer);
}

/// An encoded request is itself no reply: decoding it is always rejected,
/// whatever tags are expected.
pub proof fn lemma_request_is_no_reply(
    req: IcmpEchoRequest,
    buffer: Seq<u8>,
    expected_id: u16,
    expected_seq: u16,
)
    requires
        buffer.len() >= 8,
    ensures
        !is_matching_reply(req.encoded(buffer), 0, expected_id, expected_seq),
{
    lemma_encoded_packet(req, buffer);
}

/// A packet tagged otherwise than expected is rejected, however well formed.
pub proof fn lemma_mismatch_rejected(
    buffer: Seq<u8>,
    offset: usize,
    id: u16,
    seq: u16,
    expected_id: u16,
    expected_seq: u16,
)
    requires
        is_matching_reply(buffer, offset, id, seq),
        id != expected_id || seq != expected_seq,
    ensures
        !is_matching_reply(buffer, offset, expected_id, expected_seq),
{
}

} // verus!
