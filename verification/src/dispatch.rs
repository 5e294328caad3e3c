//! The three steps of a run: a probe is sent to a target, a packet comes in,
//! the ledger is scanned for the end of the run.
//!
//! Each step takes the ledger and what happened, changes the ledger and says
//! what is to be sent or reported. Each exists twice: with the time as an
//! argument, and reading the clock itself.

use crate::clock::{elapsed_millis, elapsed_ms, lemma_elapsed_forwards, now, Timestamp};
use crate::datagram::{
    echo_request, inspect, ipv4_payload, mutable_bytes, packet, packet_bytes, source_address,
    source_of, total_length, total_length_of, ttl_of, Icmp, DATAGRAM_LEN,
};
use crate::echo::{message_kind, message_sequence, ECHO_HEADER_LEN, ECHO_REPLY, ECHO_REQUEST};
use crate::ledger::{
    all_settled, correlated, correlation, is_pending, lemma_reported_once, lemma_scan_waits,
    registered, reported, scanned, Correlation, Ledger, Probe, ProbeState,
};
use pnet::packet::ipv4::Ipv4Packet;
use pnet::packet::ipv4::MutableIpv4Packet;
use vstd::prelude::*;

verus! {

/// Identifier of every Echo Request.
pub const REQUEST_IDENTIFIER: u16 = 0;

/// Sequence number of the one Echo Request that each target gets.
pub const REQUEST_SEQUENCE: u16 = 1;

/// Milliseconds after which a probe without a reply is overdue.
pub const TIMEOUT_MILLIS: i64 = 1000;

/// Why no probe was begun.
#[derive(Clone, Copy, Debug, PartialEq, Eq, Structural)]
pub enum ProbeError {
    /// The buffer cannot hold an Echo Request datagram.
    BufferTooSmall,
    /// A probe to this address was begun before.
    DuplicateAddress(u32),
}

/// What a packet that came in turned out to be.
#[derive(Clone, Copy, Debug, PartialEq, Eq, Structural)]
pub enum Reception {
    /// An Echo Reply that resolved the pending probe to its source.
    Reply {
        /// Total length field of the datagram.
        total_length: u16,
        /// Source address of the datagram.
        source: u32,
        /// Sequence number of the Echo message.
        sequence: u16,
        /// Time to live of the datagram.
        ttl: u8,
        /// Whole milliseconds from the request to the reply.
        millis: i128,
    },
    /// An Echo Reply from an address whose probe was no longer pending.
    Duplicate(u32),
    /// An Echo Reply from an address that no probe was sent to.
    Stray(u32),
    /// An Echo Request: ignored.
    Request,
    /// A message of the given type, neither Echo Request nor Echo Reply.
    Unexpected(u8),
    /// A datagram without a payload, or an Echo Reply shorter than an Echo
    /// header.
    Malformed,
}

/// Does the datagram `bytes` carry an Echo Reply?
pub open spec fn is_reply(bytes: Seq<u8>) -> bool {
    ipv4_payload(bytes).len() >= ECHO_HEADER_LEN && message_kind(ipv4_payload(bytes)) == ECHO_REPLY
}

/// What the datagram `bytes`, coming in at time `received`, turns out to be.
/// The message is told by its type, its first byte, however short it is; an
/// Echo Reply is then correlated by the source address of the datagram.
pub open spec fn reception(
    bytes: Seq<u8>,
    probes: Map<u32, Probe>,
    received: Timestamp,
) -> Reception {
    let message = ipv4_payload(bytes);
    let source = source_address(bytes);
    if message.len() == 0 {
        Reception::Malformed
    } else if message_kind(message) == ECHO_REQUEST {
        Reception::Request
    } else if message_kind(message) != ECHO_REPLY {
        Reception::Unexpected(message_kind(message))
    } else if message.len() < ECHO_HEADER_LEN {
        Reception::Malformed
    } else {
        match correlation(probes, source) {
            Correlation::Stray => Reception::Stray(source),
            Correlation::Settled => Reception::Duplicate(source),
            Correlation::Matched(sent) => Reception::Reply {
                total_length: total_length(bytes) as u16,
                source,
                sequence: message_sequence(message),
                ttl: bytes[8],
                millis: elapsed_ms(sent, received) as i128,
            },
        }
    }
}

/// The ledger after the datagram `bytes` came in at time `received`: only an
/// Echo Reply is correlated.
pub open spec fn received_into(bytes: Seq<u8>, probes: Map<u32, Probe>, received: Timestamp) -> Map<
    u32,
    Probe,
> {
    if is_reply(bytes) {
        correlated(probes, source_address(bytes), received)
    } else {
        probes
    }
}

/// Is `at` the first position in `targets` that holds an address again?
pub open spec fn first_repeat(targets: Seq<u32>, at: int) -> bool {
    &&& 0 <= at < targets.len()
    &&& targets.take(at).no_duplicates()
    &&& targets.take(at).contains(targets[at])
}

/// Looks for a target that is given twice, so that a run can be refused
/// before anything is sent: the address at the first position that holds an
/// address again, or `None` where every target is given once.
pub fn find_duplicate(targets: &[u32]) -> (found: Option<u32>)
    ensures
        found is None <==> targets@.no_duplicates(),
        found matches Some(address) ==> exists|at: int|
            #[trigger] first_repeat(targets@, at) && targets@[at] == address,
{
    let mut next: usize = 0;
    while next < targets.len()
        invariant
            0 <= next <= targets@.len(),
            targets@.take(next as int).no_duplicates(),
        decreases targets@.len() - next,
    {
        let mut earlier: usize = 0;
        while earlier < next
            invariant
                0 <= earlier <= next < targets@.len(),
                targets@.take(next as int).no_duplicates(),
                forall|k: int| 0 <= k < earlier ==> targets@[k] != targets@[next as int],
            decreases next - earlier,
        {
            if targets[earlier] == targets[next] {
                assert(targets@.take(next as int)[earlier as int] == targets@[next as int]);
                assert(first_repeat(targets@, next as int));
                return Some(targets[next]);
            }
            earlier = earlier + 1;
        }
        assert(targets@.take(next + 1) =~= targets@.take(next as int).push(targets@[next as int]));
        next = next + 1;
    }
    assert(targets@.take(next as int) =~= targets@);
    None
}

/// What beginning a probe to `addr` answers, given the buffer's length.
pub open spec fn begun(probes: Map<u32, Probe>, length: int, addr: u32) -> Result<(), ProbeError> {
    if length < DATAGRAM_LEN {
        Err(ProbeError::BufferTooSmall)
    } else if probes.contains_key(addr) {
        Err(ProbeError::DuplicateAddress(addr))
    } else {
        Ok(())
    }
}

/// An Echo Reply from an address with a pending probe resolves that probe and
/// nothing else, and where it is seen no earlier than the request was sent,
/// the time it reports is not negative.
pub proof fn lemma_reply_resolves(bytes: Seq<u8>, probes: Map<u32, Probe>, received: Timestamp)
    requires
        is_reply(bytes),
        is_pending(probes, source_address(bytes)),
    ensures
        reception(bytes, probes, received) is Reply,
        received_into(bytes, probes, received) == probes.insert(
            source_address(bytes),
            Probe {
                time_sent: probes[source_address(bytes)].time_sent,
                state: ProbeState::Resolved(received),
            },
        ),
        probes[source_address(bytes)].time_sent.nanos() <= received.nanos() ==> reception(
            bytes,
            probes,
            received,
        )->millis >= 0,
{
    lemma_elapsed_forwards(probes[source_address(bytes)].time_sent, received);
}

/// A probe that no reply resolves is not reported while it is younger than
/// the timeout. The first scan that finds every pending probe overdue reports
/// it and marks it as timed out, and a scan after that, whenever it is made,
/// does not report it again.
pub proof fn lemma_unanswered_times_out(
    probes: Map<u32, Probe>,
    addr: u32,
    early: Timestamp,
    late: Timestamp,
    after: Timestamp,
)
    requires
        is_pending(probes, addr),
        elapsed_ms(probes[addr].time_sent, early) < TIMEOUT_MILLIS,
        all_settled(probes, late, TIMEOUT_MILLIS as int),
    ensures
        !reported(probes, early, TIMEOUT_MILLIS as int).contains(addr),
        scanned(probes, early, TIMEOUT_MILLIS as int) == probes,
        reported(probes, late, TIMEOUT_MILLIS as int).contains(addr),
        scanned(probes, late, TIMEOUT_MILLIS as int)[addr].state is TimedOut,
        !reported(
            scanned(probes, late, TIMEOUT_MILLIS as int),
            after,
            TIMEOUT_MILLIS as int,
        ).contains(addr),
{
    lemma_scan_waits(probes, early, TIMEOUT_MILLIS as int, addr);
    lemma_reported_once(probes, late, TIMEOUT_MILLIS as int, after, TIMEOUT_MILLIS as int);
}

/// A second probe to an address is refused, whenever it is begun and whatever
/// became of the first.
pub proof fn lemma_duplicate_refused(
    probes: Map<u32, Probe>,
    length: int,
    addr: u32,
    sent: Timestamp,
)
    requires
        length >= DATAGRAM_LEN,
    ensures
        begun(registered(probes, addr, sent), length, addr) == Err::<(), ProbeError>(
            ProbeError::DuplicateAddress(addr),
        ),
{
}

/// Begins the probe to `addr` at time `sent`: registers it in the ledger and
/// writes its Echo Request into `vec`. Where the buffer is too small or the
/// address is registered already, nothing is registered and no packet is
/// made.
pub fn begin_probe_at<'a>(
    ledger: &mut Ledger,
    vec: &'a mut Vec<u8>,
    addr: u32,
    sent: Timestamp,
) -> (request: Result<MutableIpv4Packet<'a>, ProbeError>)
    ensures
        match request {
            Ok(datagram) => {
                &&& begun(old(ledger)@, old(vec)@.len() as int, addr) is Ok
                &&& mutable_bytes(datagram) == echo_request(
                    old(vec)@,
                    addr,
                    REQUEST_IDENTIFIER,
                    REQUEST_SEQUENCE,
                )
                &&& final(ledger)@ == registered(old(ledger)@, addr, sent)
                &&& final(vec)@.len() == old(vec)@.len()
            },
            Err(error) => {
                &&& begun(old(ledger)@, old(vec)@.len() as int, addr) == Err::<(), ProbeError>(
                    error,
                )
                &&& final(ledger)@ == old(ledger)@
                &&& final(vec)@ == old(vec)@
            },
        },
{
    if vec.len() < DATAGRAM_LEN as usize {
        return Err(ProbeError::BufferTooSmall);
    }
    match ledger.register(addr, sent) {
        Err(_) => Err(ProbeError::DuplicateAddress(addr)),
        Ok(()) => Ok(packet(vec, addr, REQUEST_IDENTIFIER, REQUEST_SEQUENCE)),
    }
}

/// Begins the probe to `addr` now: `begin_probe_at` with the clock's reading
/// as the time of sending.
pub fn begin_probe<'a>(ledger: &mut Ledger, vec: &'a mut Vec<u8>, addr: u32) -> (request: Result<
    MutableIpv4Packet<'a>,
    ProbeError,
>)
    ensures
        match request {
            Ok(datagram) => {
                &&& begun(old(ledger)@, old(vec)@.len() as int, addr) is Ok
                &&& mutable_bytes(datagram) == echo_request(
                    old(vec)@,
                    addr,
                    REQUEST_IDENTIFIER,
                    REQUEST_SEQUENCE,
                )
                &&& exists|sent: Timestamp|
                    final(ledger)@ == #[trigger] registered(old(ledger)@, addr, sent)
                &&& final(vec)@.len() == old(vec)@.len()
            },
            Err(error) => {
                &&& begun(old(ledger)@, old(vec)@.len() as int, addr) == Err::<(), ProbeError>(
                    error,
                )
                &&& final(ledger)@ == old(ledger)@
                &&& final(vec)@ == old(vec)@
            },
        },
{
    let sent = now();
    begin_probe_at(ledger, vec, addr, sent)
}

/// Takes in the datagram `p` that arrived at time `received`: an Echo Reply
/// is correlated with the ledger by its source address, anything else leaves
/// the ledger as it is.
pub fn process_packet_at(p: &Ipv4Packet, pings: &mut Ledger, received: Timestamp) -> (outcome:
    Reception)
    ensures
        outcome == reception(packet_bytes(*p), old(pings)@, received),
        final(pings)@ == received_into(packet_bytes(*p), old(pings)@, received),
{
    if p.get_icmp_len() == 0 {
        return Reception::Malformed;
    }
    let kind = p.get_icmp_type();
    if kind == ECHO_REQUEST {
        Reception::Request
    } else if kind != ECHO_REPLY {
        Reception::Unexpected(kind)
    } else {
        match inspect(p) {
            None => Reception::Malformed,
            Some(header) => {
                let source = source_of(p);
                match pings.correlate(source, received) {
                    Correlation::Stray => Reception::Stray(source),
                    Correlation::Settled => Reception::Duplicate(source),
                    Correlation::Matched(sent) => Reception::Reply {
                        total_length: total_length_of(p),
                        source,
                        sequence: header.sequence,
                        ttl: ttl_of(p),
                        millis: elapsed_millis(sent, received),
                    },
                }
            },
        }
    }
}

/// Takes in the datagram `p` that has just arrived: `process_packet_at` with
/// the clock's reading as the time of arrival.
pub fn process_packet(p: &Ipv4Packet, pings: &mut Ledger) -> (outcome: Reception)
    ensures
        exists|received: Timestamp|
            {
                &&& outcome == #[trigger] reception(packet_bytes(*p), old(pings)@, received)
                &&& final(pings)@ == received_into(packet_bytes(*p), old(pings)@, received)
            },
{
    let received = now();
    process_packet_at(p, pings, received)
}

/// Scans the ledger at time `at` for the end of the run: every probe is
/// resolved, or overdue by `TIMEOUT_MILLIS` and now marked as timed out. The
/// addresses that timed out in this scan are handed back, each once.
pub fn exit_at(pings: &mut Ledger, at: Timestamp) -> (outcome: (bool, Vec<u32>))
    ensures
        outcome.0 == all_settled(old(pings)@, at, TIMEOUT_MILLIS as int),
        final(pings)@ == scanned(old(pings)@, at, TIMEOUT_MILLIS as int),
        outcome.1@.no_duplicates(),
        outcome.1@.to_set() == reported(old(pings)@, at, TIMEOUT_MILLIS as int),
{
    pings.all_resolved_or_timed_out(at, TIMEOUT_MILLIS)
}

/// Scans the ledger now for the end of the run: `exit_at` with the clock's
/// reading as the time of the scan.
pub fn exit_now(pings: &mut Ledger) -> (outcome: (bool, Vec<u32>))
    ensures
        outcome.1@.no_duplicates(),
        exists|at: Timestamp|
            {
                &&& outcome.0 == #[trigger] all_settled(old(pings)@, at, TIMEOUT_MILLIS as int)
                &&& final(pings)@ == scanned(old(pings)@, at, TIMEOUT_MILLIS as int)
                &&& outcome.1@.to_set() == reported(old(pings)@, at, TIMEOUT_MILLIS as int)
            },
{
    let at = now();
    exit_at(pings, at)
}

} // verus!
