//! IPv4 datagrams that carry Echo messages.
//!
//! The datagrams themselves are `pnet` packets. What is proved here is stated
//! over the bytes that such a packet holds, [`mutable_bytes`] and
//! [`packet_bytes`]; the private functions of this module that call into
//! `pnet` say, without proof, what each call does to those bytes.
//!
//! ```text
//!  byte 0           1          2..4           4..6             6..8
//!      version|IHL  DSCP|ECN   total length   identification   flags|fragment offset
//!  byte 8           9          10..12         12..16           16..20
//!      TTL          protocol   checksum       source           destination
//! ```

use crate::echo::{
    be16, echo_message, high_byte, lemma_round_trip, low_byte, message_code, message_id,
    message_kind, message_sequence, payload, ECHO_HEADER_LEN, ECHO_MESSAGE_LEN, ECHO_REQUEST,
};
use pnet::packet::ip::IpNextHeaderProtocol;
use pnet::packet::ipv4::Ipv4Option;
use pnet::packet::ipv4::Ipv4Packet;
use pnet::packet::ipv4::MutableIpv4Packet;
use pnet::packet::Packet;
use vstd::prelude::*;

verus! {

/// Length in bytes of an IPv4 header without options.
pub const IPV4_HEADER_LEN: usize = 20;

/// Length of that header in 32-bit words, as the header length field counts.
pub const IPV4_HEADER_WORDS: u8 = 5;

/// The IP version written into every datagram.
pub const IPV4_VERSION: u8 = 4;

/// Time to live of every Echo Request.
pub const REQUEST_TTL: u8 = 64;

/// Flags of every Echo Request: "don't fragment".
pub const REQUEST_FLAGS: u8 = 2;

/// Protocol number of ICMP.
pub const PROTOCOL_NUMBER: u8 = 1;

/// Length in bytes of an Echo Request datagram: header and Echo message.
pub const DATAGRAM_LEN: u16 = 64;

/// `pnet`'s view of a byte buffer as an IPv4 packet that can be written to.
/// Nothing is known of it but what [`mutable_bytes`] names.
#[verifier::external_type_specification]
#[verifier::external_body]
pub struct ExMutableIpv4Packet<'p>(MutableIpv4Packet<'p>);

/// `pnet`'s view of a byte buffer as an IPv4 packet that can be read.
/// Nothing is known of it but what [`packet_bytes`] names.
#[verifier::external_type_specification]
#[verifier::external_body]
pub struct ExIpv4Packet<'p>(Ipv4Packet<'p>);

/// `pnet`'s IPv4 header option. None is ever made here: the type is named
/// only to hand `pnet` an empty list of them.
#[verifier::external_type_specification]
#[verifier::external_body]
pub struct ExIpv4Option(Ipv4Option);

/// The bytes of the buffer that a `MutableIpv4Packet` is laid over, header
/// first.
pub uninterp spec fn mutable_bytes(packet: MutableIpv4Packet) -> Seq<u8>;

/// The bytes of the buffer that an `Ipv4Packet` is laid over, header first.
pub uninterp spec fn packet_bytes(packet: Ipv4Packet) -> Seq<u8>;

/// The header length field of the datagram `bytes`, in 32-bit words.
pub open spec fn header_words(bytes: Seq<u8>) -> int {
    (bytes[0] & 0x0f) as int
}

/// The total length field of the datagram `bytes`.
pub open spec fn total_length(bytes: Seq<u8>) -> int {
    bytes[2] * 256 + bytes[3]
}

/// Length in bytes of the options that the header length field announces.
pub open spec fn options_length(bytes: Seq<u8>) -> int {
    if header_words(bytes) * 4 >= IPV4_HEADER_LEN {
        header_words(bytes) * 4 - IPV4_HEADER_LEN
    } else {
        0
    }
}

/// Offset of the first payload byte.
pub open spec fn payload_start(bytes: Seq<u8>) -> int {
    IPV4_HEADER_LEN + options_length(bytes)
}

/// Length in bytes of the payload that the two length fields announce.
pub open spec fn payload_length(bytes: Seq<u8>) -> int {
    if total_length(bytes) >= header_words(bytes) * 4 {
        total_length(bytes) - header_words(bytes) * 4
    } else {
        0
    }
}

/// The payload of the datagram `bytes`: what follows header and options, as
/// far as the length fields announce it and the buffer holds it.
pub open spec fn ipv4_payload(bytes: Seq<u8>) -> Seq<u8> {
    let start = payload_start(bytes);
    let end = if start + payload_length(bytes) <= bytes.len() {
        start + payload_length(bytes)
    } else {
        bytes.len() as int
    };
    if bytes.len() <= start {
        Seq::empty()
    } else {
        bytes.subrange(start, end)
    }
}

/// The address whose dotted form is `a.b.c.d`, as one number.
pub open spec fn address_of(a: u8, b: u8, c: u8, d: u8) -> u32 {
    (a * 0x100_0000 + b * 0x1_0000 + c * 0x100 + d) as u32
}

/// The source address field of the datagram `bytes`.
pub open spec fn source_address(bytes: Seq<u8>) -> u32 {
    address_of(bytes[12], bytes[13], bytes[14], bytes[15])
}

/// The `i`-th of the four bytes of `address`, the most significant first.
pub open spec fn address_octet(address: u32, i: int) -> u8 {
    if i == 0 {
        (address / 0x100_0000) as u8
    } else if i == 1 {
        (address / 0x1_0000 % 256) as u8
    } else if i == 2 {
        (address / 0x100 % 256) as u8
    } else {
        (address % 256) as u8
    }
}

/// `bytes` with `data` written over it from offset `start` on.
pub open spec fn overwrite(bytes: Seq<u8>, start: int, data: Seq<u8>) -> Seq<u8> {
    Seq::new(
        bytes.len(),
        |i: int|
            if start <= i < start + data.len() {
                data[i - start]
            } else {
                bytes[i]
            },
    )
}

/// The Echo Request datagram for `destination` that is written into a buffer
/// holding `buffer`.
///
/// Byte 0 holds version and header length, `0x45`; bytes 2 and 3 the total
/// length; the high three bits of byte 6 the flags. Then come time to live,
/// protocol and, from byte 16 on, the destination; the Echo Request message
/// follows the header. The other header fields (DSCP and ECN, identification,
/// fragment offset, header checksum, source) and what the buffer holds past
/// the datagram stay as they were.
pub open spec fn echo_request(buffer: Seq<u8>, destination: u32, id: u16, sequence: u16) -> Seq<
    u8,
> {
    Seq::new(
        buffer.len(),
        |i: int|
            if i == 0 {
                (IPV4_VERSION << 4) | IPV4_HEADER_WORDS
            } else if i == 2 {
                high_byte(DATAGRAM_LEN)
            } else if i == 3 {
                low_byte(DATAGRAM_LEN)
            } else if i == 6 {
                (buffer[6] & 0x1f) | (REQUEST_FLAGS << 5)
            } else if i == 8 {
                REQUEST_TTL
            } else if i == 9 {
                PROTOCOL_NUMBER
            } else if 16 <= i < 20 {
                address_octet(destination, i - 16)
            } else if IPV4_HEADER_LEN <= i < DATAGRAM_LEN {
                echo_message(ECHO_REQUEST, 0, id, sequence)[i - IPV4_HEADER_LEN]
            } else {
                buffer[i]
            },
    )
}

/// `MutableIpv4Packet::new`: lays a packet over `buffer`. It is refused if
/// and only if the buffer is shorter than an IPv4 header; the packet holds
/// the buffer's bytes. The packet is a view of the buffer as a slice, so
/// whatever is done with it, the buffer keeps its length.
#[verifier::external_body]
fn view_buffer<'a>(buffer: &'a mut Vec<u8>) -> (packet: Option<MutableIpv4Packet<'a>>)
    ensures
        packet is Some <==> old(buffer)@.len() >= IPV4_HEADER_LEN,
        packet is Some ==> mutable_bytes(packet->0) == old(buffer)@,
        final(buffer)@.len() == old(buffer)@.len(),
{
    MutableIpv4Packet::new(buffer)
}

/// `MutableIpv4Packet::set_version`: writes the low four bits of `version`
/// into the high four bits of byte 0.
#[verifier::external_body]
fn set_version(packet: &mut MutableIpv4Packet, version: u8)
    ensures
        mutable_bytes(*final(packet)) == mutable_bytes(*old(packet)).update(
            0,
            (mutable_bytes(*old(packet))[0] & 0x0f) | ((version & 0x0f) << 4),
        ),
{
    packet.set_version(version)
}

/// `MutableIpv4Packet::set_header_length`: writes the low four bits of
/// `words` into the low four bits of byte 0.
#[verifier::external_body]
fn set_header_length(packet: &mut MutableIpv4Packet, words: u8)
    ensures
        mutable_bytes(*final(packet)) == mutable_bytes(*old(packet)).update(
            0,
            (mutable_bytes(*old(packet))[0] & 0xf0) | (words & 0x0f),
        ),
{
    packet.set_header_length(words)
}

/// `MutableIpv4Packet::set_total_length`: writes `length` into bytes 2 and 3,
/// high byte first.
#[verifier::external_body]
fn set_total_length(packet: &mut MutableIpv4Packet, length: u16)
    ensures
        mutable_bytes(*final(packet)) == mutable_bytes(*old(packet)).update(
            2,
            (length / 256) as u8,
        ).update(3, (length % 256) as u8),
{
    packet.set_total_length(length)
}

/// `MutableIpv4Packet::set_flags`: writes the low three bits of `flags` into
/// the high three bits of byte 6.
#[verifier::external_body]
fn set_flags(packet: &mut MutableIpv4Packet, flags: u8)
    ensures
        mutable_bytes(*final(packet)) == mutable_bytes(*old(packet)).update(
            6,
            (mutable_bytes(*old(packet))[6] & 0x1f) | ((flags & 0x07) << 5),
        ),
{
    packet.set_flags(flags)
}

/// `MutableIpv4Packet::set_ttl`: writes `ttl` into byte 8.
#[verifier::external_body]
fn set_ttl(packet: &mut MutableIpv4Packet, ttl: u8)
    ensures
        mutable_bytes(*final(packet)) == mutable_bytes(*old(packet)).update(8, ttl),
{
    packet.set_ttl(ttl)
}

/// `MutableIpv4Packet::set_next_level_protocol`, with the protocol made of
/// its number by `IpNextHeaderProtocol::new`: writes `protocol` into byte 9.
#[verifier::external_body]
fn set_next_level_protocol(packet: &mut MutableIpv4Packet, protocol: u8)
    ensures
        mutable_bytes(*final(packet)) == mutable_bytes(*old(packet)).update(9, protocol),
{
    packet.set_next_level_protocol(IpNextHeaderProtocol::new(protocol))
}

/// `MutableIpv4Packet::set_destination`, with `destination` made an address
/// by `Ipv4Addr`'s `From<u32>`: writes the four bytes of `destination` into
/// bytes 16 to 19, the most significant first.
#[verifier::external_body]
fn set_destination(packet: &mut MutableIpv4Packet, destination: u32)
    ensures
        mutable_bytes(*final(packet)) == mutable_bytes(*old(packet)).update(
            16,
            address_octet(destination, 0),
        ).update(17, address_octet(destination, 1)).update(
            18,
            address_octet(destination, 2),
        ).update(19, address_octet(destination, 3)),
{
    packet.set_destination(destination.into())
}

/// `MutableIpv4Packet::set_options`: with an empty list of options it writes
/// nothing.
#[verifier::external_body]
fn set_options(packet: &mut MutableIpv4Packet, options: &Vec<Ipv4Option>)
    requires
        options@.len() == 0,
    ensures
        mutable_bytes(*final(packet)) == mutable_bytes(*old(packet)),
{
    packet.set_options(options)
}

/// `MutableIpv4Packet::set_payload`: copies `data` to where the payload
/// starts. It panics where `data` is longer than the payload that the length
/// fields announce, or than what the buffer holds from there on.
#[verifier::external_body]
fn set_payload(packet: &mut MutableIpv4Packet, data: &Vec<u8>)
    requires
        data@.len() <= payload_length(mutable_bytes(*old(packet))),
        payload_start(mutable_bytes(*old(packet))) + data@.len() <= mutable_bytes(
            *old(packet),
        ).len(),
    ensures
        mutable_bytes(*final(packet)) == overwrite(
            mutable_bytes(*old(packet)),
            payload_start(mutable_bytes(*old(packet))),
            data@,
        ),
{
    packet.set_payload(data)
}

/// `Packet::payload` of an `Ipv4Packet`: the bytes after header and options,
/// up to the announced total length or the end of the buffer, whichever comes
/// first.
#[verifier::external_body]
fn payload_of<'a>(packet: &'a Ipv4Packet) -> (data: &'a [u8])
    ensures
        data@ == ipv4_payload(packet_bytes(*packet)),
{
    packet.payload()
}

/// `MutableIpv4Packet::to_immutable`: a packet for reading, laid over the
/// same bytes.
#[verifier::external_body]
fn to_immutable<'a>(packet: &'a MutableIpv4Packet) -> (reader: Ipv4Packet<'a>)
    ensures
        packet_bytes(reader) == mutable_bytes(*packet),
{
    packet.to_immutable()
}

/// `Ipv4Packet::get_source`, made a number by `u32`'s `From<Ipv4Addr>`: the
/// address in bytes 12 to 15, the first of them the most significant.
#[verifier::external_body]
pub(crate) fn source_of(packet: &Ipv4Packet) -> (source: u32)
    ensures
        source == source_address(packet_bytes(*packet)),
{
    packet.get_source().into()
}

/// `Ipv4Packet::get_total_length`: the big-endian value of bytes 2 and 3.
#[verifier::external_body]
pub(crate) fn total_length_of(packet: &Ipv4Packet) -> (length: u16)
    ensures
        length == total_length(packet_bytes(*packet)),
{
    packet.get_total_length()
}

/// `Ipv4Packet::get_ttl`: byte 8.
#[verifier::external_body]
pub(crate) fn ttl_of(packet: &Ipv4Packet) -> (ttl: u8)
    ensures
        ttl == packet_bytes(*packet)[8],
{
    packet.get_ttl()
}

/// An Echo Request datagram is as long as its header and its message
/// together; its payload is the Echo Request message, and the header fields
/// read from it are those it was built from.
pub proof fn lemma_request_payload(buffer: Seq<u8>, destination: u32, id: u16, sequence: u16)
    requires
        buffer.len() >= DATAGRAM_LEN,
    ensures
        DATAGRAM_LEN == IPV4_HEADER_LEN + ECHO_MESSAGE_LEN,
        echo_request(buffer, destination, id, sequence).len() == buffer.len(),
        echo_request(buffer, destination, id, sequence)[0] == 0x45,
        header_words(echo_request(buffer, destination, id, sequence)) == IPV4_HEADER_WORDS,
        total_length(echo_request(buffer, destination, id, sequence)) == DATAGRAM_LEN,
        ipv4_payload(echo_request(buffer, destination, id, sequence)) == echo_message(
            ECHO_REQUEST,
            0,
            id,
            sequence,
        ),
        header_of(ipv4_payload(echo_request(buffer, destination, id, sequence))) == (EchoHeader {
            kind: ECHO_REQUEST,
            code: 0,
            id,
            sequence,
        }),
{
    assert((4u8 << 4) | 5u8 == 0x45) by (bit_vector);
    assert(0x45u8 & 0x0f == 5) by (bit_vector);
    lemma_round_trip(ECHO_REQUEST, 0, id, sequence);
}

/// Lays an IPv4 packet over `vec` and writes into it the Echo Request for
/// `addr` with the given identifier and sequence number. The message that
/// the packet then carries is that Echo Request, so that its header fields
/// read back as given.
pub fn packet<'a>(vec: &'a mut Vec<u8>, addr: u32, id: u16, sequence: u16) -> (packet:
    MutableIpv4Packet<'a>)
    requires
        old(vec)@.len() >= DATAGRAM_LEN,
    ensures
        mutable_bytes(packet) == echo_request(old(vec)@, addr, id, sequence),
        packet.message() == echo_message(ECHO_REQUEST, 0, id, sequence),
        header_of(packet.message()) == (EchoHeader { kind: ECHO_REQUEST, code: 0, id, sequence }),
        final(vec)@.len() == old(vec)@.len(),
{
    let ghost buffer = vec@;
    proof {
        lemma_request_payload(buffer, addr, id, sequence);
    }
    let mut packet = view_buffer(vec).unwrap();
    let message = payload(ECHO_REQUEST, 0, id, sequence);
    let options: Vec<Ipv4Option> = Vec::new();
    set_version(&mut packet, IPV4_VERSION);
    set_header_length(&mut packet, IPV4_HEADER_WORDS);
    set_ttl(&mut packet, REQUEST_TTL);
    set_flags(&mut packet, REQUEST_FLAGS);
    set_next_level_protocol(&mut packet, PROTOCOL_NUMBER);
    set_destination(&mut packet, addr);
    set_options(&mut packet, &options);
    set_total_length(&mut packet, DATAGRAM_LEN);
    proof {
        let b0 = buffer[0];
        assert((((b0 & 0x0f) | ((4u8 & 0x0f) << 4)) & 0xf0) | (5u8 & 0x0f) == (4u8 << 4) | 5u8)
            by (bit_vector);
        assert(((4u8 << 4) | 5u8) & 0x0f == 5) by (bit_vector);
        assert((2u8 & 0x07) << 5 == 2u8 << 5) by (bit_vector);
    }
    set_payload(&mut packet, &message);
    packet
}

/// The header fields of an Echo message.
#[derive(Clone, Copy, Debug, PartialEq, Eq, Structural)]
pub struct EchoHeader {
    /// Message type: 0 for a reply, 8 for a request.
    pub kind: u8,
    /// Message code.
    pub code: u8,
    /// Identifier.
    pub id: u16,
    /// Sequence number.
    pub sequence: u16,
}

/// The header fields of the Echo message `message`.
pub open spec fn header_of(message: Seq<u8>) -> EchoHeader {
    EchoHeader {
        kind: message_kind(message),
        code: message_code(message),
        id: message_id(message),
        sequence: message_sequence(message),
    }
}

/// Reading the header fields of the ICMP message that a packet carries. No
/// checksum is validated.
pub trait Icmp {
    /// The ICMP message that the packet carries.
    spec fn message(&self) -> Seq<u8>;

    /// Length in bytes of the message. The other methods each need a message
    /// long enough to hold what they read.
    fn get_icmp_len(&self) -> (length: usize)
        ensures
            length == self.message().len(),
    ;

    /// The message type: byte 0.
    fn get_icmp_type(&self) -> (value: u8)
        requires
            self.message().len() >= 1,
        ensures
            value == message_kind(self.message()),
    ;

    /// The message code: byte 1.
    fn get_icmp_code(&self) -> (value: u8)
        requires
            self.message().len() >= 2,
        ensures
            value == message_code(self.message()),
    ;

    /// The identifier: bytes 4 and 5 as one big-endian value.
    fn get_icmp_id(&self) -> (value: u16)
        requires
            self.message().len() >= 6,
        ensures
            value == message_id(self.message()),
    ;

    /// The sequence number: bytes 6 and 7 as one big-endian value.
    fn get_icmp_sequence(&self) -> (value: u16)
        requires
            self.message().len() >= 8,
        ensures
            value == message_sequence(self.message()),
    ;
}

impl<'a> Icmp for Ipv4Packet<'a> {
    /// The payload of the datagram.
    open spec fn message(&self) -> Seq<u8> {
        ipv4_payload(packet_bytes(*self))
    }

    fn get_icmp_len(&self) -> (length: usize) {
        payload_of(self).len()
    }

    fn get_icmp_type(&self) -> (value: u8) {
        payload_of(self)[0]
    }

    fn get_icmp_code(&self) -> (value: u8) {
        payload_of(self)[1]
    }

    fn get_icmp_id(&self) -> (value: u16) {
        let data = payload_of(self);
        be16(data[4], data[5])
    }

    fn get_icmp_sequence(&self) -> (value: u16) {
        let data = payload_of(self);
        be16(data[6], data[7])
    }
}

impl<'a> Icmp for MutableIpv4Packet<'a> {
    /// The payload of the datagram.
    open spec fn message(&self) -> Seq<u8> {
        ipv4_payload(mutable_bytes(*self))
    }

    fn get_icmp_len(&self) -> (length: usize) {
        to_immutable(self).get_icmp_len()
    }

    fn get_icmp_type(&self) -> (value: u8) {
        to_immutable(self).get_icmp_type()
    }

    fn get_icmp_code(&self) -> (value: u8) {
        to_immutable(self).get_icmp_code()
    }

    fn get_icmp_id(&self) -> (value: u16) {
        to_immutable(self).get_icmp_id()
    }

    fn get_icmp_sequence(&self) -> (value: u16) {
        to_immutable(self).get_icmp_sequence()
    }
}

/// Reads the Echo header of the message that `packet` carries. There is none
/// if and only if the message is shorter than an Echo header.
pub fn inspect<P: Icmp>(packet: &P) -> (header: Option<EchoHeader>)
    ensures
        header is Some <==> packet.message().len() >= ECHO_HEADER_LEN,
        header is Some ==> header->0 == header_of(packet.message()),
{
    if packet.get_icmp_len() < ECHO_HEADER_LEN {
        None
    } else {
        Some(
            EchoHeader {
                kind: packet.get_icmp_type(),
                code: packet.get_icmp_code(),
                id: packet.get_icmp_id(),
                sequence: packet.get_icmp_sequence(),
            },
        )
    }
}

} // verus!
