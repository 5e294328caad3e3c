//! The ICMP Echo message: its layout, its construction and the reading of its
//! header fields.
//!
//! ```text
//!  byte 0      1      2..4        4..6         6..8       8..44
//!      type   code   checksum   identifier   sequence   zero padding
//! ```
//!
//! All 16-bit fields are big-endian.

use crate::checksum::{
    checksum, checksum_of, lemma_checksum_closed_form, lemma_checksum_validates, total,
    verifies, with_word, word_sum,
};
use vstd::prelude::*;

verus! {

/// Message type of an Echo Reply.
pub const ECHO_REPLY: u8 = 0;

/// Message type of an Echo Request.
pub const ECHO_REQUEST: u8 = 8;

/// Length in bytes of every Echo message built here: an 8-byte header and 36
/// bytes of zero padding.
pub const ECHO_MESSAGE_LEN: usize = 44;

/// Length in bytes of the Echo header.
pub const ECHO_HEADER_LEN: usize = 8;

/// The more significant byte of a 16-bit value.
pub open spec fn spec_high_byte(value: u16) -> u8 {
    (value / 256) as u8
}

/// The less significant byte of a 16-bit value.
pub open spec fn spec_low_byte(value: u16) -> u8 {
    (value % 256) as u8
}

/// The 16-bit value whose big-endian bytes are `high`, `low`.
pub open spec fn spec_be16(high: u8, low: u8) -> u16 {
    (high * 256 + low) as u16
}

/// The more significant byte of a 16-bit value.
#[verifier::when_used_as_spec(spec_high_byte)]
pub fn high_byte(value: u16) -> (byte: u8)
    ensures
        byte == spec_high_byte(value),
{
    (value / 256) as u8
}

/// The less significant byte of a 16-bit value.
#[verifier::when_used_as_spec(spec_low_byte)]
pub fn low_byte(value: u16) -> (byte: u8)
    ensures
        byte == spec_low_byte(value),
{
    (value % 256) as u8
}

/// The 16-bit value whose big-endian bytes are `high`, `low`.
#[verifier::when_used_as_spec(spec_be16)]
pub fn be16(high: u8, low: u8) -> (value: u16)
    ensures
        value == spec_be16(high, low),
{
    high as u16 * 256 + low as u16
}

/// An Echo message whose checksum field is still zero.
pub open spec fn echo_body(kind: u8, code: u8, id: u16, sequence: u16) -> Seq<u8> {
    Seq::new(
        ECHO_MESSAGE_LEN as nat,
        |i: int|
            if i == 0 {
                kind
            } else if i == 1 {
                code
            } else if i == 4 {
                high_byte(id)
            } else if i == 5 {
                low_byte(id)
            } else if i == 6 {
                high_byte(sequence)
            } else if i == 7 {
                low_byte(sequence)
            } else {
                0u8
            },
    )
}

/// The value of the checksum field of an Echo message.
pub open spec fn echo_checksum(kind: u8, code: u8, id: u16, sequence: u16) -> u16 {
    checksum_of(echo_body(kind, code, id, sequence)) as u16
}

/// The finished Echo message: `echo_body` with its checksum written into
/// bytes 2 and 3, high byte first.
pub open spec fn echo_message(kind: u8, code: u8, id: u16, sequence: u16) -> Seq<u8> {
    let sum = echo_checksum(kind, code, id, sequence);
    echo_body(kind, code, id, sequence).update(2, high_byte(sum)).update(3, low_byte(sum))
}

/// The type field of the Echo message `message`.
pub open spec fn message_kind(message: Seq<u8>) -> u8 {
    message[0]
}

/// The code field of the Echo message `message`.
pub open spec fn message_code(message: Seq<u8>) -> u8 {
    message[1]
}

/// The checksum field of the Echo message `message`.
pub open spec fn message_checksum(message: Seq<u8>) -> u16 {
    be16(message[2], message[3])
}

/// The identifier field of the Echo message `message`: bytes 4 and 5 read as
/// one big-endian value, `high * 256 + low`.
pub open spec fn message_id(message: Seq<u8>) -> u16 {
    be16(message[4], message[5])
}

/// The sequence number of the Echo message `message`: bytes 6 and 7 read as
/// one big-endian value, `high * 256 + low`.
pub open spec fn message_sequence(message: Seq<u8>) -> u16 {
    be16(message[6], message[7])
}

/// The words of an Echo message with a zero checksum field add up to the sum
/// of its four header fields, so its checksum has a closed form: all ones
/// where the four fields are zero, and otherwise their negated sum modulo
/// 65535.
pub proof fn lemma_echo_body_total(kind: u8, code: u8, id: u16, sequence: u16)
    ensures
        total(echo_body(kind, code, id, sequence)) == kind * 256 + code + id + sequence,
        echo_checksum(kind, code, id, sequence) == if kind == 0 && code == 0 && id == 0
            && sequence == 0 {
            0xffffint
        } else {
            (-(kind * 256 + code + id + sequence)) % 65535
        },
{
    let body = echo_body(kind, code, id, sequence);
    assert(word_sum(body, 22) == kind * 256 + code + id + sequence) by {
        reveal_with_fuel(word_sum, 23);
    }
    lemma_checksum_closed_form(body);
}

/// Every finished Echo message validates: the one's-complement sum of all its
/// words, checksum field included, is all ones. Its checksum field, the word
/// at index 1, holds the checksum of the message with that field zeroed.
pub proof fn lemma_checksum_correct(kind: u8, code: u8, id: u16, sequence: u16)
    ensures
        verifies(echo_message(kind, code, id, sequence)),
        checksum_of(echo_message(kind, code, id, sequence)) == 0,
        message_checksum(echo_message(kind, code, id, sequence)) == checksum_of(
            echo_body(kind, code, id, sequence),
        ),
        echo_message(kind, code, id, sequence) == with_word(
            echo_body(kind, code, id, sequence),
            1,
            checksum_of(echo_body(kind, code, id, sequence)),
        ),
        echo_message(kind, code, id, sequence).update(2, 0).update(3, 0) == echo_body(
            kind,
            code,
            id,
            sequence,
        ),
{
    let body = echo_body(kind, code, id, sequence);
    let message = echo_message(kind, code, id, sequence);
    lemma_checksum_closed_form(body);
    lemma_checksum_validates(body, 1);
    assert(message =~= with_word(body, 1, checksum_of(body)));
    assert(message.update(2, 0).update(3, 0) =~= body);
}

/// Reading the header fields of a built Echo message gives back the values
/// it was built from.
pub proof fn lemma_round_trip(kind: u8, code: u8, id: u16, sequence: u16)
    ensures
        echo_message(kind, code, id, sequence).len() == ECHO_MESSAGE_LEN,
        message_kind(echo_message(kind, code, id, sequence)) == kind,
        message_code(echo_message(kind, code, id, sequence)) == code,
        message_checksum(echo_message(kind, code, id, sequence)) == echo_checksum(
            kind,
            code,
            id,
            sequence,
        ),
        message_id(echo_message(kind, code, id, sequence)) == id,
        message_sequence(echo_message(kind, code, id, sequence)) == sequence,
{
}

/// Builds the Echo message with the given header fields and a correct
/// checksum.
pub fn payload(icmp_type: u8, icmp_code: u8, id: u16, sequence: u16) -> (message: Vec<u8>)
    ensures
        message@ == echo_message(icmp_type, icmp_code, id, sequence),
{
    let mut message = vec![0u8; ECHO_MESSAGE_LEN];
    message[0] = icmp_type;
    message[1] = icmp_code;
    message[4] = high_byte(id);
    message[5] = low_byte(id);
    message[6] = high_byte(sequence);
    message[7] = low_byte(sequence);
    assert(message@ =~= echo_body(icmp_type, icmp_code, id, sequence));
    let sum = checksum(message.as_slice());
    message[2] = high_byte(sum);
    message[3] = low_byte(sum);
    message
}

} // verus!
