//! The 16-bit checksum carried by ICMP Echo messages: the Internet checksum
//! of RFC 1071.
//!
//! A byte sequence is read as big-endian 16-bit words; a trailing odd byte is
//! the high byte of a last word whose low byte is zero. The words are added
//! up in one's-complement arithmetic, and the checksum is the complement of
//! that sum. A message that carries its own checksum then sums to all ones.

use vstd::prelude::*;

verus! {

/// Number of 16-bit words that `bytes` holds.
pub open spec fn word_count(bytes: Seq<u8>) -> int {
    (bytes.len() as int + 1) / 2
}

/// The `k`-th big-endian word of `bytes`.
pub open spec fn word_at(bytes: Seq<u8>, k: int) -> int {
    let high = bytes[2 * k] as int;
    let low = if 2 * k + 1 < bytes.len() {
        bytes[2 * k + 1] as int
    } else {
        0
    };
    high * 256 + low
}

/// Sum of the first `n` words of `bytes`, as an unbounded integer.
pub open spec fn word_sum(bytes: Seq<u8>, n: int) -> int
    decreases n,
{
    if n <= 0 {
        0
    } else {
        word_sum(bytes, n - 1) + word_at(bytes, n - 1)
    }
}

/// Sum of all the words of `bytes`.
pub open spec fn total(bytes: Seq<u8>) -> int {
    word_sum(bytes, word_count(bytes))
}

/// One's-complement addition of two 16-bit values: the carry out of the top
/// bit is added back in at the bottom.
pub open spec fn end_around_add(a: int, b: int) -> int {
    if a + b > 0xffff {
        a + b - 0xffff
    } else {
        a + b
    }
}

/// One's-complement sum of the first `n` words of `bytes`.
pub open spec fn ones_complement_sum(bytes: Seq<u8>, n: int) -> int
    decreases n,
{
    if n <= 0 {
        0
    } else {
        end_around_add(ones_complement_sum(bytes, n - 1), word_at(bytes, n - 1))
    }
}

/// The checksum of `bytes`, as RFC 1071 defines it: the complement of the
/// one's-complement sum of all its words. Where every word is zero it is
/// `0xffff`.
pub open spec fn checksum_of(bytes: Seq<u8>) -> int {
    0xffff - ones_complement_sum(bytes, word_count(bytes))
}

/// A receiver accepts `bytes`, checksum field included, when their
/// one's-complement sum is all ones, that is, when their checksum is zero.
pub open spec fn verifies(bytes: Seq<u8>) -> bool {
    ones_complement_sum(bytes, word_count(bytes)) == 0xffff
}

/// Every word is a 16-bit value, and so every partial sum is bounded.
pub proof fn lemma_word_sum_bounds(bytes: Seq<u8>, n: int)
    requires
        0 <= n <= word_count(bytes),
    ensures
        0 <= word_sum(bytes, n) <= n * 0xffff,
    decreases n,
{
    if n > 0 {
        lemma_word_sum_bounds(bytes, n - 1);
    }
}

/// The one's-complement sum folds the plain sum into `0 ..= 0xffff`: it is zero
/// only for a zero sum, and otherwise the representative of the sum modulo
/// 65535 that lies in `1 ..= 0xffff`.
pub proof fn lemma_ones_complement_sum(bytes: Seq<u8>, n: int)
    requires
        0 <= n <= word_count(bytes),
    ensures
        ones_complement_sum(bytes, n) == if word_sum(bytes, n) == 0 {
            0
        } else {
            (word_sum(bytes, n) - 1) % 65535 + 1
        },
    decreases n,
{
    if n > 0 {
        lemma_ones_complement_sum(bytes, n - 1);
        lemma_word_sum_bounds(bytes, n - 1);
    }
}

/// The checksum in closed form: all ones for a zero word sum, and otherwise
/// the negated word sum modulo 65535.
pub proof fn lemma_checksum_closed_form(bytes: Seq<u8>)
    ensures
        0 <= checksum_of(bytes) <= 0xffff,
        checksum_of(bytes) == if total(bytes) == 0 {
            0xffff
        } else {
            (-total(bytes)) % 65535
        },
{
    lemma_ones_complement_sum(bytes, word_count(bytes));
}

/// `bytes` with its `k`-th word replaced by `word`, high byte first.
pub open spec fn with_word(bytes: Seq<u8>, k: int, word: int) -> Seq<u8> {
    bytes.update(2 * k, (word / 256) as u8).update(2 * k + 1, (word % 256) as u8)
}

/// Replacing a zero word adds the new word to every partial sum that
/// reaches it.
proof fn lemma_word_sum_with_word(bytes: Seq<u8>, k: int, word: int, n: int)
    requires
        bytes.len() % 2 == 0,
        0 <= k < word_count(bytes),
        word_at(bytes, k) == 0,
        0 <= word <= 0xffff,
        0 <= n <= word_count(bytes),
    ensures
        word_sum(with_word(bytes, k, word), n) == word_sum(bytes, n) + if k < n {
            word
        } else {
            0
        },
    decreases n,
{
    if n > 0 {
        lemma_word_sum_with_word(bytes, k, word, n - 1);
        assert(word_at(with_word(bytes, k, word), n - 1) == if n - 1 == k {
            word
        } else {
            word_at(bytes, n - 1)
        });
    }
}

/// A message of whole words that is given its own checksum validates: where
/// the checksum is computed with the checksum field zero and then written
/// into that field, the one's-complement sum of all the words is all ones.
pub proof fn lemma_checksum_validates(bytes: Seq<u8>, k: int)
    requires
        bytes.len() % 2 == 0,
        0 <= k < word_count(bytes),
        word_at(bytes, k) == 0,
    ensures
        verifies(with_word(bytes, k, checksum_of(bytes))),
        checksum_of(with_word(bytes, k, checksum_of(bytes))) == 0,
        word_at(with_word(bytes, k, checksum_of(bytes)), k) == checksum_of(bytes),
{
    let sum = checksum_of(bytes);
    let filled = with_word(bytes, k, sum);
    lemma_checksum_closed_form(bytes);
    lemma_word_sum_bounds(bytes, word_count(bytes));
    lemma_word_sum_with_word(bytes, k, sum, word_count(bytes));
    lemma_ones_complement_sum(filled, word_count(filled));
}

/// Computes the checksum of `data`: its words are added up with end-around
/// carry, and the sum is complemented.
pub fn checksum(data: &[u8]) -> (sum: u16)
    ensures
        sum == checksum_of(data@),
{
    let count: usize = data.len() / 2 + data.len() % 2;
    let mut acc: u32 = 0;
    let mut k: usize = 0;
    while k < count
        invariant
            count == word_count(data@),
            0 <= k <= count,
            2 * count <= data.len() + 1,
            acc <= 0xffff,
            acc == ones_complement_sum(data@, k as int),
        decreases count - k,
    {
        let high: u32 = data[2 * k] as u32;
        let low: u32 = if 2 * k + 1 < data.len() {
            data[2 * k + 1] as u32
        } else {
            0
        };
        acc = acc + (high * 256 + low);
        if acc > 0xffff {
            acc = acc - 0xffff;
        }
        k = k + 1;
    }
    (0xffff - acc) as u16
}

} // verus!
