//! Message fingerprints: a SHA-256 digest and its 64-bit shorthand.

use vstd::prelude::*;
use sha2::{Digest, Sha256};
use crate::time::Timestamp;

verus! {

/// The prime by which the folded value is multiplied in each round.
pub const PRIME_ONE: u64 = 2999085892127319403;

/// The prime by which the next word of the digest is multiplied.
pub const PRIME_TWO: u64 = 13962674565864582377;

/// The prime by which each round is reduced; every shorthand is below it.
pub const PRIME_THREE: u64 = 13714677094544069263;

/// The SHA-256 digest of a byte string, as `sha2` computes it.
pub uninterp spec fn sha256_digest(data: Seq<u8>) -> Seq<u8>;

/// Calls `sha2::Sha256::digest`. The contract only names the 32 bytes that
/// come back: they are the SHA-256 digest of `data`, a function of the bytes
/// alone.
#[verifier::external_body]
pub(crate) fn sha256(data: &[u8]) -> (out: [u8; 32])
    ensures
        out@ == sha256_digest(data@),
{
    Sha256::digest(data).into()
}

/// The value of the eight bytes of `bytes` from index `at`, read big-endian.
pub open spec fn be_word(bytes: Seq<u8>, at: int) -> int {
    bytes[at] * 0x0100_0000_0000_0000 + bytes[at + 1] * 0x0001_0000_0000_0000
        + bytes[at + 2] * 0x0000_0100_0000_0000 + bytes[at + 3] * 0x0000_0001_0000_0000
        + bytes[at + 4] * 0x0000_0000_0100_0000 + bytes[at + 5] * 0x0000_0000_0001_0000
        + bytes[at + 6] * 0x0000_0000_0000_0100 + bytes[at + 7]
}

/// One round of the folding recurrence: `(acc * p1 + word * p2) mod p3`, with
/// each product and the sum taken modulo 2^64.
pub open spec fn fold_round(acc: int, word: int) -> int {
    (((acc * PRIME_ONE) % 0x1_0000_0000_0000_0000 + (word * PRIME_TWO) % 0x1_0000_0000_0000_0000)
        % 0x1_0000_0000_0000_0000) % (PRIME_THREE as int)
}

/// The shorthand of a 32-byte digest: its four big-endian words folded from 0.
pub open spec fn shorthand_of(hash: Seq<u8>) -> int {
    fold_round(
        fold_round(fold_round(fold_round(0, be_word(hash, 0)), be_word(hash, 8)), be_word(hash, 16)),
        be_word(hash, 24),
    )
}

/// The four bytes of `n`, most significant first.
pub open spec fn be_bytes_u32(n: u32) -> Seq<u8> {
    seq![
        (n / 0x100_0000) as u8,
        (n / 0x1_0000 % 0x100) as u8,
        (n / 0x100 % 0x100) as u8,
        (n % 0x100) as u8,
    ]
}

/// The bytes that are hashed for a message submitted at `nanos` past the
/// second: the message, then `nanos` big-endian.
pub open spec fn fingerprint_input(message: Seq<u8>, nanos: u32) -> Seq<u8> {
    message + be_bytes_u32(nanos)
}

fn read_word(hash: &[u8; 32], at: usize) -> (w: u64)
    requires
        at + 8 <= 32,
    ensures
        w == be_word(hash@, at as int),
{
    (hash[at] as u64) * 0x0100_0000_0000_0000 + (hash[at + 1] as u64) * 0x0001_0000_0000_0000
        + (hash[at + 2] as u64) * 0x0000_0100_0000_0000 + (hash[at + 3] as u64)
        * 0x0000_0001_0000_0000 + (hash[at + 4] as u64) * 0x0000_0000_0100_0000 + (hash[at
        + 5] as u64) * 0x0000_0000_0001_0000 + (hash[at + 6] as u64) * 0x0000_0000_0000_0100
        + (hash[at + 7] as u64)
}

fn fold(acc: u64, word: u64) -> (r: u64)
    ensures
        r == fold_round(acc as int, word as int),
        r < PRIME_THREE,
{
    acc.wrapping_mul(PRIME_ONE).wrapping_add(word.wrapping_mul(PRIME_TWO)) % PRIME_THREE
}

/// Folds a 32-byte digest into its 64-bit shorthand.
pub fn shorten_hash(message_hash: &[u8; 32]) -> (shorthand: u64)
    ensures
        shorthand == shorthand_of(message_hash@),
        shorthand < PRIME_THREE,
{
    let a = fold(0, read_word(message_hash, 0));
    let b = fold(a, read_word(message_hash, 8));
    let c = fold(b, read_word(message_hash, 16));
    fold(c, read_word(message_hash, 24))
}

/// The digest and shorthand of a message submitted at `timestamp`: only the
/// sub-second part of the timestamp enters the digest.
pub fn calculate_hash(message: &Vec<u8>, timestamp: &Timestamp) -> (r: ([u8; 32], u64))
    ensures
        r.0@ == sha256_digest(fingerprint_input(message@, timestamp.nanos)),
        r.1 == shorthand_of(r.0@),
{
    let n = timestamp.nanos;
    let mut input: Vec<u8> = message.clone();
    input.push((n / 0x100_0000) as u8);
    input.push((n / 0x1_0000 % 0x100) as u8);
    input.push((n / 0x100 % 0x100) as u8);
    input.push((n % 0x100) as u8);
    assert(input@ =~= fingerprint_input(message@, n));
    let message_hash = sha256(input.as_slice());
    let shorthand = shorten_hash(&message_hash);
    (message_hash, shorthand)
}

/// The identifier of the node called `name`: the shorthand of the SHA-256
/// digest of the name's UTF-8 bytes.
pub fn calculate_node_id(name: &String) -> (id: u64)
    ensures
        id == node_id_of(name@),
{
    let digest = sha256(name.as_str().as_bytes());
    shorten_hash(&digest)
}

/// The identifier that belongs to a node name.
pub open spec fn node_id_of(name: Seq<char>) -> int {
    shorthand_of(sha256_digest(vstd::utf8::encode_utf8(name)))
}

} // verus!
