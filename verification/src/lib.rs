//! Support for the Redshirt 1 and Redshirt 2 data encoding schemes.
//!
//! Both schemes store a fixed marker followed by the payload, every byte of
//! which has its top bit flipped. Redshirt 2 additionally stores a SHA-1
//! digest of the stored payload between the marker and the payload.
//!
//! `v1::Reader` and `v2::Reader` decode a stream, `v1::Writer` and
//! `v2::Writer` encode one. All four wrap a value that implements
//! [`stream::Stream`]; [`mem::MemStream`] is such a stream over a byte vector.
//! `v1::encode`, `v1::decode`, `v2::encode` and `v2::decode` work on whole
//! buffers in memory.
//!
//! What a stream holds for given data, and what data a stream holds, are the
//! spec functions `encoded` and `decoded` of each scheme; that they undo each
//! other, and what becomes of a stream that was tampered with, is proved of
//! them next to their definitions.

use vstd::prelude::*;

pub mod checksum;
pub mod cursor;
pub mod error;
pub mod mem;
pub mod stream;
pub mod v1;
pub mod v2;

pub use error::{Error, ErrorKind, IoError};

verus! {

/// The bit that the transform flips in every payload byte.
pub const FLIP: u8 = 0x80;

/// What a payload byte becomes when it is stored, and what a stored byte
/// becomes when it is read back.
pub open spec fn flip(b: u8) -> u8 {
    b ^ FLIP
}

/// The transform applied to every byte of a sequence.
pub open spec fn flipped(s: Seq<u8>) -> Seq<u8> {
    Seq::new(s.len(), |i: int| flip(s[i]))
}

/// Flipping a byte twice gives the byte back.
pub proof fn lemma_flip_involutive(b: u8)
    ensures
        flip(flip(b)) == b,
{
    assert((b ^ 0x80u8) ^ 0x80u8 == b) by (bit_vector);
}

/// Flipping a sequence twice gives the sequence back.
pub proof fn lemma_flipped_involutive(s: Seq<u8>)
    ensures
        flipped(flipped(s)) == s,
{
    assert forall|i: int| 0 <= i < s.len() implies flipped(flipped(s))[i] == s[i] by {
        lemma_flip_involutive(s[i]);
    }
}

/// Flips the top bit of one byte.
pub fn xor_byte(b: u8) -> (r: u8)
    ensures
        r == flip(b),
{
    b ^ FLIP
}

/// Flips the top bit of every byte of `bytes`, in place.
pub fn xor_bytes(bytes: &mut [u8])
    ensures
        final(bytes)@ == flipped(old(bytes)@),
{
    let n = bytes.len();
    let mut i: usize = 0;
    while i < n
        invariant
            i <= n,
            bytes@.len() == n,
            old(bytes)@.len() == n,
            forall|j: int| 0 <= j < i ==> bytes@[j] == flip(old(bytes)@[j]),
            forall|j: int| i <= j < n ==> bytes@[j] == old(bytes)@[j],
        decreases n - i,
    {
        bytes[i] = bytes[i] ^ FLIP;
        i += 1;
    }
}

/// A vector of `len` zero bytes.
pub fn zeroed(len: usize) -> (bytes: Vec<u8>)
    ensures
        bytes@ == Seq::new(len as nat, |i: int| 0u8),
{
    let mut bytes: Vec<u8> = Vec::new();
    while bytes.len() < len
        invariant
            bytes@.len() <= len,
            forall|i: int| 0 <= i < bytes@.len() ==> bytes@[i] == 0,
        decreases len - bytes@.len(),
    {
        bytes.push(0);
    }
    bytes
}

/// Whether two slices hold the same bytes.
pub fn bytes_equal(a: &[u8], b: &[u8]) -> (equal: bool)
    ensures
        equal == (a@ == b@),
{
    if a.len() != b.len() {
        return false;
    }
    let mut i: usize = 0;
    while i < a.len()
        invariant
            i <= a@.len(),
            a@.len() == b@.len(),
            forall|j: int| 0 <= j < i ==> a@[j] == b@[j],
        decreases a@.len() - i,
    {
        if a[i] != b[i] {
            return false;
        }
        i += 1;
    }
    assert(a@ =~= b@);
    true
}

} // verus!
