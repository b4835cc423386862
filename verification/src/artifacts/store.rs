//! Content addressing: blobs are keyed by the lowercase hex of their
//! SHA-256 digest.

use vstd::prelude::*;
use sha2::Digest;
use crate::text::{digit_char, digit};

verus! {

/// The SHA-256 digest of `data`, as computed by the `sha2` crate.
pub uninterp spec fn sha256_of(data: Seq<u8>) -> Seq<u8>;

/// `sha2::Sha256::digest`: the SHA-256 digest of `data`. The contract
/// names the result `sha256_of(data)` and states its 32-byte length, as the
/// crate's output size fixes it; the digest algorithm itself is not restated.
#[verifier::external_body]
pub(crate) fn sha256_digest(data: &[u8]) -> (r: Vec<u8>)
    ensures
        r@ == sha256_of(data@),
        r@.len() == 32,
{
    sha2::Sha256::digest(data).to_vec()
}

/// Two lowercase hex digits of a byte.
pub open spec fn hex2(b: u8) -> Seq<char> {
    seq![digit_char((b / 16) as nat), digit_char((b % 16) as nat)]
}

/// Lowercase hex of a byte string, two digits per byte.
pub open spec fn hex_bytes(s: Seq<u8>) -> Seq<char>
    decreases s.len(),
{
    if s.len() == 0 {
        Seq::empty()
    } else {
        hex_bytes(s.drop_last()) + hex2(s.last())
    }
}

/// The hex of a byte string is twice as long.
pub proof fn lemma_hex_bytes_len(s: Seq<u8>)
    ensures
        hex_bytes(s).len() == 2 * s.len(),
    decreases s.len(),
{
    if s.len() > 0 {
        lemma_hex_bytes_len(s.drop_last());
    }
}

/// Lowercase hex encoding, two digits per byte.
pub fn hex_encode(b: &[u8]) -> (r: String)
    ensures
        r@ == hex_bytes(b@),
{
    let mut s = String::new();
    let mut i: usize = 0;
    assert(b@.take(0) =~= Seq::<u8>::empty());
    while i < b.len()
        invariant
            i <= b@.len(),
            s@ == hex_bytes(b@.take(i as int)),
        decreases b.len() - i,
    {
        let byte = b[i];
        s.push(digit((byte / 16) as u64));
        s.push(digit((byte % 16) as u64));
        assert(b@.take(i + 1).drop_last() =~= b@.take(i as int));
        assert(s@ =~= hex_bytes(b@.take(i as int)) + hex2(byte));
        i = i + 1;
    }
    assert(b@.take(b@.len() as int) =~= b@);
    s
}

/// The content-addressed key of a blob: the lowercase hex of its SHA-256
/// digest (64 characters).
pub fn content_hash(bytes: &[u8]) -> (r: String)
    ensures
        r@ == hex_bytes(sha256_of(bytes@)),
        r@.len() == 64,
{
    let d = sha256_digest(bytes);
    proof {
        lemma_hex_bytes_len(d@);
    }
    hex_encode(d.as_slice())
}

} // verus!
