//! SHA-256 digests, and the hash of a position.
use vstd::prelude::*;
use vstd::utf8::encode_utf8;

use crate::board::Position;
use crate::serialize::{canonical_bytes, position_sfen};

verus! {

/// The SHA-256 digest of a byte string.
pub uninterp spec fn sha256(data: Seq<u8>) -> Seq<u8>;

/// Calls `sha2::Sha256::digest`: the 32-byte SHA-256 digest of `data`, which
/// depends on `data` alone.
#[verifier::external_body]
pub(crate) fn sha256_digest(data: &[u8]) -> (d: [u8; 32])
    ensures
        d@ == sha256(data@),
{
    <sha2::Sha256 as sha2::Digest>::digest(data).into()
}

/// Whether two digests are equal.
pub(crate) fn same_digest(a: &[u8; 32], b: &[u8; 32]) -> (r: bool)
    ensures
        r == (a@ == b@),
{
    let mut i: usize = 0;
    while i < 32
        invariant
            i <= 32,
            forall|j: int| 0 <= j < i ==> a@[j] == b@[j],
        decreases 32 - i,
    {
        if a[i] != b[i] {
            return false;
        }
        i += 1;
    }
    assert(a@ =~= b@);
    true
}

/// The SHA-256 of a position's canonical bytes (board, hands, turn number).
#[derive(Debug, Clone, Copy, PartialEq, Eq)]
pub struct BoardHash(pub [u8; 32]);

/// The hash that identifies a position.
pub open spec fn position_hash(pos: Position) -> Seq<u8> {
    sha256(encode_utf8(position_sfen(pos)))
}

/// The hash of a position: SHA-256 of its canonical bytes.
pub fn board_hash(pos: &Position) -> (h: BoardHash)
    ensures
        h.0@ == position_hash(*pos),
{
    let bytes = canonical_bytes(pos);
    BoardHash(sha256_digest(bytes.as_slice()))
}

/// Whether two board hashes are equal.
pub fn same_board_hash(a: &BoardHash, b: &BoardHash) -> (r: bool)
    ensures
        r == (a.0@ == b.0@),
{
    same_digest(&a.0, &b.0)
}

} // verus!
