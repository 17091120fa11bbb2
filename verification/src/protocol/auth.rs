//! Identity on reconnection: the SHA-256 of a secret shared before the game.
use vstd::prelude::*;

use crate::protocol::hash::{same_digest, sha256, sha256_digest};

verus! {

/// The SHA-256 of a shared secret (what is given to the other side).
#[derive(Debug, Clone, Copy, PartialEq, Eq)]
pub struct SecretHash(pub [u8; 32]);

/// The hash that stands for a secret.
pub open spec fn secret_hash_of(secret: Seq<u8>) -> Seq<u8> {
    sha256(secret)
}

/// A claimed secret matches an expected hash.
pub open spec fn secret_matches(claimed: Seq<u8>, expected: Seq<u8>) -> bool {
    sha256(claimed) == expected
}

/// The hash of a secret.
pub fn hash_secret(secret: &[u8]) -> (h: SecretHash)
    ensures
        h.0@ == secret_hash_of(secret@),
{
    SecretHash(sha256_digest(secret))
}

/// Whether a claimed secret hashes to the expected hash.
pub fn verify_secret(claimed: &[u8], expected: &SecretHash) -> (b: bool)
    ensures
        b == secret_matches(claimed@, expected.0@),
{
    let h = hash_secret(claimed);
    same_digest(&h.0, &expected.0)
}

/// Law: a secret is accepted against its own hash.
pub proof fn lemma_secret_accepted(secret: Seq<u8>)
    ensures
        secret_matches(secret, secret_hash_of(secret)),
{
}

} // verus!
