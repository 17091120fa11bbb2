//! Commitments: SHA-256 of an action's USI text followed by a 32-byte nonce.
use vstd::prelude::*;
use vstd::utf8::{encode_utf8, encode_utf8_decode_utf8};

use crate::protocol::hash::{same_digest, sha256, sha256_digest};
use crate::types::{lemma_usi_roundtrip, usi_action, Action};

verus! {

/// SHA-256(action USI text || nonce).
#[derive(Debug, Clone, Copy, PartialEq, Eq)]
pub struct Commitment(pub [u8; 32]);

/// A random nonce, made by the caller.
#[derive(Debug, Clone, Copy, PartialEq, Eq)]
pub struct Nonce(pub [u8; 32]);

/// The bytes that a commitment hashes: the UTF-8 of the action's USI text,
/// then the nonce.
pub open spec fn commit_input(action: Action, nonce: Seq<u8>) -> Seq<u8> {
    encode_utf8(usi_action(action)) + nonce
}

/// The commitment to an action under a nonce.
pub open spec fn commit_value(action: Action, nonce: Seq<u8>) -> Seq<u8> {
    sha256(commit_input(action, nonce))
}

/// A commitment opens to an action and a nonce.
pub open spec fn commit_opens(commitment: Seq<u8>, action: Action, nonce: Seq<u8>) -> bool {
    commit_value(action, nonce) == commitment
}

/// Commits to an action under a nonce.
pub fn make_commit(action: Action, nonce: &Nonce) -> (c: Commitment)
    requires
        action.wf(),
    ensures
        c.0@ == commit_value(action, nonce.0@),
{
    let usi = action.to_usi();
    let mut bytes = usi.as_str().as_bytes_vec();
    let ghost prefix = bytes@;
    let mut i: usize = 0;
    while i < 32
        invariant
            i <= 32,
            prefix == encode_utf8(usi_action(action)),
            bytes@ == prefix + nonce.0@.take(i as int),
        decreases 32 - i,
    {
        bytes.push(nonce.0[i]);
        assert(nonce.0@.take(i + 1) == nonce.0@.take(i as int).push(nonce.0@[i as int]));
        i += 1;
    }
    assert(nonce.0@.take(32) =~= nonce.0@);
    Commitment(sha256_digest(bytes.as_slice()))
}

/// Whether a commitment opens to an action and a nonce.
pub fn verify_commit(commitment: &Commitment, action: Action, nonce: &Nonce) -> (b: bool)
    requires
        action.wf(),
    ensures
        b == commit_opens(commitment.0@, action, nonce.0@),
{
    let c = make_commit(action, nonce);
    same_digest(&c.0, &commitment.0)
}

/// Law: a commitment opens to the action and the nonce it was made from.
pub proof fn lemma_commit_opens(action: Action, nonce: Seq<u8>)
    ensures
        commit_opens(commit_value(action, nonce), action, nonce),
{
}

/// Law: the bytes hashed for a commitment determine the action and the nonce:
/// two different (action, nonce) pairs never hash the same input, so a
/// commitment binds as far as SHA-256 is collision-free.
pub proof fn lemma_commit_input_injective(a1: Action, n1: Seq<u8>, a2: Action, n2: Seq<u8>)
    requires
        a1.wf(),
        a2.wf(),
        n1.len() == 32,
        n2.len() == 32,
        commit_input(a1, n1) == commit_input(a2, n2),
    ensures
        a1 == a2,
        n1 == n2,
{
    let e1 = encode_utf8(usi_action(a1));
    let e2 = encode_utf8(usi_action(a2));
    let x = commit_input(a1, n1);
    assert(x == e1 + n1);
    assert(x == e2 + n2);
    assert(x.len() == e1.len() + 32);
    assert(x.len() == e2.len() + 32);
    assert(e1.len() == e2.len());
    assert(x.take(e1.len() as int) =~= e1);
    assert(x.take(e2.len() as int) =~= e2);
    assert(x.skip(e1.len() as int) =~= n1);
    assert(commit_input(a2, n2).skip(e2.len() as int) =~= n2);
    encode_utf8_decode_utf8(usi_action(a1));
    encode_utf8_decode_utf8(usi_action(a2));
    lemma_usi_roundtrip(a1);
    lemma_usi_roundtrip(a2);
}

} // verus!
