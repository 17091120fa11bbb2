//! Recovery after a broken connection: the resume point is the position of
//! the record whose hash the other side reports, and the other side proves
//! its identity with the shared secret.
use vstd::prelude::*;

use crate::board::Position;
use crate::kifu::Kifu;
use crate::protocol::auth::{hash_secret, secret_hash_of, secret_matches, verify_secret, SecretHash};
use crate::protocol::hash::{board_hash, position_hash, same_board_hash, BoardHash};

verus! {

/// A recovery session: the game record and the hash of the shared secret.
pub struct RecoverySession {
    kifu: Kifu,
    secret_hash: SecretHash,
}

impl RecoverySession {
    /// The game record.
    pub closed spec fn record(&self) -> Kifu {
        self.kifu
    }

    /// The hash of the shared secret.
    pub closed spec fn secret(&self) -> Seq<u8> {
        self.secret_hash.0@
    }

    pub fn new(kifu: Kifu, secret_hash: SecretHash) -> (s: Self)
        ensures
            s.record() == kifu,
            s.secret() == secret_hash.0@,
    {
        RecoverySession { kifu, secret_hash }
    }

    pub fn new_with_secret(kifu: Kifu, secret: &[u8]) -> (s: Self)
        ensures
            s.record() == kifu,
            s.secret() == secret_hash_of(secret@),
    {
        Self::new(kifu, hash_secret(secret))
    }

    /// The first position of the record, from the start, whose hash is the
    /// other side's; none if no position matches.
    pub fn find_resume_point(&self, peer_hash: BoardHash) -> (r: Option<Position>)
        requires
            self.record().wf(),
        ensures
            match r {
                Some(p) => exists|n: int|
                    0 <= n <= self.record().plies@.len() && p == self.record().position_at(n)
                        && position_hash(p) == peer_hash.0@ && forall|m: int|
                        0 <= m < n ==> position_hash(self.record().position_at(m)) != peer_hash.0@,
                None => forall|n: int|
                    0 <= n <= self.record().plies@.len() ==> position_hash(
                        self.record().position_at(n),
                    ) != peer_hash.0@,
            },
    {
        let len = self.kifu.plies.len();
        let mut n: usize = 0;
        loop
            invariant
                len == self.record().plies@.len(),
                self.record().wf(),
                self.kifu == self.record(),
                n <= len,
                forall|m: int|
                    0 <= m < n ==> position_hash(self.record().position_at(m)) != peer_hash.0@,
            decreases len - n,
        {
            proof {
                assert forall|k: int| 0 <= k < n implies #[trigger] crate::kifu::step_ok(
                    self.kifu.initial_position,
                    self.kifu.plies@,
                    k,
                ) by {
                    assert(crate::kifu::step_ok(self.kifu.initial_position, self.kifu.plies@, k));
                }
            }
            let pos = self.kifu.replay(n);
            let h = board_hash(&pos);
            if same_board_hash(&h, &peer_hash) {
                return Some(pos);
            }
            if n == len {
                return None;
            }
            n += 1;
        }
    }

    /// Whether the claimed secret is the shared one.
    pub fn verify_identity(&self, claimed_secret: &[u8]) -> (b: bool)
        ensures
            b == secret_matches(claimed_secret@, self.secret()),
    {
        verify_secret(claimed_secret, &self.secret_hash)
    }

    /// The hash of the latest position of the record.
    pub fn current_hash(&self) -> (h: BoardHash)
        requires
            self.record().wf(),
        ensures
            h.0@ == position_hash(self.record().position_at(self.record().plies@.len() as int)),
    {
        let pos = self.kifu.current();
        board_hash(&pos)
    }
}

} // verus!
