//! One turn of the commit-reveal-ack protocol, as a state machine without I/O.
//! The caller makes the nonces, so every run is deterministic.
use vstd::prelude::*;

use crate::protocol::commit::{
    commit_opens, commit_value, make_commit, verify_commit, Commitment, Nonce,
};
use crate::protocol::hash::{same_board_hash, BoardHash};
use crate::types::{Action, Side};

verus! {

/// What is sent to the other side at reveal time.
#[derive(Debug, Clone, Copy, PartialEq, Eq)]
pub struct Reveal {
    pub action: Action,
    pub nonce: Nonce,
    pub board_hash: BoardHash,
}

/// A step of the protocol taken out of order or failing a check.
#[derive(Debug, Clone, Copy, PartialEq, Eq, Structural)]
pub enum ProtocolError {
    /// A reveal before both commitments were in.
    RevealBeforeBothCommitted,
    /// An acknowledgement before the other side's reveal.
    AckBeforePeerReveal,
    /// A reveal that does not open the commitment.
    CommitMismatch,
    /// The other side's board hash differs from ours.
    BoardHashMismatch,
    /// No own commitment yet.
    NotCommittedYet,
    /// A second own commitment.
    AlreadyCommitted,
    /// A second commitment from the other side.
    DuplicatePeerCommit,
    /// A second reveal from the other side.
    DuplicatePeerReveal,
}

/// The state of a turn.
pub struct TurnState {
    pub local_side: Side,
    pub current_pos_hash: BoardHash,
    pub local_action: Option<Action>,
    pub local_nonce: Option<Nonce>,
    pub local_commit: Option<Commitment>,
    pub local_revealed: bool,
    pub local_acked: bool,
    pub peer_commit: Option<Commitment>,
    pub peer_action: Option<Action>,
    pub peer_acked: bool,
}

impl TurnState {
    /// Both commitments are in.
    pub open spec fn both_committed(self) -> bool {
        self.local_commit is Some && self.peer_commit is Some
    }

    /// What every turn keeps: the own action, nonce and commitment come
    /// together and agree; each reveal comes after both commitments, and the
    /// other side's action opens its commitment; an own acknowledgement comes
    /// after the other side's reveal.
    pub open spec fn wf(self) -> bool {
        &&& (self.local_action is Some) == (self.local_nonce is Some)
        &&& (self.local_action is Some) == (self.local_commit is Some)
        &&& self.local_action matches Some(a) ==> a.wf() && (self.local_commit->0).0@ == commit_value(
            a,
            (self.local_nonce->0).0@,
        )
        &&& self.local_revealed ==> self.both_committed()
        &&& self.peer_action matches Some(a) ==> {
            &&& a.wf()
            &&& self.both_committed()
            &&& exists|n: Seq<u8>| n.len() == 32 && commit_opens((self.peer_commit->0).0@, a, n)
        }
        &&& self.local_acked ==> self.peer_action is Some
    }
}

/// One turn of the protocol, from the side of `local_side`.
pub struct TurnSession {
    pub local_side: Side,
    pub current_pos_hash: BoardHash,
    local_action: Option<Action>,
    local_nonce: Option<Nonce>,
    local_commit: Option<Commitment>,
    local_revealed: bool,
    local_acked: bool,
    peer_commit: Option<Commitment>,
    peer_action: Option<Action>,
    peer_acked: bool,
}

impl TurnSession {
    /// The private state of the turn.
    pub closed spec fn state(&self) -> TurnState {
        TurnState {
            local_side: self.local_side,
            current_pos_hash: self.current_pos_hash,
            local_action: self.local_action,
            local_nonce: self.local_nonce,
            local_commit: self.local_commit,
            local_revealed: self.local_revealed,
            local_acked: self.local_acked,
            peer_commit: self.peer_commit,
            peer_action: self.peer_action,
            peer_acked: self.peer_acked,
        }
    }

    /// The turn is well formed (see `TurnState::wf`).
    pub open spec fn wf(&self) -> bool {
        self.state().wf()
    }

    /// A fresh turn: nothing committed, revealed or acknowledged.
    pub fn new(local_side: Side, current_pos_hash: BoardHash) -> (s: Self)
        ensures
            s.state() == (TurnState {
                local_side,
                current_pos_hash,
                local_action: None,
                local_nonce: None,
                local_commit: None,
                local_revealed: false,
                local_acked: false,
                peer_commit: None,
                peer_action: None,
                peer_acked: false,
            }),
            s.wf(),
    {
        TurnSession {
            local_side,
            current_pos_hash,
            local_action: None,
            local_nonce: None,
            local_commit: None,
            local_revealed: false,
            local_acked: false,
            peer_commit: None,
            peer_action: None,
            peer_acked: false,
        }
    }

    /// Fixes the own action and makes its commitment, which is returned to be sent.
    pub fn local_commit(&mut self, action: Action, nonce: Nonce) -> (r: Result<Commitment, ProtocolError>)
        requires
            old(self).wf(),
            action.wf(),
        ensures
            final(self).wf(),
            old(self).state().local_commit is Some ==> r == Err::<Commitment, ProtocolError>(
                ProtocolError::AlreadyCommitted,
            ) && final(self).state() == old(self).state(),
            old(self).state().local_commit is None ==> (r matches Ok(c) && c.0@ == commit_value(
                action,
                nonce.0@,
            ) && final(self).state() == (TurnState {
                local_action: Some(action),
                local_nonce: Some(nonce),
                local_commit: Some(c),
                ..old(self).state()
            })),
    {
        if self.local_commit.is_some() {
            return Err(ProtocolError::AlreadyCommitted);
        }
        let c = make_commit(action, &nonce);
        self.local_action = Some(action);
        self.local_nonce = Some(nonce);
        self.local_commit = Some(c);
        Ok(c)
    }

    /// Records the other side's commitment.
    pub fn receive_peer_commit(&mut self, commit: Commitment) -> (r: Result<(), ProtocolError>)
        requires
            old(self).wf(),
        ensures
            final(self).wf(),
            old(self).state().peer_commit is Some ==> r == Err::<(), ProtocolError>(
                ProtocolError::DuplicatePeerCommit,
            ) && final(self).state() == old(self).state(),
            old(self).state().peer_commit is None ==> r is Ok && final(self).state() == (TurnState {
                peer_commit: Some(commit),
                ..old(self).state()
            }),
    {
        if self.peer_commit.is_some() {
            return Err(ProtocolError::DuplicatePeerCommit);
        }
        self.peer_commit = Some(commit);
        Ok(())
    }

    /// Whether both commitments are in.
    pub fn both_committed(&self) -> (b: bool)
        ensures
            b == self.state().both_committed(),
    {
        self.local_commit.is_some() && self.peer_commit.is_some()
    }

    /// Makes the own reveal (only once both commitments are in).
    pub fn local_reveal(&mut self) -> (r: Result<Reveal, ProtocolError>)
        requires
            old(self).wf(),
        ensures
            final(self).wf(),
            !old(self).state().both_committed() ==> r == Err::<Reveal, ProtocolError>(
                ProtocolError::RevealBeforeBothCommitted,
            ) && final(self).state() == old(self).state(),
            old(self).state().both_committed() ==> r == Ok::<Reveal, ProtocolError>(
                Reveal {
                    action: old(self).state().local_action->0,
                    nonce: old(self).state().local_nonce->0,
                    board_hash: old(self).state().current_pos_hash,
                },
            ) && final(self).state() == (TurnState { local_revealed: true, ..old(self).state() }),
    {
        if !self.both_committed() {
            return Err(ProtocolError::RevealBeforeBothCommitted);
        }
        let action = match self.local_action {
            Some(a) => a,
            None => {
                return Err(ProtocolError::NotCommittedYet);
            },
        };
        let nonce = match self.local_nonce {
            Some(n) => n,
            None => {
                return Err(ProtocolError::NotCommittedYet);
            },
        };
        self.local_revealed = true;
        Ok(Reveal { action, nonce, board_hash: self.current_pos_hash })
    }

    /// Receives the other side's reveal: accepted only after both
    /// commitments, once, when it opens the other side's commitment, and when
    /// its board hash is ours.
    pub fn receive_peer_reveal(&mut self, action: Action, nonce: Nonce, board_hash: BoardHash) -> (r: Result<(), ProtocolError>)
        requires
            old(self).wf(),
            action.wf(),
        ensures
            final(self).wf(),
            r == peer_reveal_check(old(self).state(), action, nonce.0@, board_hash.0@),
            r is Err ==> final(self).state() == old(self).state(),
            r is Ok ==> final(self).state() == (TurnState { peer_action: Some(action), ..old(self).state() }),
    {
        if !self.both_committed() {
            return Err(ProtocolError::RevealBeforeBothCommitted);
        }
        if self.peer_action.is_some() {
            return Err(ProtocolError::DuplicatePeerReveal);
        }
        let pc = match self.peer_commit {
            Some(c) => c,
            None => {
                return Err(ProtocolError::RevealBeforeBothCommitted);
            },
        };
        if !verify_commit(&pc, action, &nonce) {
            return Err(ProtocolError::CommitMismatch);
        }
        if !same_board_hash(&board_hash, &self.current_pos_hash) {
            return Err(ProtocolError::BoardHashMismatch);
        }
        self.peer_action = Some(action);
        Ok(())
    }

    /// Whether both reveals are done.
    pub fn both_revealed(&self) -> (b: bool)
        ensures
            b == (self.state().local_revealed && self.state().peer_action is Some),
    {
        self.local_revealed && self.peer_action.is_some()
    }

    /// Acknowledges the other side's reveal.
    pub fn local_ack(&mut self) -> (r: Result<(), ProtocolError>)
        requires
            old(self).wf(),
        ensures
            final(self).wf(),
            old(self).state().peer_action is None ==> r == Err::<(), ProtocolError>(
                ProtocolError::AckBeforePeerReveal,
            ) && final(self).state() == old(self).state(),
            old(self).state().peer_action is Some ==> r is Ok && final(self).state() == (TurnState {
                local_acked: true,
                ..old(self).state()
            }),
    {
        if self.peer_action.is_none() {
            return Err(ProtocolError::AckBeforePeerReveal);
        }
        self.local_acked = true;
        Ok(())
    }

    /// Records the other side's acknowledgement.
    pub fn receive_peer_ack(&mut self)
        requires
            old(self).wf(),
        ensures
            final(self).wf(),
            final(self).state() == (TurnState { peer_acked: true, ..old(self).state() }),
    {
        self.peer_acked = true;
    }

    /// Whether both acknowledgements are done: the turn is settled.
    pub fn is_complete(&self) -> (b: bool)
        ensures
            b == (self.state().local_acked && self.state().peer_acked),
    {
        self.local_acked && self.peer_acked
    }

    /// Once the turn is settled, the (sente, gote) actions.
    pub fn get_actions(&self) -> (r: Option<(Action, Action)>)
        requires
            self.wf(),
        ensures
            r == settled_actions(self.state()),
    {
        if !self.is_complete() {
            return None;
        }
        let local = match self.local_action {
            Some(a) => a,
            None => {
                return None;
            },
        };
        let peer = match self.peer_action {
            Some(a) => a,
            None => {
                return None;
            },
        };
        Some(
            match self.local_side {
                Side::Sente => (local, peer),
                Side::Gote => (peer, local),
            },
        )
    }
}

/// The answer to the other side's reveal.
pub open spec fn peer_reveal_check(
    st: TurnState,
    action: Action,
    nonce: Seq<u8>,
    board_hash: Seq<u8>,
) -> Result<(), ProtocolError> {
    if !st.both_committed() {
        Err(ProtocolError::RevealBeforeBothCommitted)
    } else if st.peer_action is Some {
        Err(ProtocolError::DuplicatePeerReveal)
    } else if !commit_opens((st.peer_commit->0).0@, action, nonce) {
        Err(ProtocolError::CommitMismatch)
    } else if board_hash != st.current_pos_hash.0@ {
        Err(ProtocolError::BoardHashMismatch)
    } else {
        Ok(())
    }
}

/// The (sente, gote) actions of a settled turn; none before.
pub open spec fn settled_actions(st: TurnState) -> Option<(Action, Action)> {
    if st.local_acked && st.peer_acked {
        let local = st.local_action->0;
        let peer = st.peer_action->0;
        Some(
            match st.local_side {
                Side::Sente => (local, peer),
                Side::Gote => (peer, local),
            },
        )
    } else {
        None
    }
}

/// Law: a settled turn holds the own committed action and an action of the
/// other side that opens the other side's commitment; both sides revealed
/// only after both commitments were in.
pub proof fn lemma_settled_turn(st: TurnState)
    requires
        st.wf(),
        st.local_acked,
        st.peer_acked,
    ensures
        st.both_committed(),
        st.local_action matches Some(a) && (st.local_commit->0).0@ == commit_value(
            a,
            (st.local_nonce->0).0@,
        ),
        st.peer_action matches Some(b) && exists|n: Seq<u8>|
            n.len() == 32 && commit_opens((st.peer_commit->0).0@, b, n),
{
}

} // verus!
