//! A whole session on one side: the handshake with version negotiation and the
//! record of the other side's secret hash, commitments that arrive before our
//! own, the turn that closes on both acknowledgements, and reconnection checked
//! against the recorded hash. Transport is the caller's.
use vstd::prelude::*;
use vstd::utf8::encode_utf8;

use crate::protocol::auth::{hash_secret, secret_hash_of, SecretHash};
use crate::protocol::commit::{commit_value, Commitment, Nonce};
use crate::protocol::hash::{same_digest, BoardHash};
use crate::protocol::negotiate::{
    my_version, negotiate_versions, negotiation, spec_my_version, NegotiationOutcome,
    PeerVersionResponse, VersionTuple,
};
use crate::protocol::session::{
    peer_reveal_check, settled_actions, ProtocolError, TurnSession, TurnState,
};
use crate::protocol::wire::{from_hex32, hex32_of, hex_text, to_hex, WireMessage};
use crate::types::{parse_action, usi_action, Action, Side};

verus! {

/// What `feed` reports; the caller updates its display and decides what to do next.
#[derive(Debug, Clone, PartialEq, Eq)]
pub enum SessionEvent {
    HandshakeDone { peer_side: Side },
    PeerCommitted { both_committed: bool },
    PeerCommitBuffered,
    PeerRevealed { both_revealed: bool },
    PeerAcked,
    TurnComplete { sente: Action, gote: Action },
    /// The other side asks to reconnect, its identity checked; the caller checks
    /// the board hash for a resume point and answers.
    PeerReconnectRequest { board_hash: BoardHash },
    /// Our reconnection was accepted, to resume from this board hash.
    ReconnectAck { resume_hash: BoardHash },
    PeerAborted { reason: String },
}

/// Why a step of the session failed.
#[derive(Debug, Clone, Copy, PartialEq, Eq)]
pub enum SessionError {
    VersionMismatch(NegotiationOutcome),
    DuplicateHello,
    HandshakeNotDone,
    NoActiveTurn,
    Protocol(ProtocolError),
    /// The hash sent on reconnection is not the one recorded at the handshake.
    IdentityMismatch,
    /// A hexadecimal field does not read as 32 bytes.
    BadHex,
    /// The action field is not USI.
    InvalidUsi,
}

/// The state of a session.
pub struct ClientState {
    pub side: Side,
    pub my_auth_hash: Seq<u8>,
    pub peer_auth_hash: Option<Seq<u8>>,
    pub handshake_done: bool,
    pub turn: Option<TurnState>,
    pub pending_peer_commit: Option<Seq<u8>>,
}

/// The session of one side.
pub struct ClientSession {
    side: Side,
    my_auth_hash: SecretHash,
    peer_auth_hash: Option<SecretHash>,
    handshake_done: bool,
    turn: Option<TurnSession>,
    pending_peer_commit: Option<Commitment>,
}

/// The name of a side on the wire.
pub open spec fn side_text(s: Side) -> Seq<char> {
    match s {
        Side::Sente => "sente"@,
        Side::Gote => "gote"@,
    }
}

/// The side named on the wire: `sente`, or else gote.
pub open spec fn side_of_text(s: Seq<char>) -> Side {
    if s == "sente"@ {
        Side::Sente
    } else {
        Side::Gote
    }
}

/// The 32 bytes read from a hexadecimal field.
pub open spec fn hex_field(s: Seq<char>) -> Option<Seq<u8>> {
    hex32_of(encode_utf8(s))
}

impl ClientSession {
    /// The state of the session.
    pub closed spec fn state(&self) -> ClientState {
        ClientState {
            side: self.side,
            my_auth_hash: self.my_auth_hash.0@,
            peer_auth_hash: match self.peer_auth_hash {
                Some(h) => Some(h.0@),
                None => None,
            },
            handshake_done: self.handshake_done,
            turn: match self.turn {
                Some(t) => Some(t.state()),
                None => None,
            },
            pending_peer_commit: match self.pending_peer_commit {
                Some(c) => Some(c.0@),
                None => None,
            },
        }
    }

    /// The session is well formed: its turn, if any, is.
    pub closed spec fn wf(&self) -> bool {
        self.turn matches Some(t) ==> t.wf()
    }

    /// A session for `side`, holding the hash of the shared secret.
    pub fn new(side: Side, secret: &[u8]) -> (s: Self)
        ensures
            s.wf(),
            s.state() == (ClientState {
                side,
                my_auth_hash: secret_hash_of(secret@),
                peer_auth_hash: None,
                handshake_done: false,
                turn: None,
                pending_peer_commit: None,
            }),
    {
        ClientSession {
            side,
            my_auth_hash: hash_secret(secret),
            peer_auth_hash: None,
            handshake_done: false,
            turn: None,
            pending_peer_commit: None,
        }
    }

    /// Whether the handshake is done.
    pub fn handshake_done(&self) -> (b: bool)
        ensures
            b == self.state().handshake_done,
    {
        self.handshake_done
    }

    /// The other side's secret hash, recorded at the handshake.
    pub fn peer_auth_hash(&self) -> (h: Option<SecretHash>)
        ensures
            match h {
                Some(x) => self.state().peer_auth_hash == Some(x.0@),
                None => self.state().peer_auth_hash is None,
            },
    {
        self.peer_auth_hash
    }

    /// The handshake message: our versions, secret hash and side.
    pub fn hello_msg(&self) -> (m: WireMessage)
        ensures
            m matches WireMessage::Hello { rule_major, rule_minor, proto_ver, auth_hash, side } && rule_major
                == spec_my_version().rule.0 && rule_minor == spec_my_version().rule.1 && proto_ver
                == spec_my_version().protocol && auth_hash@ == hex_text(self.state().my_auth_hash)
                && side@ == side_text(self.state().side),
    {
        let v = my_version();
        WireMessage::Hello {
            rule_major: v.rule.0,
            rule_minor: v.rule.1,
            proto_ver: v.protocol,
            auth_hash: to_hex(&self.my_auth_hash.0),
            side: side_string(self.side),
        }
    }

    /// The reconnection message: our secret hash and the current board hash.
    pub fn reconnect_msg(&self, board_hash: BoardHash) -> (m: WireMessage)
        ensures
            m matches WireMessage::Reconnect { auth_hash, board_hash: b } && auth_hash@ == hex_text(
                self.state().my_auth_hash,
            ) && b@ == hex_text(board_hash.0@),
    {
        WireMessage::Reconnect {
            auth_hash: to_hex(&self.my_auth_hash.0),
            board_hash: to_hex(&board_hash.0),
        }
    }

    /// The acceptance of the other side's reconnection, at the agreed resume point.
    pub fn reconnect_ack_msg(&self, resume_hash: BoardHash) -> (m: WireMessage)
        ensures
            m matches WireMessage::ReconnectAck { board_hash } && board_hash@ == hex_text(
                resume_hash.0@,
            ),
    {
        WireMessage::ReconnectAck { board_hash: to_hex(&resume_hash.0) }
    }

    /// Fixes our action: a new turn is opened with its commitment, a
    /// commitment of the other side that came early is applied, and the
    /// commitment message is returned.
    pub fn commit(&mut self, board_hash: BoardHash, action: Action, nonce: Nonce) -> (r: Result<WireMessage, SessionError>)
        requires
            old(self).wf(),
            action.wf(),
        ensures
            final(self).wf(),
            !old(self).state().handshake_done ==> r == Err::<WireMessage, SessionError>(
                SessionError::HandshakeNotDone,
            ) && final(self).state() == old(self).state(),
            old(self).state().handshake_done ==> (r matches Ok(WireMessage::Commit { commitment })
                && commitment@ == hex_text(commit_value(action, nonce.0@)) && final(self).state()
                == (ClientState {
                turn: Some(
                    TurnState {
                        local_side: old(self).state().side,
                        current_pos_hash: board_hash,
                        local_action: Some(action),
                        local_nonce: Some(nonce),
                        local_commit: final(self).state().turn->0.local_commit,
                        local_revealed: false,
                        local_acked: false,
                        peer_commit: final(self).state().turn->0.peer_commit,
                        peer_action: None,
                        peer_acked: false,
                    },
                ),
                pending_peer_commit: None,
                ..old(self).state()
            }) && final(self).state().turn->0.local_commit is Some
                && (final(self).state().turn->0.local_commit->0).0@ == commit_value(action, nonce.0@)
                && match old(self).state().pending_peer_commit {
                Some(pc) => final(self).state().turn->0.peer_commit matches Some(c) && c.0@ == pc,
                None => final(self).state().turn->0.peer_commit is None,
            }),
    {
        if !self.handshake_done {
            return Err(SessionError::HandshakeNotDone);
        }
        let mut t = TurnSession::new(self.side, board_hash);
        let commitment = match t.local_commit(action, nonce) {
            Ok(c) => c,
            Err(e) => {
                return Err(SessionError::Protocol(e));
            },
        };
        if let Some(pc) = self.pending_peer_commit {
            let _ = t.receive_peer_commit(pc);
        }
        self.pending_peer_commit = None;
        self.turn = Some(t);
        Ok(WireMessage::Commit { commitment: to_hex(&commitment.0) })
    }

    /// Drops the turn in progress and any commitment of the other side that
    /// came early: after a broken connection both sides enter their actions
    /// again.
    pub fn abort_turn(&mut self)
        requires
            old(self).wf(),
        ensures
            final(self).wf(),
            final(self).state() == (ClientState {
                turn: None,
                pending_peer_commit: None,
                ..old(self).state()
            }),
    {
        self.turn = None;
        self.pending_peer_commit = None;
    }

    /// Whether both commitments of the current turn are in.
    pub fn both_committed(&self) -> (b: bool)
        ensures
            b == (self.state().turn matches Some(t) && t.both_committed()),
    {
        match &self.turn {
            Some(t) => t.both_committed(),
            None => false,
        }
    }

    /// Our reveal message, once both commitments are in.
    pub fn reveal_msg(&mut self) -> (r: Result<WireMessage, SessionError>)
        requires
            old(self).wf(),
        ensures
            final(self).wf(),
            old(self).state().turn is None ==> r == Err::<WireMessage, SessionError>(
                SessionError::NoActiveTurn,
            ) && final(self).state() == old(self).state(),
            old(self).state().turn matches Some(t) && !t.both_committed() ==> r == Err::<
                WireMessage,
                SessionError,
            >(SessionError::Protocol(ProtocolError::RevealBeforeBothCommitted))
                && final(self).state() == old(self).state(),
            old(self).state().turn matches Some(t) && t.both_committed() ==> (r matches Ok(
                WireMessage::Reveal { action, nonce, board_hash },
            ) && action@ == usi_action(old(self).state().turn->0.local_action->0) && nonce@
                == hex_text((old(self).state().turn->0.local_nonce->0).0@) && board_hash@
                == hex_text(old(self).state().turn->0.current_pos_hash.0@) && final(self).state()
                == (ClientState {
                turn: Some(TurnState { local_revealed: true, ..old(self).state().turn->0 }),
                ..old(self).state()
            })),
    {
        match &mut self.turn {
            None => Err(SessionError::NoActiveTurn),
            Some(t) => match t.local_reveal() {
                Err(e) => Err(SessionError::Protocol(e)),
                Ok(r) => Ok(
                    WireMessage::Reveal {
                        action: r.action.to_usi(),
                        nonce: to_hex(&r.nonce.0),
                        board_hash: to_hex(&r.board_hash.0),
                    },
                ),
            },
        }
    }

    /// Our acknowledgement, once the other side's reveal is accepted.
    pub fn ack_msg(&mut self) -> (r: Result<WireMessage, SessionError>)
        requires
            old(self).wf(),
        ensures
            final(self).wf(),
            old(self).state().turn is None ==> r == Err::<WireMessage, SessionError>(
                SessionError::NoActiveTurn,
            ) && final(self).state() == old(self).state(),
            old(self).state().turn matches Some(t) && t.peer_action is None ==> r == Err::<
                WireMessage,
                SessionError,
            >(SessionError::Protocol(ProtocolError::AckBeforePeerReveal)) && final(self).state()
                == old(self).state(),
            old(self).state().turn matches Some(t) && t.peer_action is Some ==> r == Ok::<
                WireMessage,
                SessionError,
            >(WireMessage::Ack) && final(self).state() == (ClientState {
                turn: Some(TurnState { local_acked: true, ..old(self).state().turn->0 }),
                ..old(self).state()
            }),
    {
        match &mut self.turn {
            None => Err(SessionError::NoActiveTurn),
            Some(t) => match t.local_ack() {
                Err(e) => Err(SessionError::Protocol(e)),
                Ok(()) => Ok(WireMessage::Ack),
            },
        }
    }
}

/// The effect of a handshake message: refused after a handshake, on a version
/// mismatch, or on a bad hash; else the other side's hash is recorded.
pub open spec fn hello_step(
    o: ClientState,
    n: ClientState,
    r: Result<SessionEvent, SessionError>,
    rule_major: u32,
    rule_minor: u32,
    proto_ver: u32,
    auth: Seq<char>,
    side: Seq<char>,
) -> bool {
    if o.handshake_done {
        r == Err::<SessionEvent, SessionError>(SessionError::DuplicateHello) && n == o
    } else {
        match negotiation(
            spec_my_version(),
            PeerVersionResponse::Version(
                VersionTuple { rule: (rule_major, rule_minor), protocol: proto_ver },
            ),
        ) {
            Err(e) => r == Err::<SessionEvent, SessionError>(SessionError::VersionMismatch(e))
                && n == o,
            Ok(()) => match hex_field(auth) {
                None => r == Err::<SessionEvent, SessionError>(SessionError::BadHex) && n == o,
                Some(h) => r == Ok::<SessionEvent, SessionError>(
                    SessionEvent::HandshakeDone { peer_side: side_of_text(side) },
                ) && n == (ClientState { peer_auth_hash: Some(h), handshake_done: true, ..o }),
            },
        }
    }
}

/// The effect of the other side's commitment: recorded in the current turn,
/// or kept until our own commitment when there is no turn.
pub open spec fn commit_step(
    o: ClientState,
    n: ClientState,
    r: Result<SessionEvent, SessionError>,
    text: Seq<char>,
) -> bool {
    match hex_field(text) {
        None => r == Err::<SessionEvent, SessionError>(SessionError::BadHex) && n == o,
        Some(c) => match o.turn {
            Some(t) => if t.peer_commit is Some {
                r == Err::<SessionEvent, SessionError>(
                    SessionError::Protocol(ProtocolError::DuplicatePeerCommit),
                ) && n == o
            } else {
                &&& n.turn matches Some(t2) && t2.peer_commit matches Some(pc) && pc.0@ == c
                &&& n == (ClientState {
                    turn: Some(TurnState { peer_commit: n.turn->0.peer_commit, ..t }),
                    ..o
                })
                &&& r == Ok::<SessionEvent, SessionError>(
                    SessionEvent::PeerCommitted { both_committed: t.local_commit is Some },
                )
            },
            None => r == Ok::<SessionEvent, SessionError>(SessionEvent::PeerCommitBuffered) && n
                == (ClientState { pending_peer_commit: Some(c), ..o }),
        },
    }
}

/// The effect of the other side's reveal: it needs a turn, a USI action, two
/// hexadecimal fields, and then the turn's checks.
pub open spec fn reveal_step(
    o: ClientState,
    n: ClientState,
    r: Result<SessionEvent, SessionError>,
    action: Seq<char>,
    nonce: Seq<char>,
    board_hash: Seq<char>,
) -> bool {
    match o.turn {
        None => r == Err::<SessionEvent, SessionError>(SessionError::NoActiveTurn) && n == o,
        Some(t) => match parse_action(action) {
            None => r == Err::<SessionEvent, SessionError>(SessionError::InvalidUsi) && n == o,
            Some(a) => match (hex_field(nonce), hex_field(board_hash)) {
                (Some(nv), Some(bv)) => match peer_reveal_check(t, a, nv, bv) {
                    Err(e) => r == Err::<SessionEvent, SessionError>(SessionError::Protocol(e))
                        && n == o,
                    Ok(()) => r == Ok::<SessionEvent, SessionError>(
                        SessionEvent::PeerRevealed { both_revealed: t.local_revealed },
                    ) && n == (ClientState {
                        turn: Some(TurnState { peer_action: Some(a), ..t }),
                        ..o
                    }),
                },
                _ => r == Err::<SessionEvent, SessionError>(SessionError::BadHex) && n == o,
            },
        },
    }
}

/// The effect of the other side's acknowledgement: when ours is in too, the
/// turn is settled, its actions reported, and the turn closed.
pub open spec fn ack_step(o: ClientState, n: ClientState, r: Result<SessionEvent, SessionError>) -> bool {
    match o.turn {
        None => r == Err::<SessionEvent, SessionError>(SessionError::NoActiveTurn) && n == o,
        Some(t) => {
            let t2 = TurnState { peer_acked: true, ..t };
            match settled_actions(t2) {
                Some((s, g)) => r == Ok::<SessionEvent, SessionError>(
                    SessionEvent::TurnComplete { sente: s, gote: g },
                ) && n == (ClientState { turn: None, ..o }),
                None => r == Ok::<SessionEvent, SessionError>(SessionEvent::PeerAcked) && n == (
                ClientState { turn: Some(t2), ..o }),
            }
        },
    }
}

/// The effect of a reconnection request: accepted only with the hash recorded
/// at the handshake.
pub open spec fn reconnect_step(
    o: ClientState,
    n: ClientState,
    r: Result<SessionEvent, SessionError>,
    auth: Seq<char>,
    board_hash: Seq<char>,
) -> bool {
    &&& n == o
    &&& match hex_field(auth) {
        None => r == Err::<SessionEvent, SessionError>(SessionError::BadHex),
        Some(claimed) => if o.peer_auth_hash == Some(claimed) {
            match hex_field(board_hash) {
                None => r == Err::<SessionEvent, SessionError>(SessionError::BadHex),
                Some(b) => (r matches Ok(SessionEvent::PeerReconnectRequest { board_hash: h })
                    && h.0@ == b),
            }
        } else {
            r == Err::<SessionEvent, SessionError>(SessionError::IdentityMismatch)
        },
    }
}

/// The effect of the acceptance of our reconnection.
pub open spec fn reconnect_ack_step(
    o: ClientState,
    n: ClientState,
    r: Result<SessionEvent, SessionError>,
    board_hash: Seq<char>,
) -> bool {
    &&& n == o
    &&& match hex_field(board_hash) {
        None => r == Err::<SessionEvent, SessionError>(SessionError::BadHex),
        Some(b) => (r matches Ok(SessionEvent::ReconnectAck { resume_hash: h }) && h.0@ == b),
    }
}

/// The effect of a message from the other side.
pub open spec fn feed_step(
    o: ClientState,
    n: ClientState,
    r: Result<SessionEvent, SessionError>,
    msg: WireMessage,
) -> bool {
    match msg {
        WireMessage::Hello { rule_major, rule_minor, proto_ver, auth_hash, side } => hello_step(
            o,
            n,
            r,
            rule_major,
            rule_minor,
            proto_ver,
            auth_hash@,
            side@,
        ),
        WireMessage::Commit { commitment } => commit_step(o, n, r, commitment@),
        WireMessage::Reveal { action, nonce, board_hash } => reveal_step(
            o,
            n,
            r,
            action@,
            nonce@,
            board_hash@,
        ),
        WireMessage::Ack => ack_step(o, n, r),
        WireMessage::Reconnect { auth_hash, board_hash } => reconnect_step(
            o,
            n,
            r,
            auth_hash@,
            board_hash@,
        ),
        WireMessage::ReconnectAck { board_hash } => reconnect_ack_step(o, n, r, board_hash@),
        WireMessage::Abort { reason } => n == o && (r matches Ok(
            SessionEvent::PeerAborted { reason: x },
        ) && x@ == reason@),
    }
}

fn parse_bytes32(hex: &String) -> (r: Result<[u8; 32], SessionError>)
    ensures
        match hex_field(hex@) {
            Some(v) => r matches Ok(a) && a@ == v,
            None => r == Err::<[u8; 32], SessionError>(SessionError::BadHex),
        },
{
    match from_hex32(hex.as_str()) {
        Some(a) => Ok(a),
        None => Err(SessionError::BadHex),
    }
}

fn parse_side(s: &String) -> (r: Side)
    ensures
        r == side_of_text(s@),
{
    let v = crate::text::chars_of(s.as_str());
    let w = crate::text::chars_of("sente");
    if crate::text::chars_eq(&v, &w) {
        Side::Sente
    } else {
        Side::Gote
    }
}

impl ClientSession {
    /// Takes a message from the other side (see `feed_step`).
    pub fn feed(&mut self, msg: WireMessage) -> (r: Result<SessionEvent, SessionError>)
        requires
            old(self).wf(),
        ensures
            final(self).wf(),
            feed_step(old(self).state(), final(self).state(), r, msg),
            r matches Ok(SessionEvent::TurnComplete { sente, gote }) ==> sente.wf() && gote.wf(),
    {
        match msg {
            WireMessage::Hello { rule_major, rule_minor, proto_ver, auth_hash, side } => {
                if self.handshake_done {
                    return Err(SessionError::DuplicateHello);
                }
                let peer = VersionTuple { rule: (rule_major, rule_minor), protocol: proto_ver };
                let mine = my_version();
                match negotiate_versions(&mine, PeerVersionResponse::Version(peer)) {
                    Err(e) => {
                        return Err(SessionError::VersionMismatch(e));
                    },
                    Ok(_) => {},
                }
                let ah = match parse_bytes32(&auth_hash) {
                    Ok(a) => a,
                    Err(e) => {
                        return Err(e);
                    },
                };
                self.peer_auth_hash = Some(SecretHash(ah));
                self.handshake_done = true;
                Ok(SessionEvent::HandshakeDone { peer_side: parse_side(&side) })
            },
            WireMessage::Commit { commitment } => {
                let c = match parse_bytes32(&commitment) {
                    Ok(a) => Commitment(a),
                    Err(e) => {
                        return Err(e);
                    },
                };
                match &mut self.turn {
                    Some(t) => {
                        match t.receive_peer_commit(c) {
                            Err(e) => Err(SessionError::Protocol(e)),
                            Ok(()) => Ok(SessionEvent::PeerCommitted { both_committed: t.both_committed() }),
                        }
                    },
                    None => {
                        self.pending_peer_commit = Some(c);
                        Ok(SessionEvent::PeerCommitBuffered)
                    },
                }
            },
            WireMessage::Reveal { action, nonce, board_hash } => {
                match &mut self.turn {
                    None => Err(SessionError::NoActiveTurn),
                    Some(t) => {
                        let a = match Action::from_usi(action.as_str()) {
                            Some(a) => a,
                            None => {
                                return Err(SessionError::InvalidUsi);
                            },
                        };
                        let n = match parse_bytes32(&nonce) {
                            Ok(v) => Nonce(v),
                            Err(e) => {
                                return Err(e);
                            },
                        };
                        let bh = match parse_bytes32(&board_hash) {
                            Ok(v) => BoardHash(v),
                            Err(e) => {
                                return Err(e);
                            },
                        };
                        match t.receive_peer_reveal(a, n, bh) {
                            Err(e) => Err(SessionError::Protocol(e)),
                            Ok(()) => Ok(SessionEvent::PeerRevealed { both_revealed: t.both_revealed() }),
                        }
                    },
                }
            },
            WireMessage::Ack => {
                let done = match &mut self.turn {
                    None => {
                        return Err(SessionError::NoActiveTurn);
                    },
                    Some(t) => {
                        t.receive_peer_ack();
                        if t.is_complete() {
                            t.get_actions()
                        } else {
                            None
                        }
                    },
                };
                match done {
                    Some((sente, gote)) => {
                        self.turn = None;
                        Ok(SessionEvent::TurnComplete { sente, gote })
                    },
                    None => Ok(SessionEvent::PeerAcked),
                }
            },
            WireMessage::Reconnect { auth_hash, board_hash } => {
                let claimed = match parse_bytes32(&auth_hash) {
                    Ok(a) => a,
                    Err(e) => {
                        return Err(e);
                    },
                };
                match self.peer_auth_hash {
                    Some(stored) => {
                        if same_digest(&stored.0, &claimed) {
                            match parse_bytes32(&board_hash) {
                                Ok(v) => Ok(SessionEvent::PeerReconnectRequest { board_hash: BoardHash(v) }),
                                Err(e) => Err(e),
                            }
                        } else {
                            Err(SessionError::IdentityMismatch)
                        }
                    },
                    None => Err(SessionError::IdentityMismatch),
                }
            },
            WireMessage::ReconnectAck { board_hash } => {
                match parse_bytes32(&board_hash) {
                    Ok(v) => Ok(SessionEvent::ReconnectAck { resume_hash: BoardHash(v) }),
                    Err(e) => Err(e),
                }
            },
            WireMessage::Abort { reason } => Ok(SessionEvent::PeerAborted { reason }),
        }
    }
}

fn side_string(s: Side) -> (r: String)
    ensures
        r@ == side_text(s),
{
    match s {
        Side::Sente => crate::text::string_of_str("sente"),
        Side::Gote => crate::text::string_of_str("gote"),
    }
}

} // verus!
