//! The protocol session for a browser front end: positions and actions come
//! in as text, events and failures go out as JSON text. The messages of the
//! game channel are handed over as values; their JSON form is the caller's.
use vstd::prelude::*;
use vstd::utf8::encode_utf8;

use crate::board::Position;
use crate::browser::engine::failure_reply;
use crate::protocol::auth::secret_hash_of;
use crate::protocol::client::{
    feed_step, hex_field, side_text, ClientSession, ClientState, SessionError, SessionEvent,
};
use crate::protocol::commit::{commit_value, Nonce};
use crate::protocol::hash::{board_hash, position_hash, BoardHash};
use crate::protocol::negotiate::{my_version, spec_my_version};
use crate::protocol::report::{outcome_text, protocol_error_name, protocol_error_str, push_outcome};
use crate::protocol::session::TurnState;
use crate::protocol::wire::{from_hex32, hex_text, to_hex, WireError, WireMessage};
use crate::serialize::{parse_sfen, sfen_to_position};
use crate::text::{decimal, push_decimal, push_str, string_of_str};
use crate::types::{parse_action, usi_action, Action, Side};

verus! {

/// Calls `getrandom::getrandom` on 32 bytes: random bytes from the system's
/// source, or `None` when it fails. Nothing is promised of the bytes.
#[verifier::external_body]
pub(crate) fn os_random_nonce() -> (n: Option<Nonce>) {
    let mut bytes = [0u8; 32];
    match getrandom::getrandom(&mut bytes) {
        Ok(()) => Some(Nonce(bytes)),
        Err(_) => None,
    }
}

/// The hash of a position given as SFEN, in hexadecimal; empty when the text
/// is not SFEN.
pub fn sfen_hash(sfen: &str) -> (r: String)
    ensures
        match parse_sfen(sfen@) {
            Some(pos) => r@ == hex_text(position_hash(pos)),
            None => r@ == Seq::<char>::empty(),
        },
{
    match sfen_to_position(sfen) {
        Some(pos) => to_hex(&board_hash(&pos).0),
        None => String::new(),
    }
}

/// The versions of this build as JSON: rule, protocol and application.
pub open spec fn version_json(app_version: Seq<char>) -> Seq<char> {
    "{\"rule\":\""@ + decimal(spec_my_version().rule.0 as nat) + seq!['.'] + decimal(
        spec_my_version().rule.1 as nat,
    ) + "\",\"protocol\":"@ + decimal(spec_my_version().protocol as nat) + ",\"app\":\""@
        + app_version + "\"}"@
}

/// The versions of this build as JSON (see `version_json`); the application
/// version is the caller's.
pub fn version_tuple(app_version: &str) -> (r: String)
    ensures
        r@ == version_json(app_version@),
{
    let v = my_version();
    let mut s = String::new();
    push_str(&mut s, "{\"rule\":\"");
    push_decimal(&mut s, v.rule.0);
    push_str(&mut s, ".");
    push_decimal(&mut s, v.rule.1);
    push_str(&mut s, "\",\"protocol\":");
    push_decimal(&mut s, v.protocol);
    push_str(&mut s, ",\"app\":\"");
    push_str(&mut s, app_version);
    push_str(&mut s, "\"}");
    proof {
        reveal_strlit(".");
    }
    assert(s@ =~= version_json(app_version@));
    s
}

/// The name of a camp: `sente` or `gote`.
pub fn side_str(s: Side) -> (r: &'static str)
    ensures
        r@ == side_text(s),
{
    match s {
        Side::Sente => "sente",
        Side::Gote => "gote",
    }
}

// ---------------------------------------------------------------------------
// Events and failures as JSON
// ---------------------------------------------------------------------------

/// The code of a failed step: a short name, the name of the failure of the
/// turn, or `unexpected` for the failures that `feed` reports otherwise.
pub open spec fn error_code(e: SessionError) -> Seq<char> {
    match e {
        SessionError::DuplicateHello => "duplicate_hello"@,
        SessionError::HandshakeNotDone => "handshake_not_done"@,
        SessionError::NoActiveTurn => "no_active_turn"@,
        SessionError::Protocol(p) => protocol_error_name(p),
        SessionError::BadHex => "invalid_hex"@,
        SessionError::InvalidUsi => "invalid_action"@,
        SessionError::VersionMismatch(_) => "unexpected"@,
        SessionError::IdentityMismatch => "unexpected"@,
    }
}

/// The code of a failed step (see `error_code`).
pub fn session_error_code(e: &SessionError) -> (s: String)
    ensures
        s@ == error_code(*e),
{
    match e {
        SessionError::DuplicateHello => string_of_str("duplicate_hello"),
        SessionError::HandshakeNotDone => string_of_str("handshake_not_done"),
        SessionError::NoActiveTurn => string_of_str("no_active_turn"),
        SessionError::Protocol(p) => string_of_str(protocol_error_str(p)),
        SessionError::BadHex => string_of_str("invalid_hex"),
        SessionError::InvalidUsi => string_of_str("invalid_action"),
        SessionError::VersionMismatch(_) => string_of_str("unexpected"),
        SessionError::IdentityMismatch => string_of_str("unexpected"),
    }
}

/// `true` or `false`.
pub open spec fn flag_text(b: bool) -> Seq<char> {
    if b {
        "true"@
    } else {
        "false"@
    }
}

/// An event of the session as JSON.
pub open spec fn event_text(ev: SessionEvent) -> Seq<char> {
    match ev {
        SessionEvent::HandshakeDone { peer_side } => "{\"ok\":true,\"event\":\"handshake_done\",\"peer_side\":\""@
            + side_text(peer_side) + "\"}"@,
        SessionEvent::PeerCommitted { both_committed } => "{\"ok\":true,\"event\":\"peer_committed\",\"both_committed\":"@
            + flag_text(both_committed) + seq!['}'],
        SessionEvent::PeerCommitBuffered => "{\"ok\":true,\"event\":\"peer_commit_buffered\"}"@,
        SessionEvent::PeerRevealed { both_revealed } => "{\"ok\":true,\"event\":\"peer_revealed\",\"both_revealed\":"@
            + flag_text(both_revealed) + seq!['}'],
        SessionEvent::PeerAcked => "{\"ok\":true,\"event\":\"peer_acked\"}"@,
        SessionEvent::TurnComplete { sente, gote } => "{\"ok\":true,\"event\":\"turn_complete\",\"sente_usi\":\""@
            + usi_action(sente) + "\",\"gote_usi\":\""@ + usi_action(gote) + "\"}"@,
        SessionEvent::PeerReconnectRequest { board_hash } => "{\"ok\":true,\"event\":\"peer_reconnect_request\",\"board_hash\":\""@
            + hex_text(board_hash.0@) + "\"}"@,
        SessionEvent::ReconnectAck { resume_hash } => "{\"ok\":true,\"event\":\"reconnect_ack\",\"resume_hash\":\""@
            + hex_text(resume_hash.0@) + "\"}"@,
        SessionEvent::PeerAborted { reason } => "{\"ok\":true,\"event\":\"peer_aborted\",\"reason\":\""@
            + reason@ + "\"}"@,
    }
}

fn push_flag(s: &mut String, b: bool)
    ensures
        final(s)@ == old(s)@ + flag_text(b),
{
    if b {
        push_str(s, "true");
    } else {
        push_str(s, "false");
    }
}

/// An event of the session as JSON (see `event_text`).
pub fn event_json(ev: &SessionEvent) -> (r: String)
    requires
        ev matches SessionEvent::TurnComplete { sente, gote } ==> sente.wf() && gote.wf(),
    ensures
        r@ == event_text(*ev),
{
    let mut s = String::new();
    match ev {
        SessionEvent::HandshakeDone { peer_side } => {
            push_str(&mut s, "{\"ok\":true,\"event\":\"handshake_done\",\"peer_side\":\"");
            push_str(&mut s, side_str(*peer_side));
            push_str(&mut s, "\"}");
        },
        SessionEvent::PeerCommitted { both_committed } => {
            push_str(&mut s, "{\"ok\":true,\"event\":\"peer_committed\",\"both_committed\":");
            push_flag(&mut s, *both_committed);
            push_str(&mut s, "}");
            proof {
                reveal_strlit("}");
            }
        },
        SessionEvent::PeerCommitBuffered => {
            push_str(&mut s, "{\"ok\":true,\"event\":\"peer_commit_buffered\"}");
        },
        SessionEvent::PeerRevealed { both_revealed } => {
            push_str(&mut s, "{\"ok\":true,\"event\":\"peer_revealed\",\"both_revealed\":");
            push_flag(&mut s, *both_revealed);
            push_str(&mut s, "}");
            proof {
                reveal_strlit("}");
            }
        },
        SessionEvent::PeerAcked => {
            push_str(&mut s, "{\"ok\":true,\"event\":\"peer_acked\"}");
        },
        SessionEvent::TurnComplete { sente, gote } => {
            push_str(&mut s, "{\"ok\":true,\"event\":\"turn_complete\",\"sente_usi\":\"");
            let su = sente.to_usi();
            push_str(&mut s, su.as_str());
            push_str(&mut s, "\",\"gote_usi\":\"");
            let gu = gote.to_usi();
            push_str(&mut s, gu.as_str());
            push_str(&mut s, "\"}");
        },
        SessionEvent::PeerReconnectRequest { board_hash } => {
            push_str(&mut s, "{\"ok\":true,\"event\":\"peer_reconnect_request\",\"board_hash\":\"");
            let h = to_hex(&board_hash.0);
            push_str(&mut s, h.as_str());
            push_str(&mut s, "\"}");
        },
        SessionEvent::ReconnectAck { resume_hash } => {
            push_str(&mut s, "{\"ok\":true,\"event\":\"reconnect_ack\",\"resume_hash\":\"");
            let h = to_hex(&resume_hash.0);
            push_str(&mut s, h.as_str());
            push_str(&mut s, "\"}");
        },
        SessionEvent::PeerAborted { reason } => {
            push_str(&mut s, "{\"ok\":true,\"event\":\"peer_aborted\",\"reason\":\"");
            push_str(&mut s, reason.as_str());
            push_str(&mut s, "\"}");
        },
    }
    assert(s@ =~= event_text(*ev));
    s
}

/// The reply to what the session made of a message: the event; for
/// mismatching versions, the failure with the negotiation's text as detail;
/// for an identity that does not match on reconnection, a rejection event
/// (so that the page can still send its abort); otherwise the failure code.
pub open spec fn feed_reply(r: Result<SessionEvent, SessionError>) -> Seq<char> {
    match r {
        Ok(ev) => event_text(ev),
        Err(SessionError::VersionMismatch(o)) => "{\"ok\":false,\"error\":\"version_mismatch\",\"detail\":\""@
            + outcome_text(o) + "\"}"@,
        Err(SessionError::IdentityMismatch) => "{\"ok\":true,\"event\":\"peer_reconnect_rejected\",\"reason\":\"auth_mismatch\"}"@,
        Err(e) => failure_reply(error_code(e)),
    }
}

/// The session took message `w`, moving from `o` to `n`, and replied `r`.
pub open spec fn fed(o: ClientState, n: ClientState, w: WireMessage, r: Seq<char>) -> bool {
    exists|res: Result<SessionEvent, SessionError>|
        #[trigger] feed_step(o, n, res, w) && r == feed_reply(res)
}

fn failure_code(code: &str) -> (r: String)
    ensures
        r@ == failure_reply(code@),
{
    let mut out = String::new();
    push_str(&mut out, "{\"ok\":false,\"error\":\"");
    push_str(&mut out, code);
    push_str(&mut out, "\"}");
    assert(out@ =~= failure_reply(code@));
    out
}

fn reply_of(r: &Result<SessionEvent, SessionError>) -> (s: String)
    requires
        r matches Ok(SessionEvent::TurnComplete { sente, gote }) ==> sente.wf() && gote.wf(),
    ensures
        s@ == feed_reply(*r),
{
    match r {
        Ok(ev) => event_json(ev),
        Err(SessionError::VersionMismatch(o)) => {
            let mut s = String::new();
            push_str(&mut s, "{\"ok\":false,\"error\":\"version_mismatch\",\"detail\":\"");
            push_outcome(&mut s, o);
            push_str(&mut s, "\"}");
            assert(s@ =~= feed_reply(*r));
            s
        },
        Err(SessionError::IdentityMismatch) => string_of_str(
            "{\"ok\":true,\"event\":\"peer_reconnect_rejected\",\"reason\":\"auth_mismatch\"}",
        ),
        Err(e) => {
            let code = session_error_code(e);
            failure_code(code.as_str())
        },
    }
}

// ---------------------------------------------------------------------------
// The session
// ---------------------------------------------------------------------------

/// The camp named `sente`, or else gote.
pub open spec fn camp_named(s: Seq<char>) -> Side {
    if s == "sente"@ {
        Side::Sente
    } else {
        Side::Gote
    }
}

/// The protocol session of one camp, driven by a page that sends and
/// receives the messages.
pub struct ProtocolSession {
    inner: ClientSession,
}

impl ProtocolSession {
    /// The state of the session.
    pub closed spec fn state(&self) -> ClientState {
        self.inner.state()
    }

    /// The session is well formed.
    pub closed spec fn wf(&self) -> bool {
        self.inner.wf()
    }

    /// A session for the camp named `side`, holding the hash of the UTF-8
    /// bytes of the shared secret.
    pub fn new(side: &str, secret: &str) -> (s: Self)
        ensures
            s.wf(),
            s.state() == (ClientState {
                side: camp_named(side@),
                my_auth_hash: secret_hash_of(encode_utf8(secret@)),
                peer_auth_hash: None,
                handshake_done: false,
                turn: None,
                pending_peer_commit: None,
            }),
    {
        let v = crate::text::chars_of(side);
        let w = crate::text::chars_of("sente");
        let s = if crate::text::chars_eq(&v, &w) {
            Side::Sente
        } else {
            Side::Gote
        };
        ProtocolSession { inner: ClientSession::new(s, secret.as_bytes()) }
    }

    /// The handshake message: versions, secret hash and camp.
    pub fn hello_msg(&self) -> (m: WireMessage)
        ensures
            m matches WireMessage::Hello { rule_major, rule_minor, proto_ver, auth_hash, side }
                && rule_major == spec_my_version().rule.0 && rule_minor == spec_my_version().rule.1
                && proto_ver == spec_my_version().protocol && auth_hash@ == hex_text(
                self.state().my_auth_hash,
            ) && side@ == side_text(self.state().side),
    {
        self.inner.hello_msg()
    }

    /// The reconnection message for the board hash given in hexadecimal; the
    /// failure reply `invalid_board_hash` when it is not 32 bytes.
    pub fn reconnect_msg(&self, board_hash_hex: &str) -> (r: Result<WireMessage, String>)
        ensures
            match hex_field(board_hash_hex@) {
                Some(b) => r matches Ok(WireMessage::Reconnect { auth_hash, board_hash })
                    && auth_hash@ == hex_text(self.state().my_auth_hash) && board_hash@
                    == hex_text(b),
                None => r matches Err(e) && e@ == failure_reply("invalid_board_hash"@),
            },
    {
        match from_hex32(board_hash_hex) {
            Some(b) => Ok(self.inner.reconnect_msg(BoardHash(b))),
            None => Err(failure_code("invalid_board_hash")),
        }
    }

    /// The other camp's secret hash in hexadecimal, empty before the handshake.
    pub fn peer_auth_hash(&self) -> (s: String)
        ensures
            match self.state().peer_auth_hash {
                Some(h) => s@ == hex_text(h),
                None => s@ == Seq::<char>::empty(),
            },
    {
        match self.inner.peer_auth_hash() {
            Some(h) => to_hex(&h.0),
            None => String::new(),
        }
    }

    /// Fixes our action on the position given as SFEN, with fresh random
    /// bytes: the commitment message to send and whether both commitments are
    /// in. Fails, leaving the session as it was, with `invalid_usi`,
    /// `invalid_sfen`, `random_failed` when the system gives no random bytes,
    /// or the code of the session's failure.
    pub fn commit_move(&mut self, sfen: &str, usi: &str) -> (r: Result<(WireMessage, bool), String>)
        requires
            old(self).wf(),
        ensures
            final(self).wf(),
            match (parse_action(usi@), parse_sfen(sfen@)) {
                (None, _) => r matches Err(e) && e@ == failure_reply("invalid_usi"@)
                    && final(self).state() == old(self).state(),
                (Some(_), None) => r matches Err(e) && e@ == failure_reply("invalid_sfen"@)
                    && final(self).state() == old(self).state(),
                (Some(a), Some(pos)) => match r {
                    Err(e) => final(self).state() == old(self).state() && (e@ == failure_reply(
                        "random_failed"@,
                    ) || (!old(self).state().handshake_done && e@ == failure_reply(
                        "handshake_not_done"@,
                    ))),
                    Ok((m, both)) => old(self).state().handshake_done && committed(
                        old(self).state(),
                        final(self).state(),
                        a,
                        pos,
                        m,
                        both,
                    ),
                },
            },
    {
        let action = match Action::from_usi(usi) {
            Some(a) => a,
            None => {
                return Err(failure_code("invalid_usi"));
            },
        };
        let pos = match sfen_to_position(sfen) {
            Some(p) => p,
            None => {
                return Err(failure_code("invalid_sfen"));
            },
        };
        let bh = board_hash(&pos);
        let nonce = match os_random_nonce() {
            Some(n) => n,
            None => {
                return Err(failure_code("random_failed"));
            },
        };
        match self.inner.commit(bh, action, nonce) {
            Ok(msg) => {
                let both = self.inner.both_committed();
                Ok((msg, both))
            },
            Err(e) => {
                let code = session_error_code(&e);
                Err(failure_code(code.as_str()))
            },
        }
    }

    /// Our reveal message once both commitments are in; otherwise the failure
    /// reply, the session unchanged.
    pub fn reveal_msg(&mut self) -> (r: Result<WireMessage, String>)
        requires
            old(self).wf(),
        ensures
            final(self).wf(),
            old(self).state().turn is None ==> (r matches Err(e) && e@ == failure_reply(
                "no_active_turn"@,
            ) && final(self).state() == old(self).state()),
            old(self).state().turn matches Some(t) && !t.both_committed() ==> (r matches Err(e)
                && e@ == failure_reply("RevealBeforeBothCommitted"@) && final(self).state()
                == old(self).state()),
            old(self).state().turn matches Some(t) && t.both_committed() ==> (r matches Ok(
                WireMessage::Reveal { action, nonce, board_hash },
            ) && action@ == usi_action(old(self).state().turn->0.local_action->0) && nonce@
                == hex_text((old(self).state().turn->0.local_nonce->0).0@) && board_hash@
                == hex_text(old(self).state().turn->0.current_pos_hash.0@) && final(self).state()
                == (ClientState {
                turn: Some(TurnState { local_revealed: true, ..old(self).state().turn->0 }),
                ..old(self).state()
            })),
    {
        match self.inner.reveal_msg() {
            Ok(m) => Ok(m),
            Err(e) => {
                let code = session_error_code(&e);
                Err(failure_code(code.as_str()))
            },
        }
    }

    /// Our acknowledgement once the other camp's reveal is accepted;
    /// otherwise the failure reply, the session unchanged.
    pub fn ack_msg(&mut self) -> (r: Result<WireMessage, String>)
        requires
            old(self).wf(),
        ensures
            final(self).wf(),
            old(self).state().turn is None ==> (r matches Err(e) && e@ == failure_reply(
                "no_active_turn"@,
            ) && final(self).state() == old(self).state()),
            old(self).state().turn matches Some(t) && t.peer_action is None ==> (r matches Err(e)
                && e@ == failure_reply("AckBeforePeerReveal"@) && final(self).state() == old(
                self,
            ).state()),
            old(self).state().turn matches Some(t) && t.peer_action is Some ==> r == Ok::<
                WireMessage,
                String,
            >(WireMessage::Ack) && final(self).state() == (ClientState {
                turn: Some(TurnState { local_acked: true, ..old(self).state().turn->0 }),
                ..old(self).state()
            }),
    {
        match self.inner.ack_msg() {
            Ok(m) => Ok(m),
            Err(e) => {
                let code = session_error_code(&e);
                Err(failure_code(code.as_str()))
            },
        }
    }

    /// Takes a message of the other camp as the page decoded it, and replies
    /// with the event or the failure (see `feed_reply`). A text that is not
    /// JSON, or of an unknown type, is answered without touching the session.
    pub fn feed(&mut self, decoded: Result<WireMessage, WireError>) -> (r: String)
        requires
            old(self).wf(),
        ensures
            final(self).wf(),
            match decoded {
                Err(WireError::InvalidJson) => r@ == failure_reply("invalid_json"@)
                    && final(self).state() == old(self).state(),
                Err(WireError::UnknownType) => r@ == failure_reply("unknown_message_type"@)
                    && final(self).state() == old(self).state(),
                Ok(w) => fed(old(self).state(), final(self).state(), w, r@),
            },
    {
        let wire = match decoded {
            Ok(w) => w,
            Err(WireError::InvalidJson) => {
                return failure_code("invalid_json");
            },
            Err(WireError::UnknownType) => {
                return failure_code("unknown_message_type");
            },
        };
        let ghost w = wire;
        let ghost o = self.state();
        let res = self.inner.feed(wire);
        let s = reply_of(&res);
        assert(feed_step(o, self.state(), res, w));
        s
    }
}

/// `m` and `both` are what a commitment of action `a` on `pos` gives: the
/// turn opens on the hash of `pos` with `a` and the fresh nonce, a
/// commitment of the other camp that came early is applied, the message
/// carries the commitment in hexadecimal, and `both` tells whether both
/// commitments are in.
pub open spec fn committed(
    o: ClientState,
    n: ClientState,
    a: Action,
    pos: Position,
    m: WireMessage,
    both: bool,
) -> bool {
    &&& n.turn is Some
    &&& n.turn->0.local_side == o.side
    &&& n.turn->0.current_pos_hash.0@ == position_hash(pos)
    &&& n.turn->0.local_action == Some(a)
    &&& n.turn->0.local_nonce is Some
    &&& !n.turn->0.local_revealed && !n.turn->0.local_acked
    &&& n.turn->0.peer_action is None && !n.turn->0.peer_acked
    &&& m matches WireMessage::Commit { commitment } && commitment@ == hex_text(
        commit_value(a, (n.turn->0.local_nonce->0).0@),
    )
    &&& both == n.turn->0.both_committed()
    &&& match o.pending_peer_commit {
        Some(pc) => n.turn->0.peer_commit matches Some(c) && c.0@ == pc,
        None => n.turn->0.peer_commit is None,
    }
    &&& n.pending_peer_commit is None
    &&& n.side == o.side && n.my_auth_hash == o.my_auth_hash && n.peer_auth_hash
        == o.peer_auth_hash && n.handshake_done == o.handshake_done
}

} // verus!
