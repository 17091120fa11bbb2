use fukanzen_shogi::board::Position;
use fukanzen_shogi::browser::session::{
    event_json, session_error_code, sfen_hash, side_str, version_tuple, ProtocolSession,
};
use fukanzen_shogi::protocol::client::{SessionError, SessionEvent};
use fukanzen_shogi::protocol::hash::{board_hash, BoardHash};
use fukanzen_shogi::protocol::negotiate::{NegotiationOutcome, VersionTuple};
use fukanzen_shogi::protocol::report::{describe_outcome, describe_session_error};
use fukanzen_shogi::protocol::session::ProtocolError;
use fukanzen_shogi::protocol::wire::{to_hex, WireError, WireMessage};
use fukanzen_shogi::types::{Action, Side};

const START: &str = "lnsgkgsnl/1r5b1/ppppppppp/9/9/9/PPPPPPPPP/1B5R1/LNSGKGSNL b - 1";

#[test]
fn sfen_hash_is_board_hash_in_hex() {
    let h = sfen_hash(START);
    assert_eq!(h.len(), 64);
    assert_eq!(h, to_hex(&board_hash(&Position::initial()).0));
    assert_eq!(sfen_hash("not sfen"), "");
}

#[test]
fn version_tuple_json() {
    assert_eq!(version_tuple("0.8.0"), r#"{"rule":"0.7","protocol":3,"app":"0.8.0"}"#);
}

#[test]
fn side_names() {
    assert_eq!(side_str(Side::Sente), "sente");
    assert_eq!(side_str(Side::Gote), "gote");
}

#[test]
fn events_as_json() {
    assert_eq!(
        event_json(&SessionEvent::HandshakeDone { peer_side: Side::Gote }),
        r#"{"ok":true,"event":"handshake_done","peer_side":"gote"}"#
    );
    assert_eq!(
        event_json(&SessionEvent::PeerCommitted { both_committed: true }),
        r#"{"ok":true,"event":"peer_committed","both_committed":true}"#
    );
    assert_eq!(
        event_json(&SessionEvent::PeerRevealed { both_revealed: false }),
        r#"{"ok":true,"event":"peer_revealed","both_revealed":false}"#
    );
    assert_eq!(
        event_json(&SessionEvent::TurnComplete {
            sente: Action::from_usi("7g7f").unwrap(),
            gote: Action::from_usi("P*5e").unwrap(),
        }),
        r#"{"ok":true,"event":"turn_complete","sente_usi":"7g7f","gote_usi":"P*5e"}"#
    );
    assert_eq!(
        event_json(&SessionEvent::PeerReconnectRequest { board_hash: BoardHash([0xab; 32]) }),
        format!(r#"{{"ok":true,"event":"peer_reconnect_request","board_hash":"{}"}}"#, "ab".repeat(32))
    );
    assert_eq!(
        event_json(&SessionEvent::PeerAborted { reason: "bye".to_string() }),
        r#"{"ok":true,"event":"peer_aborted","reason":"bye"}"#
    );
}

#[test]
fn error_codes() {
    assert_eq!(session_error_code(&SessionError::DuplicateHello), "duplicate_hello");
    assert_eq!(session_error_code(&SessionError::BadHex), "invalid_hex");
    assert_eq!(session_error_code(&SessionError::InvalidUsi), "invalid_action");
    assert_eq!(
        session_error_code(&SessionError::Protocol(ProtocolError::CommitMismatch)),
        "CommitMismatch"
    );
    assert_eq!(session_error_code(&SessionError::IdentityMismatch), "unexpected");
}

#[test]
fn debug_texts_of_failures() {
    let o = NegotiationOutcome::Incompatible {
        mine: VersionTuple { rule: (0, 7), protocol: 3 },
        theirs: VersionTuple { rule: (0, 6), protocol: 3 },
        rule_mismatch: true,
        protocol_mismatch: false,
    };
    let expected = "Incompatible { mine: VersionTuple { rule: (0, 7), protocol: 3 }, theirs: VersionTuple { rule: (0, 6), protocol: 3 }, rule_mismatch: true, protocol_mismatch: false }";
    assert_eq!(describe_outcome(&o), expected);
    assert_eq!(format!("{:?}", o), expected);
    let e = SessionError::Protocol(ProtocolError::AckBeforePeerReveal);
    assert_eq!(describe_session_error(&e), "Protocol(AckBeforePeerReveal)");
    assert_eq!(describe_session_error(&e), format!("{:?}", e));
}

fn message(r: Result<WireMessage, String>) -> WireMessage {
    r.expect("a message")
}

#[test]
fn two_sessions_play_a_turn() {
    let mut a = ProtocolSession::new("sente", "secret");
    let mut b = ProtocolSession::new("gote", "secret");
    assert_eq!(
        b.feed(Ok(a.hello_msg())),
        r#"{"ok":true,"event":"handshake_done","peer_side":"sente"}"#
    );
    assert_eq!(
        a.feed(Ok(b.hello_msg())),
        r#"{"ok":true,"event":"handshake_done","peer_side":"gote"}"#
    );
    assert_eq!(a.peer_auth_hash().len(), 64);

    let (ca, both_a) = a.commit_move(START, "7g7f").expect("commit");
    assert!(!both_a);
    assert!(matches!(ca, WireMessage::Commit { .. }));
    assert_eq!(
        b.feed(Ok(ca)),
        r#"{"ok":true,"event":"peer_commit_buffered"}"#
    );
    let (cb, both_b) = b.commit_move(START, "3c3d").expect("commit");
    assert!(both_b);
    assert_eq!(
        a.feed(Ok(cb)),
        r#"{"ok":true,"event":"peer_committed","both_committed":true}"#
    );

    let ra = message(a.reveal_msg());
    let rb = message(b.reveal_msg());
    assert_eq!(b.feed(Ok(ra)), r#"{"ok":true,"event":"peer_revealed","both_revealed":true}"#);
    assert_eq!(a.feed(Ok(rb)), r#"{"ok":true,"event":"peer_revealed","both_revealed":true}"#);

    let ka = message(a.ack_msg());
    let kb = message(b.ack_msg());
    assert_eq!(
        b.feed(Ok(ka)),
        r#"{"ok":true,"event":"turn_complete","sente_usi":"7g7f","gote_usi":"3c3d"}"#
    );
    assert_eq!(
        a.feed(Ok(kb)),
        r#"{"ok":true,"event":"turn_complete","sente_usi":"7g7f","gote_usi":"3c3d"}"#
    );
}

#[test]
fn session_failures_as_json() {
    let mut a = ProtocolSession::new("sente", "secret");
    assert_eq!(a.commit_move(START, "7g7f").unwrap_err(), r#"{"ok":false,"error":"handshake_not_done"}"#);
    assert_eq!(a.commit_move(START, "zz").unwrap_err(), r#"{"ok":false,"error":"invalid_usi"}"#);
    assert_eq!(a.commit_move("bad", "7g7f").unwrap_err(), r#"{"ok":false,"error":"invalid_sfen"}"#);
    assert_eq!(a.reveal_msg().unwrap_err(), r#"{"ok":false,"error":"no_active_turn"}"#);
    assert_eq!(a.ack_msg().unwrap_err(), r#"{"ok":false,"error":"no_active_turn"}"#);
    assert_eq!(a.feed(Err(WireError::InvalidJson)), r#"{"ok":false,"error":"invalid_json"}"#);
    assert_eq!(a.feed(Err(WireError::UnknownType)), r#"{"ok":false,"error":"unknown_message_type"}"#);
    assert_eq!(a.feed(Ok(WireMessage::Ack)), r#"{"ok":false,"error":"no_active_turn"}"#);
    assert_eq!(a.reconnect_msg("zz").unwrap_err(), r#"{"ok":false,"error":"invalid_board_hash"}"#);
    assert_eq!(a.peer_auth_hash(), "");
}

#[test]
fn version_mismatch_carries_detail() {
    let mut a = ProtocolSession::new("sente", "secret");
    let hello = WireMessage::Hello {
        rule_major: 0,
        rule_minor: 6,
        proto_ver: 3,
        auth_hash: "00".repeat(32),
        side: "gote".to_string(),
    };
    assert_eq!(
        a.feed(Ok(hello)),
        r#"{"ok":false,"error":"version_mismatch","detail":"Incompatible { mine: VersionTuple { rule: (0, 7), protocol: 3 }, theirs: VersionTuple { rule: (0, 6), protocol: 3 }, rule_mismatch: true, protocol_mismatch: false }"}"#
    );
}

#[test]
fn reconnect_with_another_secret_is_rejected() {
    let mut a = ProtocolSession::new("sente", "secret");
    let b = ProtocolSession::new("gote", "secret");
    a.feed(Ok(b.hello_msg()));
    let intruder = ProtocolSession::new("gote", "other");
    let h = sfen_hash(START);
    let msg = message(intruder.reconnect_msg(&h));
    assert_eq!(
        a.feed(Ok(msg)),
        r#"{"ok":true,"event":"peer_reconnect_rejected","reason":"auth_mismatch"}"#
    );
    let ok = message(b.reconnect_msg(&h));
    assert_eq!(
        a.feed(Ok(ok)),
        format!(r#"{{"ok":true,"event":"peer_reconnect_request","board_hash":"{}"}}"#, h)
    );
}
