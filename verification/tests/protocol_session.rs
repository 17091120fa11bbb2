use fukanzen_shogi::archive::{Outcome, ResultKind};
use fukanzen_shogi::board::Position;
use fukanzen_shogi::kifu::Kifu;
use fukanzen_shogi::protocol::client::{ClientSession, SessionError, SessionEvent};
use fukanzen_shogi::protocol::commit::Nonce;
use fukanzen_shogi::protocol::hash::{board_hash, BoardHash};
use fukanzen_shogi::protocol::negotiate::{
    my_version, negotiate_versions, NegotiationOutcome, PeerVersionResponse, VersionTuple,
    PROTOCOL_VERSION,
};
use fukanzen_shogi::protocol::recovery::RecoverySession;
use fukanzen_shogi::protocol::result::game_result;
use fukanzen_shogi::protocol::session::ProtocolError;
use fukanzen_shogi::protocol::wire::{from_hex32, to_hex, WireMessage};
use fukanzen_shogi::resolve::resolve;
use fukanzen_shogi::serialize::{sfen_to_position, INITIAL_SFEN};
use fukanzen_shogi::terminate::{evaluate, terminal_to_result};
use fukanzen_shogi::types::{Action, Ply, Side, Square};
use fukanzen_shogi::RULE_VERSION;

fn mv(s: &str) -> Action {
    Action::from_usi(s).unwrap()
}

// ---- negotiate ----

fn v(rule_major: u32, rule_minor: u32, protocol: u32) -> VersionTuple {
    VersionTuple { rule: (rule_major, rule_minor), protocol }
}

#[test]
fn compatible_same_tuple() {
    let mine = v(0, 5, 1);
    let result = negotiate_versions(&mine, PeerVersionResponse::Version(mine.clone()));
    assert!(result.is_ok(), "同一タプルは互換のはず");
}

#[test]
fn incompatible_rule_only() {
    let mine = v(0, 5, 1);
    let theirs = v(0, 6, 1);
    match negotiate_versions(&mine, PeerVersionResponse::Version(theirs)) {
        Err(NegotiationOutcome::Incompatible { rule_mismatch, protocol_mismatch, .. }) => {
            assert!(rule_mismatch, "ルール版不一致のはず");
            assert!(!protocol_mismatch, "プロトコル版は一致のはず");
        }
        other => panic!("Incompatible を期待したが {:?}", other),
    }
}

#[test]
fn incompatible_protocol_only() {
    let mine = v(0, 5, 1);
    let theirs = v(0, 5, 2);
    match negotiate_versions(&mine, PeerVersionResponse::Version(theirs)) {
        Err(NegotiationOutcome::Incompatible { rule_mismatch, protocol_mismatch, .. }) => {
            assert!(!rule_mismatch, "ルール版は一致のはず");
            assert!(protocol_mismatch, "プロトコル版不一致のはず");
        }
        other => panic!("Incompatible を期待したが {:?}", other),
    }
}

#[test]
fn incompatible_both() {
    let mine = v(0, 5, 1);
    let theirs = v(0, 6, 2);
    match negotiate_versions(&mine, PeerVersionResponse::Version(theirs)) {
        Err(NegotiationOutcome::Incompatible { rule_mismatch, protocol_mismatch, .. }) => {
            assert!(rule_mismatch, "ルール版不一致のはず");
            assert!(protocol_mismatch, "プロトコル版不一致のはず");
        }
        other => panic!("Incompatible を期待したが {:?}", other),
    }
}

#[test]
fn incompatible_contains_both_versions() {
    let mine = v(0, 5, 1);
    let theirs = v(0, 6, 2);
    match negotiate_versions(&mine, PeerVersionResponse::Version(theirs.clone())) {
        Err(NegotiationOutcome::Incompatible { mine: m, theirs: t, .. }) => {
            assert_eq!(m, mine, "自分の版が含まれるはず");
            assert_eq!(t, theirs, "相手の版が含まれるはず");
        }
        other => panic!("Incompatible を期待したが {:?}", other),
    }
}

#[test]
fn invalid_response() {
    let mine = v(0, 5, 1);
    let result = negotiate_versions(&mine, PeerVersionResponse::Invalid);
    assert!(matches!(result, Err(NegotiationOutcome::InvalidResponse)));
}

#[test]
fn timeout_response() {
    let mine = v(0, 5, 1);
    let result = negotiate_versions(&mine, PeerVersionResponse::Timeout);
    assert!(matches!(result, Err(NegotiationOutcome::Timeout)));
}

#[test]
fn version_cleared_only_from_compatible() {
    let mine = v(0, 5, 1);
    let cleared = negotiate_versions(&mine, PeerVersionResponse::Version(mine.clone()));
    assert!(cleared.is_ok(), "互換時は Ok(VersionCleared) のはず");
    assert!(negotiate_versions(&mine, PeerVersionResponse::Version(v(0, 6, 2))).is_err());
    assert!(negotiate_versions(&mine, PeerVersionResponse::Invalid).is_err());
    assert!(negotiate_versions(&mine, PeerVersionResponse::Timeout).is_err());
}

#[test]
fn my_version_is_crate_versions() {
    assert_eq!(my_version(), VersionTuple { rule: RULE_VERSION, protocol: PROTOCOL_VERSION });
}

// ---- client ----

fn initial_hash() -> BoardHash {
    board_hash(&Position::initial())
}

fn pair() -> (ClientSession, ClientSession) {
    let sente = ClientSession::new(Side::Sente, b"shared_secret");
    let gote = ClientSession::new(Side::Gote, b"shared_secret");
    (sente, gote)
}

fn handshake(sente: &mut ClientSession, gote: &mut ClientSession) {
    let hello_s = sente.hello_msg();
    let hello_g = gote.hello_msg();
    let ev_g = gote.feed(hello_s).unwrap();
    let ev_s = sente.feed(hello_g).unwrap();
    assert_eq!(ev_g, SessionEvent::HandshakeDone { peer_side: Side::Sente });
    assert_eq!(ev_s, SessionEvent::HandshakeDone { peer_side: Side::Gote });
}

#[test]
fn full_turn_completes_for_both_sides() {
    let (mut sente, mut gote) = pair();
    handshake(&mut sente, &mut gote);
    let bh = initial_hash();
    let commit_s = sente.commit(bh, mv("7g7f"), Nonce([1u8; 32])).unwrap();
    let commit_g = gote.commit(bh, mv("3c3d"), Nonce([2u8; 32])).unwrap();
    let ev_g = gote.feed(commit_s).unwrap();
    let ev_s = sente.feed(commit_g).unwrap();
    assert_eq!(ev_g, SessionEvent::PeerCommitted { both_committed: true });
    assert_eq!(ev_s, SessionEvent::PeerCommitted { both_committed: true });
    assert!(sente.both_committed());
    assert!(gote.both_committed());
    let reveal_s = sente.reveal_msg().unwrap();
    let reveal_g = gote.reveal_msg().unwrap();
    let ev_g = gote.feed(reveal_s).unwrap();
    let ev_s = sente.feed(reveal_g).unwrap();
    assert_eq!(ev_g, SessionEvent::PeerRevealed { both_revealed: true });
    assert_eq!(ev_s, SessionEvent::PeerRevealed { both_revealed: true });
    let ack_s = sente.ack_msg().unwrap();
    let ack_g = gote.ack_msg().unwrap();
    let ev_g = gote.feed(ack_s).unwrap();
    let ev_s = sente.feed(ack_g).unwrap();
    assert_eq!(ev_g, SessionEvent::TurnComplete { sente: mv("7g7f"), gote: mv("3c3d") });
    assert_eq!(ev_s, SessionEvent::TurnComplete { sente: mv("7g7f"), gote: mv("3c3d") });
}

#[test]
fn peer_commit_arriving_early_is_buffered_then_applied() {
    let (mut sente, mut gote) = pair();
    handshake(&mut sente, &mut gote);
    let bh = initial_hash();
    let commit_s = sente.commit(bh, mv("7g7f"), Nonce([1u8; 32])).unwrap();
    let ev = gote.feed(commit_s).unwrap();
    assert_eq!(ev, SessionEvent::PeerCommitBuffered);
    assert!(!gote.both_committed());
    let _commit_g = gote.commit(bh, mv("3c3d"), Nonce([2u8; 32])).unwrap();
    assert!(gote.both_committed());
}

#[test]
fn version_mismatch_rejected() {
    let mut gote = ClientSession::new(Side::Gote, b"shared_secret");
    let bad_hello = WireMessage::Hello {
        rule_major: my_version().rule.0,
        rule_minor: my_version().rule.1,
        proto_ver: my_version().protocol + 1,
        auth_hash: to_hex(&[0u8; 32]),
        side: "sente".to_string(),
    };
    let result = gote.feed(bad_hello);
    assert!(matches!(result, Err(SessionError::VersionMismatch(_))));
}

#[test]
fn resign_completes_turn() {
    let (mut sente, mut gote) = pair();
    handshake(&mut sente, &mut gote);
    let bh = initial_hash();
    let commit_s = sente.commit(bh, Action::Resign, Nonce([1u8; 32])).unwrap();
    let commit_g = gote.commit(bh, mv("3c3d"), Nonce([2u8; 32])).unwrap();
    gote.feed(commit_s).unwrap();
    sente.feed(commit_g).unwrap();
    let reveal_s = sente.reveal_msg().unwrap();
    let reveal_g = gote.reveal_msg().unwrap();
    gote.feed(reveal_s).unwrap();
    sente.feed(reveal_g).unwrap();
    let ack_s = sente.ack_msg().unwrap();
    let ack_g = gote.ack_msg().unwrap();
    gote.feed(ack_s).unwrap();
    let ev_s = sente.feed(ack_g).unwrap();
    assert_eq!(ev_s, SessionEvent::TurnComplete { sente: Action::Resign, gote: mv("3c3d") });
}

#[test]
fn board_hash_mismatch_rejected() {
    let (mut sente, mut gote) = pair();
    handshake(&mut sente, &mut gote);
    let bh = initial_hash();
    let commit_s = sente.commit(bh, mv("7g7f"), Nonce([1u8; 32])).unwrap();
    let commit_g = gote.commit(bh, mv("3c3d"), Nonce([2u8; 32])).unwrap();
    gote.feed(commit_s).unwrap();
    sente.feed(commit_g).unwrap();
    let tampered = WireMessage::Reveal {
        action: "7g7f".to_string(),
        nonce: to_hex(&[1u8; 32]),
        board_hash: to_hex(&[0u8; 32]),
    };
    let result = gote.feed(tampered);
    assert_eq!(result, Err(SessionError::Protocol(ProtocolError::BoardHashMismatch)));
}

#[test]
fn reconnect_identity_check() {
    let (mut sente, mut gote) = pair();
    handshake(&mut sente, &mut gote);
    let bh = initial_hash();
    let reconnect_s = sente.reconnect_msg(bh);
    let ev = gote.feed(reconnect_s).unwrap();
    assert_eq!(ev, SessionEvent::PeerReconnectRequest { board_hash: bh });
    let forged = WireMessage::Reconnect { auth_hash: to_hex(&[0xffu8; 32]), board_hash: to_hex(&bh.0) };
    let result = gote.feed(forged);
    assert_eq!(result, Err(SessionError::IdentityMismatch));
    let ack_msg = gote.reconnect_ack_msg(bh);
    let ev = sente.feed(ack_msg).unwrap();
    assert_eq!(ev, SessionEvent::ReconnectAck { resume_hash: bh });
}

#[test]
fn commit_before_handshake_rejected() {
    let mut sente = ClientSession::new(Side::Sente, b"shared_secret");
    let result = sente.commit(initial_hash(), mv("7g7f"), Nonce([1u8; 32]));
    assert_eq!(result, Err(SessionError::HandshakeNotDone));
}

#[test]
fn client_refuses_bad_messages() {
    let (mut sente, mut gote) = pair();
    assert!(!sente.handshake_done());
    assert_eq!(sente.peer_auth_hash(), None);
    handshake(&mut sente, &mut gote);
    assert!(sente.handshake_done());
    assert!(sente.peer_auth_hash().is_some());
    // a second hello
    assert_eq!(sente.feed(gote.hello_msg()), Err(SessionError::DuplicateHello));
    // a commit with a bad hexadecimal field
    assert_eq!(sente.feed(WireMessage::Commit { commitment: "zz".to_string() }), Err(SessionError::BadHex));
    // a reveal before any turn
    assert_eq!(sente.reveal_msg(), Err(SessionError::NoActiveTurn));
    // the other side aborting
    assert_eq!(
        sente.feed(WireMessage::Abort { reason: "bye".to_string() }),
        Ok(SessionEvent::PeerAborted { reason: "bye".to_string() })
    );
}

#[test]
fn client_rejects_reveal_that_is_not_usi() {
    let (mut sente, mut gote) = pair();
    handshake(&mut sente, &mut gote);
    let bh = initial_hash();
    let commit_s = sente.commit(bh, mv("7g7f"), Nonce([1u8; 32])).unwrap();
    let commit_g = gote.commit(bh, mv("3c3d"), Nonce([2u8; 32])).unwrap();
    gote.feed(commit_s).unwrap();
    sente.feed(commit_g).unwrap();
    let bad = WireMessage::Reveal { action: "xx".to_string(), nonce: to_hex(&[1u8; 32]), board_hash: to_hex(&bh.0) };
    assert_eq!(gote.feed(bad), Err(SessionError::InvalidUsi));
}

#[test]
fn hello_message_carries_versions_and_side() {
    let (sente, _) = pair();
    match sente.hello_msg() {
        WireMessage::Hello { rule_major, rule_minor, proto_ver, auth_hash, side } => {
            assert_eq!((rule_major, rule_minor), RULE_VERSION);
            assert_eq!(proto_ver, PROTOCOL_VERSION);
            assert_eq!(auth_hash.len(), 64);
            assert_eq!(side, "sente");
        }
        other => panic!("expected a hello, got {:?}", other),
    }
}

// ---- recovery ----

fn make_kifu_with_plies(n: usize) -> Kifu {
    let sente_moves = [
        (Square::new(7, 7), Square::new(7, 6)),
        (Square::new(6, 7), Square::new(6, 6)),
        (Square::new(5, 7), Square::new(5, 6)),
        (Square::new(4, 7), Square::new(4, 6)),
    ];
    let gote_moves = [
        (Square::new(3, 3), Square::new(3, 4)),
        (Square::new(4, 3), Square::new(4, 4)),
        (Square::new(5, 3), Square::new(5, 4)),
        (Square::new(6, 3), Square::new(6, 4)),
    ];
    let mut pos = Position::initial();
    let mut plies = Vec::new();
    for i in 0..n.min(sente_moves.len()) {
        let (sf, st) = sente_moves[i];
        let (gf, gt) = gote_moves[i];
        let sente_action = Action::Move { from: sf, to: st, promote: false };
        let gote_action = Action::Move { from: gf, to: gt, promote: false };
        pos = resolve(&pos, sente_action, gote_action).next;
        plies.push(Ply { sente: sente_action, gote: gote_action });
    }
    let mut kifu = Kifu::new(Position::initial());
    for ply in plies {
        kifu.push(ply);
    }
    kifu
}

#[test]
fn find_resume_at_initial() {
    let kifu = make_kifu_with_plies(3);
    let recovery = RecoverySession::new_with_secret(kifu.clone(), b"pw");
    let initial_hash = board_hash(&kifu.initial_position);
    let found = recovery.find_resume_point(initial_hash);
    assert!(found.is_some());
    assert_eq!(found.unwrap().move_number, 1);
}

#[test]
fn find_resume_mid_game() {
    let kifu = make_kifu_with_plies(3);
    let recovery = RecoverySession::new_with_secret(kifu.clone(), b"pw");
    let mid_pos = kifu.replay(2);
    let mid_hash = board_hash(&mid_pos);
    let found = recovery.find_resume_point(mid_hash);
    assert!(found.is_some());
    assert_eq!(found.unwrap().move_number, mid_pos.move_number);
}

#[test]
fn find_resume_unknown_hash_returns_none() {
    let kifu = make_kifu_with_plies(2);
    let recovery = RecoverySession::new_with_secret(kifu, b"pw");
    let unknown_hash = BoardHash([0xABu8; 32]);
    assert!(recovery.find_resume_point(unknown_hash).is_none());
}

#[test]
fn auth_accept_and_reject() {
    let kifu = Kifu::new(Position::initial());
    let recovery = RecoverySession::new_with_secret(kifu, b"correct_secret");
    assert!(recovery.verify_identity(b"correct_secret"));
    assert!(!recovery.verify_identity(b"wrong_secret"));
    assert!(!recovery.verify_identity(b""));
}

#[test]
fn current_hash_is_hash_of_latest_position() {
    let kifu = make_kifu_with_plies(3);
    let recovery = RecoverySession::new_with_secret(kifu.clone(), b"pw");
    assert_eq!(recovery.current_hash(), board_hash(&kifu.current()));
    assert_ne!(recovery.current_hash(), board_hash(&kifu.initial_position));
}

// ---- result ----

fn initial_kifu() -> Kifu {
    Kifu::new(sfen_to_position(INITIAL_SFEN).unwrap())
}

fn legal_ply() -> Ply {
    Ply {
        sente: Action::Move { from: Square::new(7, 7), to: Square::new(7, 6), promote: false },
        gote: Action::Move { from: Square::new(3, 3), to: Square::new(3, 4), promote: false },
    }
}

#[test]
fn sente_resign_gote_wins() {
    let mut kifu = initial_kifu();
    kifu.push(Ply { sente: Action::Resign, gote: legal_ply().gote });
    assert_eq!(game_result(&kifu), Some((ResultKind::Resign, Outcome::GoteWins)));
}

#[test]
fn gote_resign_sente_wins() {
    let mut kifu = initial_kifu();
    kifu.push(Ply { sente: legal_ply().sente, gote: Action::Resign });
    assert_eq!(game_result(&kifu), Some((ResultKind::Resign, Outcome::SenteWins)));
}

#[test]
fn both_resign_draw() {
    let mut kifu = initial_kifu();
    kifu.push(Ply { sente: Action::Resign, gote: Action::Resign });
    assert_eq!(game_result(&kifu), Some((ResultKind::Resign, Outcome::Draw)));
}

#[test]
fn ongoing_kifu_returns_none() {
    let kifu = initial_kifu();
    assert_eq!(game_result(&kifu), None);
}

#[test]
fn delegates_to_board_evaluation_when_not_resigned() {
    let kifu = initial_kifu();
    assert_eq!(game_result(&kifu), terminal_to_result(&evaluate(&kifu)));
    let mut kifu_with_move = initial_kifu();
    kifu_with_move.push(legal_ply());
    assert_eq!(game_result(&kifu_with_move), terminal_to_result(&evaluate(&kifu_with_move)));
}

// ---- wire ----

#[test]
fn hex_helpers_roundtrip() {
    let bytes = [0xabu8; 32];
    let hex = to_hex(&bytes);
    assert_eq!(hex.len(), 64);
    assert_eq!(from_hex32(&hex), Some(bytes));
    assert_eq!(from_hex32("short"), None);
    assert_eq!(from_hex32(&"zz".repeat(32)), None);
}

#[test]
fn hex_text_is_lower_case_two_digits_per_byte() {
    assert_eq!(to_hex(&[0x00, 0x0f, 0xa5, 0xff]), "000fa5ff");
    assert_eq!(to_hex(&[]), "");
    let mut bytes = [0u8; 32];
    for i in 0..32 {
        bytes[i] = (i * 8) as u8;
    }
    let upper = to_hex(&bytes).to_uppercase();
    assert_eq!(from_hex32(&upper), Some(bytes));
    assert_eq!(from_hex32(&"0".repeat(66)), None);
}
