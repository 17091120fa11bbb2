use fukanzen_shogi::board::Position;
use fukanzen_shogi::protocol::auth::{hash_secret, verify_secret};
use fukanzen_shogi::protocol::commit::{make_commit, verify_commit, Nonce};
use fukanzen_shogi::protocol::hash::{board_hash, same_board_hash, BoardHash};
use fukanzen_shogi::protocol::session::{ProtocolError, TurnSession};
use fukanzen_shogi::serialize::canonical_bytes;
use fukanzen_shogi::types::{Action, Side};

fn mv(s: &str) -> Action {
    Action::from_usi(s).unwrap()
}

fn session() -> TurnSession {
    let pos = Position::initial();
    TurnSession::new(Side::Sente, board_hash(&pos))
}

// ---- auth ----

#[test]
fn correct_secret_accepted() {
    let hash = hash_secret(b"shared_password");
    assert!(verify_secret(b"shared_password", &hash));
}

#[test]
fn wrong_secret_rejected() {
    let hash = hash_secret(b"shared_password");
    assert!(!verify_secret(b"wrong", &hash));
    assert!(!verify_secret(b"", &hash));
}

#[test]
fn secret_hash_is_sha256() {
    // SHA-256 of the empty string
    let h = hash_secret(b"");
    assert_eq!(h.0[0], 0xe3);
    assert_eq!(h.0[1], 0xb0);
    assert_eq!(h.0[31], 0x55);
    // SHA-256 of "abc"
    let h = hash_secret(b"abc");
    assert_eq!(h.0[0], 0xba);
    assert_eq!(h.0[1], 0x78);
    assert_eq!(h.0[31], 0xad);
}

// ---- commit ----

#[test]
fn binding_wrong_action_fails() {
    let action_a = mv("7g7f");
    let action_b = mv("3c3d");
    let nonce = Nonce([1u8; 32]);
    let commit = make_commit(action_a, &nonce);
    assert!(!verify_commit(&commit, action_b, &nonce), "wrong action must fail");
    assert!(verify_commit(&commit, action_a, &nonce), "correct action must pass");
}

#[test]
fn binding_wrong_nonce_fails() {
    let action = mv("7g7f");
    let nonce_a = Nonce([1u8; 32]);
    let nonce_b = Nonce([2u8; 32]);
    let commit = make_commit(action, &nonce_a);
    assert!(!verify_commit(&commit, action, &nonce_b));
}

#[test]
fn hiding_different_nonces_produce_different_commits() {
    let action = mv("7g7f");
    let nonce_a = Nonce([0u8; 32]);
    let nonce_b = Nonce([1u8; 32]);
    let ca = make_commit(action, &nonce_a);
    let cb = make_commit(action, &nonce_b);
    assert_ne!(ca.0, cb.0);
}

#[test]
fn hiding_different_actions_produce_different_commits() {
    let nonce = Nonce([42u8; 32]);
    let ca = make_commit(mv("7g7f"), &nonce);
    let cb = make_commit(mv("3c3d"), &nonce);
    assert_ne!(ca.0, cb.0);
}

#[test]
fn commit_of_resign_opens_only_with_resign() {
    let nonce = Nonce([7u8; 32]);
    let c = make_commit(Action::Resign, &nonce);
    assert!(verify_commit(&c, Action::Resign, &nonce));
    assert!(!verify_commit(&c, mv("7g7f"), &nonce));
}

// ---- hash ----

#[test]
fn same_position_same_hash() {
    let pos = Position::initial();
    assert_eq!(board_hash(&pos), board_hash(&pos));
}

#[test]
fn different_move_number_different_hash() {
    let pos1 = Position::initial();
    let mut pos2 = Position::initial();
    pos2.move_number = 99;
    assert_ne!(board_hash(&pos1).0, board_hash(&pos2).0);
}

#[test]
fn board_hash_is_not_its_input() {
    let pos = Position::initial();
    let h = board_hash(&pos);
    let bytes = canonical_bytes(&pos);
    assert_ne!(h.0.to_vec(), bytes[..32].to_vec());
    assert!(same_board_hash(&h, &board_hash(&pos)));
    assert!(!same_board_hash(&h, &BoardHash([0u8; 32])));
}

// ---- session ----

#[test]
fn order_peer_reveal_rejected_before_both_committed() {
    let mut s = session();
    s.local_commit(mv("7g7f"), Nonce([1u8; 32])).unwrap();
    let peer_action = mv("3c3d");
    let peer_nonce = Nonce([2u8; 32]);
    let _peer_commit = make_commit(peer_action, &peer_nonce);
    let result = s.receive_peer_reveal(peer_action, peer_nonce, s.current_pos_hash);
    assert_eq!(result, Err(ProtocolError::RevealBeforeBothCommitted));
    let mut s2 = session();
    s2.local_commit(mv("7g7f"), Nonce([1u8; 32])).unwrap();
    assert_eq!(s2.local_reveal(), Err(ProtocolError::RevealBeforeBothCommitted));
}

#[test]
fn order_reveal_allowed_after_both_committed() {
    let mut s = session();
    let action = mv("7g7f");
    let nonce = Nonce([1u8; 32]);
    s.local_commit(action, nonce).unwrap();
    let peer_action = mv("3c3d");
    let peer_nonce = Nonce([2u8; 32]);
    let peer_commit = make_commit(peer_action, &peer_nonce);
    s.receive_peer_commit(peer_commit).unwrap();
    let reveal = s.local_reveal().unwrap();
    assert_eq!(reveal.action, action);
}

#[test]
fn binding_commit_mismatch_detected() {
    let mut s = session();
    let action = mv("7g7f");
    let nonce = Nonce([1u8; 32]);
    s.local_commit(action, nonce).unwrap();
    let peer_action = mv("3c3d");
    let peer_nonce = Nonce([2u8; 32]);
    let peer_commit = make_commit(peer_action, &peer_nonce);
    s.receive_peer_commit(peer_commit).unwrap();
    let wrong_action = mv("2g2f");
    let result = s.receive_peer_reveal(wrong_action, peer_nonce, s.current_pos_hash);
    assert_eq!(result, Err(ProtocolError::CommitMismatch));
}

#[test]
fn board_hash_mismatch_detected() {
    let mut s = session();
    let action = mv("7g7f");
    let nonce = Nonce([1u8; 32]);
    s.local_commit(action, nonce).unwrap();
    let peer_action = mv("3c3d");
    let peer_nonce = Nonce([2u8; 32]);
    let peer_commit = make_commit(peer_action, &peer_nonce);
    s.receive_peer_commit(peer_commit).unwrap();
    let wrong_hash = BoardHash([0u8; 32]);
    let result = s.receive_peer_reveal(peer_action, peer_nonce, wrong_hash);
    assert_eq!(result, Err(ProtocolError::BoardHashMismatch));
}

#[test]
fn ack_sync_completes_turn() {
    let pos = Position::initial();
    let hash = board_hash(&pos);
    let mut s = TurnSession::new(Side::Sente, hash);
    let local_action = mv("7g7f");
    let local_nonce = Nonce([1u8; 32]);
    s.local_commit(local_action, local_nonce).unwrap();
    let peer_action = mv("3c3d");
    let peer_nonce = Nonce([2u8; 32]);
    let peer_commit = make_commit(peer_action, &peer_nonce);
    s.receive_peer_commit(peer_commit).unwrap();
    s.local_reveal().unwrap();
    s.receive_peer_reveal(peer_action, peer_nonce, hash).unwrap();
    s.local_ack().unwrap();
    assert!(!s.is_complete());
    s.receive_peer_ack();
    assert!(s.is_complete());
    let (sa, ga) = s.get_actions().unwrap();
    assert_eq!(sa, local_action);
    assert_eq!(ga, peer_action);
}

#[test]
fn get_actions_none_before_complete() {
    let mut s = session();
    s.local_commit(mv("7g7f"), Nonce([1u8; 32])).unwrap();
    assert!(s.get_actions().is_none());
}

#[test]
fn ack_before_peer_reveal_fails() {
    let mut s = session();
    assert_eq!(s.local_ack(), Err(ProtocolError::AckBeforePeerReveal));
}

#[test]
fn gote_perspective_swaps_actions() {
    let pos = Position::initial();
    let hash = board_hash(&pos);
    let mut s = TurnSession::new(Side::Gote, hash);
    let local_action = mv("3c3d");
    let local_nonce = Nonce([10u8; 32]);
    s.local_commit(local_action, local_nonce).unwrap();
    let peer_action = mv("7g7f");
    let peer_nonce = Nonce([20u8; 32]);
    let peer_commit = make_commit(peer_action, &peer_nonce);
    s.receive_peer_commit(peer_commit).unwrap();
    s.local_reveal().unwrap();
    s.receive_peer_reveal(peer_action, peer_nonce, hash).unwrap();
    s.local_ack().unwrap();
    s.receive_peer_ack();
    let (sa, ga) = s.get_actions().unwrap();
    assert_eq!(sa, peer_action);
    assert_eq!(ga, local_action);
}

#[test]
fn sente_resign_completes_turn() {
    let pos = Position::initial();
    let hash = board_hash(&pos);
    let mut s = TurnSession::new(Side::Sente, hash);
    let local_nonce = Nonce([1u8; 32]);
    s.local_commit(Action::Resign, local_nonce).unwrap();
    let peer_action = mv("3c3d");
    let peer_nonce = Nonce([2u8; 32]);
    let peer_commit = make_commit(peer_action, &peer_nonce);
    s.receive_peer_commit(peer_commit).unwrap();
    s.local_reveal().unwrap();
    s.receive_peer_reveal(peer_action, peer_nonce, hash).unwrap();
    s.local_ack().unwrap();
    s.receive_peer_ack();
    assert!(s.is_complete());
    let (sa, ga) = s.get_actions().unwrap();
    assert_eq!(sa, Action::Resign);
    assert_eq!(ga, peer_action);
}

#[test]
fn mutual_resign_completes_turn() {
    let pos = Position::initial();
    let hash = board_hash(&pos);
    let mut s = TurnSession::new(Side::Sente, hash);
    let local_nonce = Nonce([1u8; 32]);
    s.local_commit(Action::Resign, local_nonce).unwrap();
    let peer_nonce = Nonce([2u8; 32]);
    let peer_commit = make_commit(Action::Resign, &peer_nonce);
    s.receive_peer_commit(peer_commit).unwrap();
    s.local_reveal().unwrap();
    s.receive_peer_reveal(Action::Resign, peer_nonce, hash).unwrap();
    s.local_ack().unwrap();
    s.receive_peer_ack();
    assert!(s.is_complete());
    let (sa, ga) = s.get_actions().unwrap();
    assert_eq!(sa, Action::Resign);
    assert_eq!(ga, Action::Resign);
}

#[test]
fn resign_commit_binding() {
    let pos = Position::initial();
    let hash = board_hash(&pos);
    let mut s = TurnSession::new(Side::Sente, hash);
    let local_nonce = Nonce([1u8; 32]);
    s.local_commit(Action::Resign, local_nonce).unwrap();
    let peer_nonce = Nonce([2u8; 32]);
    let peer_commit = make_commit(Action::Resign, &peer_nonce);
    s.receive_peer_commit(peer_commit).unwrap();
    let wrong_action = mv("3c3d");
    let result = s.receive_peer_reveal(wrong_action, peer_nonce, hash);
    assert_eq!(result, Err(ProtocolError::CommitMismatch));
}

#[test]
fn session_refuses_repeated_steps() {
    let mut s = session();
    assert_eq!(s.local_reveal(), Err(ProtocolError::RevealBeforeBothCommitted));
    s.local_commit(mv("7g7f"), Nonce([1u8; 32])).unwrap();
    assert_eq!(s.local_commit(mv("2g2f"), Nonce([3u8; 32])), Err(ProtocolError::AlreadyCommitted));
    let peer_nonce = Nonce([2u8; 32]);
    let peer_commit = make_commit(mv("3c3d"), &peer_nonce);
    s.receive_peer_commit(peer_commit).unwrap();
    assert_eq!(s.receive_peer_commit(peer_commit), Err(ProtocolError::DuplicatePeerCommit));
    assert!(s.both_committed());
    let hash = s.current_pos_hash;
    s.receive_peer_reveal(mv("3c3d"), peer_nonce, hash).unwrap();
    assert!(!s.both_revealed());
    assert_eq!(s.receive_peer_reveal(mv("3c3d"), peer_nonce, hash), Err(ProtocolError::DuplicatePeerReveal));
    let r = s.local_reveal().unwrap();
    assert_eq!(r.nonce, Nonce([1u8; 32]));
    assert_eq!(r.board_hash, hash);
    assert!(s.both_revealed());
}
