use fukanzen_shogi::board::{Board, Hand, Position};
use fukanzen_shogi::kifu::Kifu;
use fukanzen_shogi::link::{DoSystemMsg, NetEvent};
use fukanzen_shogi::movegen::{legal_actions, piece_attacks};
use fukanzen_shogi::online::game::{handshake_step, OnlineGame, Outgoing};
use fukanzen_shogi::online::OnlinePhase;
use fukanzen_shogi::protocol::client::{ClientSession, SessionEvent};
use fukanzen_shogi::protocol::wire::{from_hex32, WireMessage};
use fukanzen_shogi::resolve::{resolve, ResolutionEvent};
use fukanzen_shogi::types::{Action, Piece, PieceKind, Ply, Side, Square};

fn usi(s: &str) -> Action {
    Action::from_usi(s).unwrap()
}

const HAND_KINDS: [PieceKind; 7] = [
    PieceKind::Pawn,
    PieceKind::Lance,
    PieceKind::Knight,
    PieceKind::Silver,
    PieceKind::Gold,
    PieceKind::Bishop,
    PieceKind::Rook,
];

/// Pieces other than kings on the board and in both hands, and kings on the board.
fn census(pos: &Position) -> (usize, usize) {
    let mut others = 0usize;
    let mut kings = 0usize;
    for (_, p) in pos.board.iter() {
        if p.kind == PieceKind::King {
            kings += 1;
        } else {
            others += 1;
        }
    }
    for k in HAND_KINDS {
        others += pos.hand_sente.count(k) as usize + pos.hand_gote.count(k) as usize;
    }
    (others, kings)
}

fn deaths(e: &ResolutionEvent) -> usize {
    match e {
        ResolutionEvent::BothDied => 2,
        ResolutionEvent::SenteDied | ResolutionEvent::GoteDied => 1,
        _ => 0,
    }
}

#[test]
fn rook_attacks_each_square_once() {
    let mut board = Board::empty();
    let rook = Piece::new(PieceKind::Rook, Side::Sente);
    board.set(Square::new(5, 5), Some(rook));
    board.set(Square::new(5, 7), Some(Piece::new(PieceKind::Pawn, Side::Sente)));
    board.set(Square::new(5, 3), Some(Piece::new(PieceKind::Pawn, Side::Gote)));
    let pos = Position { board, hand_sente: Hand::empty(), hand_gote: Hand::empty(), move_number: 1 };
    let v = piece_attacks(&pos, Square::new(5, 5), rook);
    assert_eq!(v.len(), 11);
    let mut expected: Vec<Square> = [1u8, 2, 3, 4, 6, 7, 8, 9].iter().map(|&f| Square::new(f, 5)).collect();
    expected.push(Square::new(5, 4));
    expected.push(Square::new(5, 3));
    expected.push(Square::new(5, 6));
    for sq in &expected {
        assert_eq!(v.iter().filter(|s| *s == sq).count(), 1);
    }
}

#[test]
fn initial_legal_actions_are_distinct() {
    let pos = Position::initial();
    for side in [Side::Sente, Side::Gote] {
        let v = legal_actions(&pos, side);
        assert_eq!(v.len(), 30);
        for (i, a) in v.iter().enumerate() {
            assert!(!v[i + 1..].contains(a));
        }
    }
    let v = legal_actions(&pos, Side::Sente);
    assert!(v.contains(&Action::Move { from: Square::new(7, 7), to: Square::new(7, 6), promote: false }));
}

#[test]
fn usi_text_comes_back_unchanged() {
    for s in ["7g7f", "2b3a+", "P*5e", "K*1i", "9i1a", "resign"] {
        assert_eq!(usi(s).to_usi(), s);
    }
    assert_eq!(usi("7g7f"), Action::Move { from: Square::new(7, 7), to: Square::new(7, 6), promote: false });
}

#[test]
fn replay_goes_turn_by_turn() {
    let mut k = Kifu::new(Position::initial());
    let p1 = Ply { sente: usi("7g7f"), gote: usi("3c3d") };
    let p2 = Ply { sente: usi("8h2b+"), gote: usi("2b8h+") };
    k.push(p1);
    k.push(p2);
    assert_eq!(k.replay(0), Position::initial());
    let r1 = resolve(&Position::initial(), p1.sente, p1.gote).next;
    assert_eq!(k.replay(1), r1);
    let r2 = resolve(&r1, p2.sente, p2.gote).next;
    assert_eq!(k.replay(2), r2);
    assert_eq!(k.replay(7), r2);
    assert_eq!(r2.move_number, 3);
}

#[test]
fn pieces_are_kept_across_turns() {
    let mut pos = Position::initial();
    let turns = [("7g7f", "3c3d"), ("8h2b+", "2b8h+"), ("B*5e", "B*5e"), ("2g2f", "8c8d")];
    let start = census(&pos);
    assert_eq!(start, (38, 2));
    for (s, g) in turns {
        let (sa, ga) = (usi(s), usi(g));
        assert!(legal_actions(&pos, Side::Sente).contains(&sa));
        assert!(legal_actions(&pos, Side::Gote).contains(&ga));
        let r = resolve(&pos, sa, ga);
        let before = census(&pos);
        let after = census(&r.next);
        assert_eq!(after.0, before.0);
        assert_eq!(after.1 + deaths(&r.event), before.1);
        assert_eq!(r.next.move_number, pos.move_number + 1);
        pos = r.next;
    }
}

#[test]
fn handshake_steps() {
    let mut a = ClientSession::new(Side::Sente, b"secret");
    let hello = a.hello_msg();
    assert_eq!(handshake_step(NetEvent::Message(hello.clone())), Some(Ok(hello)));
    assert_eq!(
        handshake_step(NetEvent::Message(WireMessage::Ack)),
        Some(Err("ハンドシェイク: hello 以外を受信".to_string()))
    );
    assert_eq!(handshake_step(NetEvent::Disconnected), Some(Err("ハンドシェイク中に切断".to_string())));
    assert_eq!(handshake_step(NetEvent::System(DoSystemMsg::PeerReconnected)), None);
}

#[test]
fn random_commit_sends_a_commitment_or_stops() {
    let mut a = ClientSession::new(Side::Sente, b"secret");
    let mut b = ClientSession::new(Side::Gote, b"secret");
    let ha = a.hello_msg();
    let hb = b.hello_msg();
    assert!(matches!(b.feed(ha), Ok(SessionEvent::HandshakeDone { .. })));
    assert!(matches!(a.feed(hb), Ok(SessionEvent::HandshakeDone { .. })));
    let (mut g, _) = OnlineGame::start(Side::Sente, a, None, false, "0.8.0");
    // Without a fixed action nothing happens.
    assert!(g.commit_own_random().is_empty());
    assert_eq!(g.phase, OnlinePhase::WaitingMyMove);
    g.app.sente_action = Some(usi("7g7f"));
    let out = g.commit_own_random();
    assert_eq!(out.len(), 1);
    match &out[0] {
        Outgoing::Wire(WireMessage::Commit { commitment }) => {
            assert_eq!(commitment.len(), 64);
            assert_eq!(g.phase, OnlinePhase::WaitingPeerCommit);
        }
        Outgoing::Wire(WireMessage::Abort { reason }) => {
            assert_eq!(reason, "乱数の取得に失敗しました");
        }
        _ => panic!("unexpected message"),
    }
}

#[test]
fn hex_text_takes_hex_digits_only() {
    let good = "0f".repeat(32);
    assert_eq!(from_hex32(&good), Some([15u8; 32]));
    let plus = format!("+f{}", "0f".repeat(31));
    assert_eq!(from_hex32(&plus), None);
    let upper = "AB".repeat(32);
    assert_eq!(from_hex32(&upper), Some([0xab; 32]));
}

#[test]
fn kings_cannot_both_enter_one_square() {
    let mut board = Board::empty();
    board.set(Square::new(5, 5), Some(Piece::new(PieceKind::King, Side::Sente)));
    board.set(Square::new(5, 3), Some(Piece::new(PieceKind::King, Side::Gote)));
    let pos = Position { board, hand_sente: Hand::empty(), hand_gote: Hand::empty(), move_number: 1 };
    let to_middle = |from: Square| Action::Move { from, to: Square::new(5, 4), promote: false };
    assert!(!legal_actions(&pos, Side::Sente).contains(&to_middle(Square::new(5, 5))));
    assert!(!legal_actions(&pos, Side::Gote).contains(&to_middle(Square::new(5, 3))));
}
