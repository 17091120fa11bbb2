use fukanzen_shogi::board::{Board, Hand, Position};
use fukanzen_shogi::kifu::Kifu;
use fukanzen_shogi::movegen::{legal_actions, opponent_attacks};
use fukanzen_shogi::resolve::{resolve, ResolutionEvent};
use fukanzen_shogi::types::{Action, Piece, PieceKind, Ply, Side, Square};

fn empty_pos() -> Position {
    Position { board: Board::empty(), hand_sente: Hand::empty(), hand_gote: Hand::empty(), move_number: 1 }
}

fn make_pos(pieces: &[(Square, Piece)]) -> Position {
    let mut board = Board::empty();
    for &(sq, p) in pieces {
        board.set(sq, Some(p));
    }
    Position { board, hand_sente: Hand::empty(), hand_gote: Hand::empty(), move_number: 1 }
}

fn mv(from: Square, to: Square) -> Action {
    Action::Move { from, to, promote: false }
}

// ---- types ----

#[test]
fn square_roundtrip() {
    for file in 1u8..=9 {
        for rank in 1u8..=9 {
            let sq = Square::new(file, rank);
            assert_eq!(sq.file(), file);
            assert_eq!(sq.rank(), rank);
        }
    }
}

#[test]
fn square_usi_roundtrip() {
    let sq = Square::new(7, 7);
    assert_eq!(sq.to_usi(), "7g");
    assert_eq!(Square::from_usi("7g"), Some(sq));
}

#[test]
fn action_usi_move() {
    let a = Action::from_usi("7g7f").unwrap();
    assert_eq!(a, Action::Move { from: Square::new(7, 7), to: Square::new(7, 6), promote: false });
    assert_eq!(a.to_usi(), "7g7f");
}

#[test]
fn action_usi_promote() {
    let a = Action::from_usi("2b3a+").unwrap();
    match a {
        Action::Move { promote: true, .. } => {}
        _ => panic!("expected promote"),
    }
    assert_eq!(a.to_usi(), "2b3a+");
}

#[test]
fn action_usi_drop() {
    let a = Action::from_usi("P*5e").unwrap();
    assert_eq!(a, Action::Drop { kind: PieceKind::Pawn, to: Square::new(5, 5) });
    assert_eq!(a.to_usi(), "P*5e");
}

#[test]
fn square_usi_rejects_bad_text() {
    assert_eq!(Square::from_usi("0a"), None);
    assert_eq!(Square::from_usi("5j"), None);
    assert_eq!(Square::from_usi("5"), None);
    assert_eq!(Square::from_usi(""), None);
    assert_eq!(Square::from_usi("1a"), Some(Square::new(1, 1)));
    assert_eq!(Square::from_usi("9i"), Some(Square::new(9, 9)));
}

#[test]
fn square_index_layout() {
    assert_eq!(Square::new(1, 1).index(), 0);
    assert_eq!(Square::new(1, 9).index(), 8);
    assert_eq!(Square::new(2, 1).index(), 9);
    assert_eq!(Square::new(9, 9).index(), 80);
    assert_eq!(Square::from_index(40), Square::new(5, 5));
}

#[test]
fn action_usi_rejects_bad_text() {
    assert_eq!(Action::from_usi(""), None);
    assert_eq!(Action::from_usi("7g"), None);
    assert_eq!(Action::from_usi("7g7"), None);
    assert_eq!(Action::from_usi("K*5e"), Some(Action::Drop { kind: PieceKind::King, to: Square::new(5, 5) }));
    assert_eq!(Action::from_usi("X*5e"), None);
    // text after the two squares is ignored
    assert_eq!(Action::from_usi("7g7f="), Action::from_usi("7g7f"));
    assert_eq!(Action::from_usi("resign"), Some(Action::Resign));
    assert_eq!(Action::Resign.to_usi(), "resign");
}

#[test]
fn action_usi_all_drop_kinds() {
    let texts = ["P*1a", "L*2b", "N*3c", "S*4d", "G*5e", "B*6f", "R*7g"];
    let kinds = [
        PieceKind::Pawn,
        PieceKind::Lance,
        PieceKind::Knight,
        PieceKind::Silver,
        PieceKind::Gold,
        PieceKind::Bishop,
        PieceKind::Rook,
    ];
    for i in 0..7 {
        let a = Action::from_usi(texts[i]).unwrap();
        match a {
            Action::Drop { kind, .. } => assert_eq!(kind, kinds[i]),
            _ => panic!("expected a drop"),
        }
        assert_eq!(a.to_usi(), texts[i]);
    }
}

#[test]
fn piece_kind_promotion_table() {
    assert_eq!(PieceKind::Pawn.promoted(), PieceKind::ProPawn);
    assert_eq!(PieceKind::Bishop.promoted(), PieceKind::Horse);
    assert_eq!(PieceKind::Rook.promoted(), PieceKind::Dragon);
    assert_eq!(PieceKind::Dragon.unpromoted(), PieceKind::Rook);
    assert_eq!(PieceKind::ProSilver.unpromoted(), PieceKind::Silver);
    assert_eq!(PieceKind::Gold.unpromoted(), PieceKind::Gold);
    assert!(!PieceKind::Gold.can_promote());
    assert!(!PieceKind::King.can_promote());
    assert!(PieceKind::Knight.can_promote());
    assert!(PieceKind::Horse.is_promoted());
    assert!(!PieceKind::Lance.is_promoted());
    assert_eq!(Side::Sente.opposite(), Side::Gote);
    assert_eq!(Side::Gote.opposite(), Side::Sente);
}

// ---- board ----

#[test]
fn initial_position_pieces() {
    let pos = Position::initial();
    assert_eq!(pos.board.get(Square::new(5, 9)), Some(Piece::new(PieceKind::King, Side::Sente)));
    assert_eq!(pos.board.get(Square::new(5, 1)), Some(Piece::new(PieceKind::King, Side::Gote)));
    assert_eq!(pos.board.get(Square::new(2, 8)), Some(Piece::new(PieceKind::Rook, Side::Sente)));
    assert_eq!(pos.board.get(Square::new(8, 8)), Some(Piece::new(PieceKind::Bishop, Side::Sente)));
    assert_eq!(pos.board.get(Square::new(8, 2)), Some(Piece::new(PieceKind::Rook, Side::Gote)));
    assert_eq!(pos.board.get(Square::new(2, 2)), Some(Piece::new(PieceKind::Bishop, Side::Gote)));
    for file in 1u8..=9 {
        assert_eq!(pos.board.get(Square::new(file, 7)), Some(Piece::new(PieceKind::Pawn, Side::Sente)));
    }
    for file in 1u8..=9 {
        assert_eq!(pos.board.get(Square::new(file, 3)), Some(Piece::new(PieceKind::Pawn, Side::Gote)));
    }
}

#[test]
fn hand_add_remove() {
    let mut hand = Hand::empty();
    hand.add(PieceKind::Pawn);
    hand.add(PieceKind::Pawn);
    assert_eq!(hand.count(PieceKind::Pawn), 2);
    hand.remove(PieceKind::Pawn);
    assert_eq!(hand.count(PieceKind::Pawn), 1);
}

#[test]
fn hand_iter_and_kinds() {
    let mut hand = Hand::empty();
    assert!(hand.iter().is_empty());
    hand.add(PieceKind::Rook);
    hand.add(PieceKind::Pawn);
    hand.add(PieceKind::Pawn);
    assert_eq!(hand.iter(), vec![(PieceKind::Pawn, 2), (PieceKind::Rook, 1)]);
    assert!(hand.has(PieceKind::Rook));
    assert!(!hand.has(PieceKind::Gold));
    assert_eq!(hand.count(PieceKind::King), 0);
    assert_eq!(hand.count(PieceKind::Dragon), 0);
    assert_eq!(Hand::kinds()[0], PieceKind::Pawn);
    assert_eq!(Hand::kinds()[6], PieceKind::Rook);
}

#[test]
fn board_iter_lists_occupied_squares_in_index_order() {
    let mut board = Board::empty();
    assert!(board.iter().is_empty());
    board.set(Square::new(9, 9), Some(Piece::new(PieceKind::King, Side::Sente)));
    board.set(Square::new(1, 1), Some(Piece::new(PieceKind::King, Side::Gote)));
    let v = board.iter();
    assert_eq!(
        v,
        vec![
            (Square::new(1, 1), Piece::new(PieceKind::King, Side::Gote)),
            (Square::new(9, 9), Piece::new(PieceKind::King, Side::Sente)),
        ]
    );
    assert_eq!(Position::initial().board.iter().len(), 40);
    board.set(Square::new(1, 1), None);
    assert_eq!(board.get(Square::new(1, 1)), None);
}

#[test]
fn position_hands_and_content_key() {
    let mut pos = Position::initial();
    pos.hand_mut(Side::Gote).add(PieceKind::Silver);
    assert_eq!(pos.hand(Side::Gote).count(PieceKind::Silver), 1);
    assert_eq!(pos.hand(Side::Sente).count(PieceKind::Silver), 0);
    let mut other = pos;
    other.move_number = 42;
    assert_eq!(pos.content_key(), other.content_key());
    assert_ne!(pos, other);
}

// ---- kifu ----

#[test]
fn replay_deterministic() {
    let initial = Position::initial();
    let mut kifu = Kifu::new(initial.clone());
    let ply = Ply {
        sente: Action::Move { from: Square::new(7, 7), to: Square::new(7, 6), promote: false },
        gote: Action::Move { from: Square::new(3, 3), to: Square::new(3, 4), promote: false },
    };
    kifu.push(ply);
    let pos1 = kifu.replay(1);
    let pos2 = kifu.current();
    assert_eq!(pos1, pos2, "replay と current が一致しない");
    assert_eq!(pos1.move_number, 2);
}

#[test]
fn kifu_undo_and_replay_prefix() {
    let initial = Position::initial();
    let mut kifu = Kifu::new(initial);
    kifu.undo();
    assert!(kifu.plies.is_empty());
    kifu.push(Ply { sente: mv(Square::new(7, 7), Square::new(7, 6)), gote: mv(Square::new(3, 3), Square::new(3, 4)) });
    let after_one = kifu.current();
    kifu.push(Ply { sente: mv(Square::new(2, 7), Square::new(2, 6)), gote: mv(Square::new(8, 3), Square::new(8, 4)) });
    assert!(kifu.is_replayable());
    assert_eq!(kifu.replay(0), initial);
    assert_eq!(kifu.replay(1), after_one);
    assert_eq!(kifu.replay(99), kifu.current());
    assert_eq!(kifu.current().move_number, 3);
    kifu.undo();
    assert_eq!(kifu.current(), after_one);
    assert_eq!(kifu.plies.len(), 1);
}

#[test]
fn kifu_with_inapplicable_turn_is_not_replayable() {
    let mut kifu = Kifu::new(Position::initial());
    kifu.push(Ply { sente: mv(Square::new(5, 5), Square::new(5, 4)), gote: mv(Square::new(3, 3), Square::new(3, 4)) });
    assert!(!kifu.is_replayable());
}

// ---- movegen ----

#[test]
fn king_cannot_move_into_check() {
    let mut pos = empty_pos();
    pos.board.set(Square::new(5, 5), Some(Piece::new(PieceKind::King, Side::Sente)));
    pos.board.set(Square::new(1, 1), Some(Piece::new(PieceKind::Rook, Side::Gote)));
    pos.board.set(Square::new(9, 9), Some(Piece::new(PieceKind::King, Side::Gote)));
    let actions = legal_actions(&pos, Side::Sente);
    for a in &actions {
        if let Action::Move { to, .. } = a {
            let attacked = opponent_attacks(&pos, Side::Sente);
            assert!(!attacked.contains(to), "king moved into check: {:?}", to);
        }
    }
}

#[test]
fn no_nifu() {
    let mut pos = empty_pos();
    pos.board.set(Square::new(5, 9), Some(Piece::new(PieceKind::King, Side::Sente)));
    pos.board.set(Square::new(5, 1), Some(Piece::new(PieceKind::King, Side::Gote)));
    pos.board.set(Square::new(5, 7), Some(Piece::new(PieceKind::Pawn, Side::Sente)));
    pos.hand_sente.add(PieceKind::Pawn);
    let actions = legal_actions(&pos, Side::Sente);
    let nifu = actions
        .iter()
        .any(|a| matches!(a, Action::Drop { kind: PieceKind::Pawn, to } if to.file() == 5));
    assert!(!nifu, "二歩が合法手に現れた");
}

#[test]
fn initial_legal_actions_count() {
    let pos = Position::initial();
    let actions = legal_actions(&pos, Side::Sente);
    assert_eq!(actions.len(), 30, "initial sente legal actions: {:?}", actions.len());
}

#[test]
fn initial_legal_actions_count_gote() {
    let pos = Position::initial();
    let actions = legal_actions(&pos, Side::Gote);
    assert_eq!(actions.len(), 30);
    assert!(actions.contains(&mv(Square::new(3, 3), Square::new(3, 4))));
    assert!(!actions.contains(&mv(Square::new(7, 7), Square::new(7, 6))));
}

#[test]
fn pawn_drop_on_last_rank_is_not_legal() {
    let mut pos = empty_pos();
    pos.board.set(Square::new(5, 9), Some(Piece::new(PieceKind::King, Side::Sente)));
    pos.board.set(Square::new(1, 1), Some(Piece::new(PieceKind::King, Side::Gote)));
    pos.hand_sente.add(PieceKind::Pawn);
    pos.hand_sente.add(PieceKind::Knight);
    let actions = legal_actions(&pos, Side::Sente);
    assert!(!actions.contains(&Action::Drop { kind: PieceKind::Pawn, to: Square::new(3, 1) }));
    assert!(actions.contains(&Action::Drop { kind: PieceKind::Pawn, to: Square::new(3, 2) }));
    assert!(!actions.contains(&Action::Drop { kind: PieceKind::Knight, to: Square::new(3, 2) }));
    assert!(actions.contains(&Action::Drop { kind: PieceKind::Knight, to: Square::new(3, 3) }));
}

// ---- resolve ----

#[test]
fn capture_value_independent() {
    let s5e = Square::new(5, 5);
    let s5f = Square::new(5, 6);
    let pos = make_pos(&[
        (s5f, Piece::new(PieceKind::Pawn, Side::Sente)),
        (s5e, Piece::new(PieceKind::Rook, Side::Gote)),
        (Square::new(5, 9), Piece::new(PieceKind::King, Side::Sente)),
        (Square::new(5, 1), Piece::new(PieceKind::King, Side::Gote)),
    ]);
    let gote_act = mv(Square::new(5, 1), Square::new(4, 1));
    let sente_act = mv(s5f, s5e);
    let res = resolve(&pos, sente_act, gote_act);
    assert_eq!(res.next.hand_sente.count(PieceKind::Rook), 1);
    assert_eq!(res.next.board.get(s5e), Some(Piece::new(PieceKind::Pawn, Side::Sente)));
}

#[test]
fn escaped_piece_not_captured() {
    let x = Square::new(5, 5);
    let y = Square::new(5, 4);
    let pos = make_pos(&[
        (Square::new(5, 8), Piece::new(PieceKind::Rook, Side::Sente)),
        (x, Piece::new(PieceKind::Bishop, Side::Gote)),
        (Square::new(5, 9), Piece::new(PieceKind::King, Side::Sente)),
        (Square::new(9, 1), Piece::new(PieceKind::King, Side::Gote)),
    ]);
    let res = resolve(&pos, mv(Square::new(5, 8), x), mv(x, y));
    assert_eq!(res.next.hand_sente.count(PieceKind::Bishop), 0);
    assert_eq!(res.next.board.get(x), Some(Piece::new(PieceKind::Rook, Side::Sente)));
    assert_eq!(res.next.board.get(y), Some(Piece::new(PieceKind::Bishop, Side::Gote)));
}

#[test]
fn clash_same_square() {
    let z = Square::new(5, 5);
    let pos = make_pos(&[
        (Square::new(5, 7), Piece::new(PieceKind::Pawn, Side::Sente)),
        (Square::new(5, 3), Piece::new(PieceKind::Pawn, Side::Gote)),
        (Square::new(9, 9), Piece::new(PieceKind::King, Side::Sente)),
        (Square::new(9, 1), Piece::new(PieceKind::King, Side::Gote)),
    ]);
    let res = resolve(&pos, mv(Square::new(5, 7), z), mv(Square::new(5, 3), z));
    assert_eq!(res.next.hand_sente.count(PieceKind::Pawn), 1);
    assert_eq!(res.next.hand_gote.count(PieceKind::Pawn), 1);
    assert_eq!(res.next.board.get(z), None);
}

#[test]
fn clash_swap() {
    let a = Square::new(5, 5);
    let b = Square::new(5, 6);
    let pos = make_pos(&[
        (a, Piece::new(PieceKind::Silver, Side::Sente)),
        (b, Piece::new(PieceKind::Silver, Side::Gote)),
        (Square::new(9, 9), Piece::new(PieceKind::King, Side::Sente)),
        (Square::new(9, 1), Piece::new(PieceKind::King, Side::Gote)),
    ]);
    let res = resolve(&pos, mv(a, b), mv(b, a));
    assert_eq!(res.next.hand_sente.count(PieceKind::Silver), 1);
    assert_eq!(res.next.hand_gote.count(PieceKind::Silver), 1);
    assert_eq!(res.next.board.get(a), None);
    assert_eq!(res.next.board.get(b), None);
}

#[test]
fn sengoku_musou_sente_king_wins() {
    let king_sq = Square::new(5, 5);
    let silver_sq = Square::new(5, 4);
    let pos = make_pos(&[
        (king_sq, Piece::new(PieceKind::King, Side::Sente)),
        (silver_sq, Piece::new(PieceKind::Silver, Side::Gote)),
        (Square::new(9, 1), Piece::new(PieceKind::King, Side::Gote)),
    ]);
    let res = resolve(&pos, mv(king_sq, silver_sq), mv(silver_sq, king_sq));
    assert_eq!(res.next.board.get(silver_sq), Some(Piece::new(PieceKind::King, Side::Sente)));
    assert_eq!(res.next.board.get(king_sq), None);
    assert_eq!(res.next.hand_sente.count(PieceKind::Silver), 1);
    assert_eq!(res.next.hand_gote.count(PieceKind::Silver), 0);
    assert!(matches!(
        res.event,
        ResolutionEvent::Normal { sente_capture: Some(PieceKind::Silver), gote_capture: None }
    ));
}

#[test]
fn sengoku_musou_gote_king_wins() {
    let king_sq = Square::new(5, 5);
    let silver_sq = Square::new(5, 6);
    let pos = make_pos(&[
        (king_sq, Piece::new(PieceKind::King, Side::Gote)),
        (silver_sq, Piece::new(PieceKind::Silver, Side::Sente)),
        (Square::new(9, 9), Piece::new(PieceKind::King, Side::Sente)),
    ]);
    let res = resolve(&pos, mv(silver_sq, king_sq), mv(king_sq, silver_sq));
    assert_eq!(res.next.board.get(silver_sq), Some(Piece::new(PieceKind::King, Side::Gote)));
    assert_eq!(res.next.board.get(king_sq), None);
    assert_eq!(res.next.hand_gote.count(PieceKind::Silver), 1);
    assert_eq!(res.next.hand_sente.count(PieceKind::Silver), 0);
}

#[test]
fn sengoku_musou_stationary_king_dies() {
    let king_sq = Square::new(5, 5);
    let silver_sq = Square::new(5, 4);
    let gold_sq = Square::new(3, 9);
    let pos = make_pos(&[
        (king_sq, Piece::new(PieceKind::King, Side::Sente)),
        (gold_sq, Piece::new(PieceKind::Gold, Side::Sente)),
        (silver_sq, Piece::new(PieceKind::Silver, Side::Gote)),
        (Square::new(9, 1), Piece::new(PieceKind::King, Side::Gote)),
    ]);
    let res = resolve(&pos, mv(gold_sq, Square::new(4, 9)), mv(silver_sq, king_sq));
    assert!(matches!(res.event, ResolutionEvent::SenteDied));
    assert_eq!(res.next.board.get(king_sq), Some(Piece::new(PieceKind::Silver, Side::Gote)));
}

#[test]
fn sengoku_musou_escape_no_capture() {
    let king_sq = Square::new(5, 5);
    let silver_sq = Square::new(5, 4);
    let escape_sq = Square::new(4, 4);
    let pos = make_pos(&[
        (king_sq, Piece::new(PieceKind::King, Side::Sente)),
        (silver_sq, Piece::new(PieceKind::Silver, Side::Gote)),
        (Square::new(9, 1), Piece::new(PieceKind::King, Side::Gote)),
    ]);
    let res = resolve(&pos, mv(king_sq, silver_sq), mv(silver_sq, escape_sq));
    assert_eq!(res.next.board.get(silver_sq), Some(Piece::new(PieceKind::King, Side::Sente)));
    assert_eq!(res.next.board.get(escape_sq), Some(Piece::new(PieceKind::Silver, Side::Gote)));
    assert_eq!(res.next.hand_sente.count(PieceKind::Silver), 0);
}

#[test]
fn both_kings_captured_simultaneously() {
    let sk = Square::new(5, 5);
    let gk = Square::new(5, 3);
    let sr = Square::new(5, 7);
    let gr = Square::new(5, 1);
    let pos = make_pos(&[
        (sk, Piece::new(PieceKind::King, Side::Sente)),
        (gk, Piece::new(PieceKind::King, Side::Gote)),
        (sr, Piece::new(PieceKind::Rook, Side::Sente)),
        (gr, Piece::new(PieceKind::Rook, Side::Gote)),
    ]);
    let res = resolve(&pos, mv(sr, gk), mv(gr, sk));
    assert!(matches!(res.event, ResolutionEvent::BothDied));
}

#[test]
fn sengoku_musou_drop_clash_sente_king() {
    let king_sq = Square::new(5, 5);
    let escape_sq = Square::new(5, 4);
    let mut pos = make_pos(&[
        (king_sq, Piece::new(PieceKind::King, Side::Sente)),
        (Square::new(9, 1), Piece::new(PieceKind::King, Side::Gote)),
    ]);
    pos.hand_gote.add(PieceKind::Silver);
    let res = resolve(&pos, mv(king_sq, escape_sq), Action::Drop { kind: PieceKind::Silver, to: escape_sq });
    assert_eq!(res.next.board.get(escape_sq), Some(Piece::new(PieceKind::King, Side::Sente)));
    assert_eq!(res.next.board.get(king_sq), None);
    assert_eq!(res.next.hand_sente.count(PieceKind::Silver), 1);
    assert_eq!(res.next.hand_gote.count(PieceKind::Silver), 0);
    assert!(matches!(
        res.event,
        ResolutionEvent::Normal { sente_capture: Some(PieceKind::Silver), gote_capture: None }
    ));
}

#[test]
fn sengoku_musou_drop_clash_gote_king() {
    let king_sq = Square::new(5, 5);
    let escape_sq = Square::new(5, 6);
    let mut pos = make_pos(&[
        (king_sq, Piece::new(PieceKind::King, Side::Gote)),
        (Square::new(9, 9), Piece::new(PieceKind::King, Side::Sente)),
    ]);
    pos.hand_sente.add(PieceKind::Silver);
    let res = resolve(&pos, Action::Drop { kind: PieceKind::Silver, to: escape_sq }, mv(king_sq, escape_sq));
    assert_eq!(res.next.board.get(escape_sq), Some(Piece::new(PieceKind::King, Side::Gote)));
    assert_eq!(res.next.board.get(king_sq), None);
    assert_eq!(res.next.hand_gote.count(PieceKind::Silver), 1);
    assert_eq!(res.next.hand_sente.count(PieceKind::Silver), 0);
    assert!(matches!(
        res.event,
        ResolutionEvent::Normal { sente_capture: None, gote_capture: Some(PieceKind::Silver) }
    ));
}

#[test]
fn king_dies_counterplay_backfire() {
    let king_sq = Square::new(5, 5);
    let silver_sq = Square::new(5, 4);
    let gold_sq = Square::new(6, 4);
    let pos = make_pos(&[
        (king_sq, Piece::new(PieceKind::King, Side::Sente)),
        (gold_sq, Piece::new(PieceKind::Gold, Side::Sente)),
        (silver_sq, Piece::new(PieceKind::Silver, Side::Gote)),
        (Square::new(9, 1), Piece::new(PieceKind::King, Side::Gote)),
    ]);
    let res = resolve(&pos, mv(gold_sq, silver_sq), mv(silver_sq, king_sq));
    assert!(matches!(res.event, ResolutionEvent::SenteDied));
    assert_eq!(res.next.board.get(king_sq), Some(Piece::new(PieceKind::Silver, Side::Gote)));
    assert_eq!(res.next.board.get(silver_sq), Some(Piece::new(PieceKind::Gold, Side::Sente)));
}

#[test]
fn both_kings_swap_draws() {
    let sk = Square::new(5, 5);
    let gk = Square::new(5, 4);
    let pos = make_pos(&[
        (sk, Piece::new(PieceKind::King, Side::Sente)),
        (gk, Piece::new(PieceKind::King, Side::Gote)),
    ]);
    let res = resolve(&pos, mv(sk, gk), mv(gk, sk));
    assert!(matches!(res.event, ResolutionEvent::BothDied));
    assert_eq!(res.next.board.get(sk), None);
    assert_eq!(res.next.board.get(gk), None);
    assert_eq!(res.next.hand_sente.count(PieceKind::King), 0);
    assert_eq!(res.next.hand_gote.count(PieceKind::King), 0);
}

#[test]
fn sengoku_musou_single_king_unaffected_after_v05() {
    let sk = Square::new(5, 5);
    let sv = Square::new(5, 4);
    let gk = Square::new(9, 1);
    let pos = make_pos(&[
        (sk, Piece::new(PieceKind::King, Side::Sente)),
        (sv, Piece::new(PieceKind::Silver, Side::Gote)),
        (gk, Piece::new(PieceKind::King, Side::Gote)),
    ]);
    let res = resolve(&pos, mv(sk, sv), mv(sv, sk));
    assert_eq!(res.next.board.get(sv), Some(Piece::new(PieceKind::King, Side::Sente)));
    assert_eq!(res.next.board.get(sk), None);
    assert_eq!(res.next.hand_sente.count(PieceKind::Silver), 1);
    assert!(matches!(
        res.event,
        ResolutionEvent::Normal { sente_capture: Some(PieceKind::Silver), gote_capture: None }
    ));
}

#[test]
fn king_dies_rook_passthrough() {
    let king_sq = Square::new(5, 5);
    let block_sq = Square::new(5, 4);
    let rook_sq = Square::new(5, 2);
    let mut pos = make_pos(&[
        (king_sq, Piece::new(PieceKind::King, Side::Sente)),
        (rook_sq, Piece::new(PieceKind::Rook, Side::Gote)),
        (Square::new(9, 1), Piece::new(PieceKind::King, Side::Gote)),
    ]);
    pos.hand_sente.add(PieceKind::Pawn);
    let res = resolve(&pos, Action::Drop { kind: PieceKind::Pawn, to: block_sq }, mv(rook_sq, king_sq));
    assert!(matches!(res.event, ResolutionEvent::SenteDied));
    assert_eq!(res.next.board.get(king_sq), Some(Piece::new(PieceKind::Rook, Side::Gote)));
    assert_eq!(res.next.board.get(block_sq), Some(Piece::new(PieceKind::Pawn, Side::Sente)));
    assert_eq!(res.next.hand_sente.count(PieceKind::Pawn), 0);
}

#[test]
fn capture_promoted_reverts() {
    let s5e = Square::new(5, 5);
    let s5f = Square::new(5, 6);
    let pos = make_pos(&[
        (s5f, Piece::new(PieceKind::Pawn, Side::Sente)),
        (s5e, Piece::new(PieceKind::Dragon, Side::Gote)),
        (Square::new(9, 9), Piece::new(PieceKind::King, Side::Sente)),
        (Square::new(9, 1), Piece::new(PieceKind::King, Side::Gote)),
    ]);
    let res = resolve(&pos, mv(s5f, s5e), mv(Square::new(9, 1), Square::new(8, 1)));
    assert_eq!(res.next.hand_sente.count(PieceKind::Rook), 1);
    assert_eq!(res.next.hand_sente.count(PieceKind::Dragon), 0);
}

#[test]
fn resolve_advances_move_number_and_promotes() {
    let mut pos = make_pos(&[
        (Square::new(2, 4), Piece::new(PieceKind::Pawn, Side::Sente)),
        (Square::new(9, 9), Piece::new(PieceKind::King, Side::Sente)),
        (Square::new(9, 1), Piece::new(PieceKind::King, Side::Gote)),
    ]);
    pos.move_number = 7;
    let sente = Action::Move { from: Square::new(2, 4), to: Square::new(2, 3), promote: true };
    let res = resolve(&pos, sente, mv(Square::new(9, 1), Square::new(8, 1)));
    assert_eq!(res.next.move_number, 8);
    assert_eq!(res.next.board.get(Square::new(2, 3)), Some(Piece::new(PieceKind::ProPawn, Side::Sente)));
    assert_eq!(res.next.board.get(Square::new(2, 4)), None);
    assert!(matches!(res.event, ResolutionEvent::Normal { sente_capture: None, gote_capture: None }));
}

#[test]
fn clash_event_names_both_pieces() {
    let z = Square::new(5, 5);
    let pos = make_pos(&[
        (Square::new(5, 7), Piece::new(PieceKind::Lance, Side::Sente)),
        (Square::new(4, 4), Piece::new(PieceKind::Gold, Side::Gote)),
        (Square::new(9, 9), Piece::new(PieceKind::King, Side::Sente)),
        (Square::new(9, 1), Piece::new(PieceKind::King, Side::Gote)),
    ]);
    let res = resolve(&pos, mv(Square::new(5, 7), z), mv(Square::new(4, 4), z));
    assert_eq!(res.event, ResolutionEvent::Clash { sente_piece: PieceKind::Lance, gote_piece: PieceKind::Gold });
    assert_eq!(res.next.hand_sente.count(PieceKind::Gold), 1);
    assert_eq!(res.next.hand_gote.count(PieceKind::Lance), 1);
}
