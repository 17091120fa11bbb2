use fukanzen_shogi::archive::{
    archive_to_kifu, kifu_to_archive, ArchiveMeta, ArchiveResult, Outcome, ResultKind,
    ARCHIVE_FORMAT_VERSION, MAGIC,
};
use fukanzen_shogi::board::{Board, Hand, Position};
use fukanzen_shogi::kifu::Kifu;
use fukanzen_shogi::movegen::legal_actions;
use fukanzen_shogi::resolve::ResolutionEvent;
use fukanzen_shogi::serialize::{
    canonical_bytes, content_bytes, kifu_from_string, kifu_to_string, ply_from_string, ply_to_string,
    position_to_sfen, sfen_to_position, INITIAL_SFEN,
};
use fukanzen_shogi::terminate::{
    check_king_death, check_max_turns, check_sennichite, check_status, evaluate, terminal_to_result,
    DrawKind, GameEnd, GameStatus, LossKind, Terminal, MAX_TURNS,
};
use fukanzen_shogi::types::{Action, Piece, PieceKind, Ply, Side, Square};

fn make_pos(pieces: &[(Square, Piece)]) -> Position {
    let mut board = Board::empty();
    for &(sq, p) in pieces {
        board.set(sq, Some(p));
    }
    Position { board, hand_sente: Hand::empty(), hand_gote: Hand::empty(), move_number: 1 }
}

fn test_ply() -> Ply {
    Ply {
        sente: Action::Move { from: Square::new(7, 7), to: Square::new(7, 6), promote: false },
        gote: Action::Move { from: Square::new(3, 3), to: Square::new(3, 4), promote: false },
    }
}

// ---- serialize ----

#[test]
fn sfen_roundtrip_initial() {
    let pos = Position::initial();
    let sfen = position_to_sfen(&pos);
    let parsed = sfen_to_position(&sfen).expect("parse failed");
    assert_eq!(parsed.board, pos.board);
    assert_eq!(parsed.hand_sente, pos.hand_sente);
    assert_eq!(parsed.hand_gote, pos.hand_gote);
    assert_eq!(parsed.move_number, pos.move_number);
}

#[test]
fn canonical_deterministic() {
    let pos = Position::initial();
    let b1 = canonical_bytes(&pos);
    let b2 = canonical_bytes(&pos);
    assert_eq!(b1, b2);
}

#[test]
fn content_excludes_move_number() {
    let pos1 = Position::initial();
    let mut pos2 = Position::initial();
    pos2.move_number = 99;
    assert_eq!(content_bytes(&pos1), content_bytes(&pos2));
    assert_ne!(canonical_bytes(&pos1), canonical_bytes(&pos2));
}

#[test]
fn initial_sfen_matches_canonical() {
    let pos = Position::initial();
    let sfen = position_to_sfen(&pos);
    assert_eq!(sfen, INITIAL_SFEN, "初期局面 SFEN が正本と一致しません\n got: {}\n want: {}", sfen, INITIAL_SFEN);
}

#[test]
fn initial_sfen_parseable() {
    let pos = sfen_to_position(INITIAL_SFEN).expect("INITIAL_SFEN のパースに失敗");
    assert_eq!(pos.move_number, 1);
    assert_eq!(pos.board.get(Square::new(8, 2)), Some(Piece::new(PieceKind::Rook, Side::Gote)), "後手飛 at 8二");
    assert_eq!(pos.board.get(Square::new(2, 2)), Some(Piece::new(PieceKind::Bishop, Side::Gote)), "後手角 at 2二");
}

#[test]
fn ply_roundtrip() {
    let ply = test_ply();
    let s = ply_to_string(1, &ply);
    assert_eq!(s, "1: 7g7f | 3c3d");
    let (n, parsed) = ply_from_string(&s).unwrap();
    assert_eq!(n, 1);
    assert_eq!(parsed, ply);
}

#[test]
fn sfen_with_hands_and_promoted_pieces() {
    let mut pos = make_pos(&[
        (Square::new(5, 9), Piece::new(PieceKind::King, Side::Sente)),
        (Square::new(5, 1), Piece::new(PieceKind::King, Side::Gote)),
        (Square::new(1, 1), Piece::new(PieceKind::Dragon, Side::Sente)),
        (Square::new(9, 9), Piece::new(PieceKind::ProPawn, Side::Gote)),
    ]);
    pos.hand_sente.add(PieceKind::Pawn);
    pos.hand_sente.add(PieceKind::Pawn);
    pos.hand_sente.add(PieceKind::Rook);
    pos.hand_gote.add(PieceKind::Silver);
    pos.move_number = 12;
    let sfen = position_to_sfen(&pos);
    assert_eq!(sfen, "4k3+R/9/9/9/9/9/9/9/+p3K4 b R2Ps 12");
    assert_eq!(sfen_to_position(&sfen), Some(pos));
}

#[test]
fn sfen_rejects_malformed_text() {
    assert_eq!(sfen_to_position(""), None);
    assert_eq!(sfen_to_position("9/9/9/9/9/9/9/9 b - 1"), None);
    // a short row leaves its last squares empty
    assert_eq!(sfen_to_position("9/9/9/9/9/9/9/9/8 b - 1"), sfen_to_position("9/9/9/9/9/9/9/9/9 b - 1"));
    assert_eq!(sfen_to_position("9/9/9/9/9/9/9/9/9/9 b - 1"), None);
    assert_eq!(sfen_to_position("9/9/9/9/9/9/9/9/9 b - x"), None);
    assert_eq!(sfen_to_position("9/9/9/9/9/9/9/9/9 b Z 1"), None);
    assert_eq!(sfen_to_position("9/9/9/9/9/9/9/9/X8 b - 1"), None);
    assert!(sfen_to_position("9/9/9/9/9/9/9/9/9 b - 1").is_some());
}

#[test]
fn ply_text_with_resign_and_drop() {
    let ply = Ply { sente: Action::Resign, gote: Action::Drop { kind: PieceKind::Gold, to: Square::new(5, 5) } };
    let s = ply_to_string(37, &ply);
    assert_eq!(s, "37: resign | G*5e");
    assert_eq!(ply_from_string(&s), Some((37, ply)));
    assert_eq!(ply_from_string("1: 7g7f 3c3d"), None);
    assert_eq!(ply_from_string("x: 7g7f | 3c3d"), None);
    assert_eq!(ply_from_string("1: 7g7f | zz"), None);
}

#[test]
fn kifu_text_roundtrip() {
    let mut kifu = Kifu::new(Position::initial());
    kifu.push(test_ply());
    let text = kifu_to_string(&kifu);
    assert_eq!(text, format!("sfen {}\n1: 7g7f | 3c3d", INITIAL_SFEN));
    let back = kifu_from_string(&text).unwrap();
    assert_eq!(back.initial_position, kifu.initial_position);
    assert_eq!(back.plies, kifu.plies);
    assert!(kifu_from_string("1: 7g7f | 3c3d").is_none());
    assert!(kifu_from_string("").is_none());
}

// ---- terminate ----

#[test]
fn checkmate_no_legal_actions() {
    let pos = make_pos(&[
        (Square::new(1, 1), Piece::new(PieceKind::King, Side::Sente)),
        (Square::new(1, 2), Piece::new(PieceKind::Gold, Side::Gote)),
        (Square::new(2, 2), Piece::new(PieceKind::Gold, Side::Gote)),
        (Square::new(9, 9), Piece::new(PieceKind::King, Side::Gote)),
    ]);
    let actions = legal_actions(&pos, Side::Sente);
    assert!(actions.is_empty(), "詰み局面で合法手が残っている: {:?}", actions);
    assert_eq!(check_status(&pos), GameStatus::SenteLoses);
}

fn half_board_squares(rank_lo: u8, rank_hi: u8) -> Vec<Square> {
    let mut v = Vec::new();
    for rank in rank_lo..=rank_hi {
        for file in 1..=9u8 {
            v.push(Square::new(file, rank));
        }
    }
    v
}

fn no_repeat_kifu(n_plies: usize) -> Kifu {
    let sente_squares = half_board_squares(1, 4);
    let gote_squares: Vec<Square> = half_board_squares(6, 9).into_iter().take(35).collect();
    let initial = make_pos(&[
        (sente_squares[0], Piece::new(PieceKind::King, Side::Sente)),
        (gote_squares[0], Piece::new(PieceKind::King, Side::Gote)),
    ]);
    let mut kifu = Kifu::new(initial);
    let mut sente_at = 0usize;
    let mut gote_at = 0usize;
    for i in 0..n_plies {
        let next_sente = (i + 1) % sente_squares.len();
        let next_gote = (i + 1) % gote_squares.len();
        kifu.push(Ply {
            sente: Action::Move { from: sente_squares[sente_at], to: sente_squares[next_sente], promote: false },
            gote: Action::Move { from: gote_squares[gote_at], to: gote_squares[next_gote], promote: false },
        });
        sente_at = next_sente;
        gote_at = next_gote;
    }
    kifu
}

#[test]
fn max_turns_boundary() {
    assert!(!check_max_turns(&no_repeat_kifu(MAX_TURNS - 1)));
    assert!(check_max_turns(&no_repeat_kifu(MAX_TURNS)));
}

#[test]
fn evaluate_ongoing_at_start() {
    assert_eq!(evaluate(&no_repeat_kifu(0)), Terminal::Ongoing);
}

#[test]
fn evaluate_king_death_takes_priority() {
    let king_sq = Square::new(5, 5);
    let gold_sq = Square::new(3, 9);
    let rook_sq = Square::new(5, 1);
    let initial = make_pos(&[
        (king_sq, Piece::new(PieceKind::King, Side::Sente)),
        (gold_sq, Piece::new(PieceKind::Gold, Side::Sente)),
        (rook_sq, Piece::new(PieceKind::Rook, Side::Gote)),
        (Square::new(9, 9), Piece::new(PieceKind::King, Side::Gote)),
    ]);
    let mut kifu = Kifu::new(initial);
    kifu.push(Ply {
        sente: Action::Move { from: gold_sq, to: Square::new(4, 9), promote: false },
        gote: Action::Move { from: rook_sq, to: king_sq, promote: false },
    });
    assert_eq!(evaluate(&kifu), Terminal::Loss { loser: Side::Sente, kind: LossKind::KingDeath });
}

#[test]
fn evaluate_mate() {
    let pos = make_pos(&[
        (Square::new(1, 1), Piece::new(PieceKind::King, Side::Sente)),
        (Square::new(1, 2), Piece::new(PieceKind::Gold, Side::Gote)),
        (Square::new(2, 2), Piece::new(PieceKind::Gold, Side::Gote)),
        (Square::new(9, 9), Piece::new(PieceKind::King, Side::Gote)),
    ]);
    let kifu = Kifu::new(pos);
    assert_eq!(evaluate(&kifu), Terminal::Loss { loser: Side::Sente, kind: LossKind::Mate });
}

#[test]
fn evaluate_mutual_mate() {
    let pos = make_pos(&[
        (Square::new(1, 1), Piece::new(PieceKind::King, Side::Sente)),
        (Square::new(1, 2), Piece::new(PieceKind::Gold, Side::Gote)),
        (Square::new(2, 2), Piece::new(PieceKind::Gold, Side::Gote)),
        (Square::new(9, 9), Piece::new(PieceKind::King, Side::Gote)),
        (Square::new(9, 8), Piece::new(PieceKind::Gold, Side::Sente)),
        (Square::new(8, 8), Piece::new(PieceKind::Gold, Side::Sente)),
    ]);
    let kifu = Kifu::new(pos);
    assert_eq!(evaluate(&kifu), Terminal::Draw { kind: DrawKind::MutualMate });
}

#[test]
fn evaluate_sennichite() {
    let a_sente = Square::new(1, 1);
    let b_sente = Square::new(2, 1);
    let a_gote = Square::new(9, 9);
    let b_gote = Square::new(8, 9);
    let initial = make_pos(&[
        (a_sente, Piece::new(PieceKind::King, Side::Sente)),
        (a_gote, Piece::new(PieceKind::King, Side::Gote)),
    ]);
    let mut kifu = Kifu::new(initial);
    for i in 0..6 {
        let ply = if i % 2 == 0 {
            Ply {
                sente: Action::Move { from: a_sente, to: b_sente, promote: false },
                gote: Action::Move { from: a_gote, to: b_gote, promote: false },
            }
        } else {
            Ply {
                sente: Action::Move { from: b_sente, to: a_sente, promote: false },
                gote: Action::Move { from: b_gote, to: a_gote, promote: false },
            }
        };
        kifu.push(ply);
    }
    assert_eq!(evaluate(&kifu), Terminal::Draw { kind: DrawKind::Sennichite });
}

#[test]
fn evaluate_max_turns() {
    assert_eq!(evaluate(&no_repeat_kifu(MAX_TURNS)), Terminal::Draw { kind: DrawKind::MaxTurns });
}

#[test]
fn sennichite_needs_four_occurrences() {
    let a_sente = Square::new(1, 1);
    let b_sente = Square::new(2, 1);
    let a_gote = Square::new(9, 9);
    let b_gote = Square::new(8, 9);
    let initial = make_pos(&[
        (a_sente, Piece::new(PieceKind::King, Side::Sente)),
        (a_gote, Piece::new(PieceKind::King, Side::Gote)),
    ]);
    let mut kifu = Kifu::new(initial);
    for i in 0..5 {
        let ply = if i % 2 == 0 {
            Ply { sente: Action::Move { from: a_sente, to: b_sente, promote: false }, gote: Action::Move { from: a_gote, to: b_gote, promote: false } }
        } else {
            Ply { sente: Action::Move { from: b_sente, to: a_sente, promote: false }, gote: Action::Move { from: b_gote, to: a_gote, promote: false } }
        };
        kifu.push(ply);
    }
    // the starting content has occurred three times, the other one three times
    assert!(!check_sennichite(&kifu));
    kifu.push(Ply { sente: Action::Move { from: b_sente, to: a_sente, promote: false }, gote: Action::Move { from: b_gote, to: a_gote, promote: false } });
    assert!(check_sennichite(&kifu));
}

#[test]
fn king_death_events_end_the_game() {
    assert_eq!(check_king_death(&ResolutionEvent::SenteDied), Some(GameEnd::SenteLoses));
    assert_eq!(check_king_death(&ResolutionEvent::GoteDied), Some(GameEnd::GoteLoses));
    assert_eq!(check_king_death(&ResolutionEvent::BothDied), Some(GameEnd::Draw));
    assert_eq!(check_king_death(&ResolutionEvent::Normal { sente_capture: None, gote_capture: None }), None);
    assert_eq!(
        check_king_death(&ResolutionEvent::Clash { sente_piece: PieceKind::Pawn, gote_piece: PieceKind::Pawn }),
        None
    );
}

#[test]
fn terminal_results_map_to_archive_results() {
    assert_eq!(terminal_to_result(&Terminal::Ongoing), None);
    assert_eq!(
        terminal_to_result(&Terminal::Loss { loser: Side::Sente, kind: LossKind::Mate }),
        Some((ResultKind::Mate, Outcome::GoteWins))
    );
    assert_eq!(
        terminal_to_result(&Terminal::Loss { loser: Side::Gote, kind: LossKind::KingDeath }),
        Some((ResultKind::KingDeath, Outcome::SenteWins))
    );
    assert_eq!(
        terminal_to_result(&Terminal::Draw { kind: DrawKind::BothKingsDied }),
        Some((ResultKind::SwapDraw, Outcome::Draw))
    );
    assert_eq!(
        terminal_to_result(&Terminal::Draw { kind: DrawKind::MutualMate }),
        Some((ResultKind::Mate, Outcome::Draw))
    );
    assert_eq!(
        terminal_to_result(&Terminal::Draw { kind: DrawKind::Sennichite }),
        Some((ResultKind::Sennichite, Outcome::Draw))
    );
    assert_eq!(
        terminal_to_result(&Terminal::Draw { kind: DrawKind::MaxTurns }),
        Some((ResultKind::MaxTurns, Outcome::Draw))
    );
}

#[test]
fn initial_position_is_ongoing() {
    assert_eq!(check_status(&Position::initial()), GameStatus::Ongoing);
}

// ---- archive ----

fn initial_kifu() -> Kifu {
    Kifu::new(sfen_to_position(INITIAL_SFEN).unwrap())
}

fn default_meta() -> ArchiveMeta {
    ArchiveMeta {
        rule: (0, 5),
        protocol: 2,
        app: Some("0.8.0".to_string()),
        sente: None,
        gote: None,
        result: ArchiveResult { kind: ResultKind::Unfinished, outcome: Outcome::Undecided },
    }
}

#[test]
fn round_trip() {
    let mut kifu = initial_kifu();
    kifu.push(test_ply());
    let meta = default_meta();
    let archive = kifu_to_archive(&kifu, &meta);
    let (kifu2, meta2) = archive_to_kifu(&archive).expect("parse failed");
    assert_eq!(kifu2.plies.len(), kifu.plies.len());
    assert_eq!(kifu2.plies[0], kifu.plies[0]);
    assert_eq!(meta2.rule, meta.rule);
    assert_eq!(meta2.protocol, meta.protocol);
    assert_eq!(meta2.app, meta.app);
    assert_eq!(meta2.result, meta.result);
}

#[test]
fn deterministic() {
    let kifu = initial_kifu();
    let meta = default_meta();
    let a1 = kifu_to_archive(&kifu, &meta);
    let a2 = kifu_to_archive(&kifu, &meta);
    assert_eq!(a1, a2);
}

#[test]
fn header_order() {
    let kifu = initial_kifu();
    let meta = default_meta();
    let archive = kifu_to_archive(&kifu, &meta);
    let lines: Vec<&str> = archive.lines().collect();
    assert!(lines[0].starts_with("fukanzen-shogi-archive "));
    assert!(lines[1].starts_with("rule "));
    assert!(lines[2].starts_with("protocol "));
    assert!(lines[3].starts_with("app "));
    assert!(lines[4].starts_with("sente "));
    assert!(lines[5].starts_with("gote "));
    assert!(lines[6].starts_with("result "));
    assert!(lines[7].starts_with("sfen "));
}

#[test]
fn backward_compat_old_kifu() {
    let old = "sfen lnsgkgsnl/1r5b1/ppppppppp/9/9/9/PPPPPPPPP/1B5R1/LNSGKGSNL b - 1\n1: 7g7f | 3c3d";
    let (kifu, meta) = archive_to_kifu(old).expect("old format should parse");
    assert_eq!(kifu.plies.len(), 1);
    assert_eq!(meta.result.kind, ResultKind::Unfinished);
    assert_eq!(meta.result.outcome, Outcome::Undecided);
}

#[test]
fn forward_compat_unknown_header() {
    let archive = "fukanzen-shogi-archive 1\nrule 0.5\nprotocol 2\napp -\nsente -\ngote -\nunknown_key some_value\nresult unfinished none\nsfen lnsgkgsnl/1r5b1/ppppppppp/9/9/9/PPPPPPPPP/1B5R1/LNSGKGSNL b - 1\n";
    let (kifu, meta) = archive_to_kifu(archive).expect("unknown key should be ignored");
    assert_eq!(kifu.plies.len(), 0);
    assert_eq!(meta.rule, (0, 5));
}

#[test]
fn result_round_trip() {
    let kinds = [
        ResultKind::Mate,
        ResultKind::KingDeath,
        ResultKind::SwapDraw,
        ResultKind::Sennichite,
        ResultKind::MaxTurns,
        ResultKind::Resign,
        ResultKind::Unfinished,
        ResultKind::Other,
    ];
    let outcomes = [Outcome::SenteWins, Outcome::GoteWins, Outcome::Draw, Outcome::Undecided];
    for k in &kinds {
        assert_eq!(ResultKind::from_str(k.to_str()), Some(k.clone()), "{:?}", k);
    }
    for o in &outcomes {
        assert_eq!(Outcome::from_str(o.to_str()), Some(o.clone()), "{:?}", o);
    }
}

#[test]
fn rule_parse() {
    let meta = ArchiveMeta {
        rule: (0, 5),
        protocol: 2,
        app: None,
        sente: None,
        gote: None,
        result: ArchiveResult { kind: ResultKind::Unfinished, outcome: Outcome::Undecided },
    };
    let kifu = initial_kifu();
    let archive = kifu_to_archive(&kifu, &meta);
    let (_, meta2) = archive_to_kifu(&archive).unwrap();
    assert_eq!(meta2.rule, (0, 5));
}

#[test]
fn optional_fields_roundtrip() {
    let meta = ArchiveMeta {
        rule: (0, 5),
        protocol: 2,
        app: Some("0.8.0".to_string()),
        sente: Some("alice".to_string()),
        gote: Some("bob".to_string()),
        result: ArchiveResult { kind: ResultKind::Mate, outcome: Outcome::SenteWins },
    };
    let kifu = initial_kifu();
    let archive = kifu_to_archive(&kifu, &meta);
    let (_, meta2) = archive_to_kifu(&archive).unwrap();
    assert_eq!(meta2.sente, Some("alice".to_string()));
    assert_eq!(meta2.gote, Some("bob".to_string()));
    assert_eq!(meta2.app, Some("0.8.0".to_string()));
    assert_eq!(meta2.result.kind, ResultKind::Mate);
    assert_eq!(meta2.result.outcome, Outcome::SenteWins);
}

#[test]
fn archive_exact_text() {
    let mut kifu = initial_kifu();
    kifu.push(test_ply());
    let archive = kifu_to_archive(&kifu, &default_meta());
    let expected = format!(
        "{} {}\nrule 0.5\nprotocol 2\napp 0.8.0\nsente -\ngote -\nresult unfinished none\nsfen {}\n1: 7g7f | 3c3d",
        MAGIC, ARCHIVE_FORMAT_VERSION, INITIAL_SFEN
    );
    assert_eq!(archive, expected);
}

#[test]
fn archive_rejects_broken_input() {
    assert!(archive_to_kifu("").is_none());
    assert!(archive_to_kifu("this is not an archive").is_none());
    let bad_result = "fukanzen-shogi-archive 1\nrule 0.5\nprotocol 2\nresult nonsense none\nsfen lnsgkgsnl/1r5b1/ppppppppp/9/9/9/PPPPPPPPP/1B5R1/LNSGKGSNL b - 1\n";
    assert!(archive_to_kifu(bad_result).is_none());
    let missing_rule = "fukanzen-shogi-archive 1\nprotocol 2\nresult unfinished none\nsfen lnsgkgsnl/1r5b1/ppppppppp/9/9/9/PPPPPPPPP/1B5R1/LNSGKGSNL b - 1\n";
    assert!(archive_to_kifu(missing_rule).is_none());
}

#[test]
fn result_names_reject_unknown_words() {
    assert_eq!(ResultKind::from_str("checkmate"), None);
    assert_eq!(Outcome::from_str(""), None);
    assert_eq!(ResultKind::KingDeath.to_str(), "king_death");
    assert_eq!(Outcome::Undecided.to_str(), "none");
}
