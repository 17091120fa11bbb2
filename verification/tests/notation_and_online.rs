use fukanzen_shogi::board::Position;
use fukanzen_shogi::movegen::legal_actions;
use fukanzen_shogi::notation::{disambiguate, ja_notation, piece_ja, sq_ja};
use fukanzen_shogi::online::{abort_to, format_version_mismatch, turn_actions_are_legal, OnlinePhase};
use fukanzen_shogi::protocol::negotiate::{NegotiationOutcome, VersionTuple};
use fukanzen_shogi::serialize::sfen_to_position;
use fukanzen_shogi::types::{Action, PieceKind, Side, Square};

fn pos(sfen: &str) -> Position {
    sfen_to_position(sfen).expect("bad sfen")
}

fn legal(sfen: &str, side: Side) -> Vec<Action> {
    legal_actions(&pos(sfen), side)
}

const START: &str = "lnsgkgsnl/1r5b1/ppppppppp/9/9/9/PPPPPPPPP/1B5R1/LNSGKGSNL b - 1";

// ---- notation ----

#[test]
fn pawn_no_disambig() {
    let p = pos(START);
    let la = legal(START, Side::Sente);
    let action = Action::from_usi("7g7f").unwrap();
    assert_eq!(ja_notation(&action, Side::Sente, &la, &p), "７六歩");
}

#[test]
fn gold_right_disambig() {
    let p = pos(START);
    let la = legal(START, Side::Sente);
    let action = Action::from_usi("4i5h").unwrap();
    assert_eq!(ja_notation(&action, Side::Sente, &la, &p), "５八金右");
}

#[test]
fn gold_left_disambig() {
    let p = pos(START);
    let la = legal(START, Side::Sente);
    let action = Action::from_usi("6i5h").unwrap();
    assert_eq!(ja_notation(&action, Side::Sente, &la, &p), "５八金左");
}

#[test]
fn bishop_promote() {
    let p = pos(START);
    let la = legal(START, Side::Sente);
    let action = Action::from_usi("8h2b+").unwrap();
    assert_eq!(ja_notation(&action, Side::Sente, &la, &p), "２二角成");
}

#[test]
fn bishop_no_promote() {
    let p = pos(START);
    let la = legal(START, Side::Sente);
    let action = Action::from_usi("8h2b").unwrap();
    assert_eq!(ja_notation(&action, Side::Sente, &la, &p), "２二角不成");
}

#[test]
fn pawn_drop_no_uchi() {
    let sfen = "lnsgkgsnl/1r5b1/ppppppppp/9/9/9/1PPPPPPPP/1B5R1/LNSGKGSNL b P 1";
    let p = pos(sfen);
    let la = legal(sfen, Side::Sente);
    let action = Action::from_usi("P*9f").unwrap();
    assert_eq!(ja_notation(&action, Side::Sente, &la, &p), "９六歩");
}

#[test]
fn pawn_drop_needs_uchi() {
    let sfen = "lnsgkgsnl/1r5b1/ppppppppp/9/9/9/1PPPPPPPP/1B5R1/LNSGKGSNL b P 1";
    let p = pos(sfen);
    let la = legal(sfen, Side::Sente);
    let action = Action::from_usi("P*8f").unwrap();
    assert_eq!(ja_notation(&action, Side::Sente, &la, &p), "８六歩打");
}

#[test]
fn resign_notation() {
    let p = pos(START);
    assert_eq!(ja_notation(&Action::Resign, Side::Sente, &[], &p), "投了");
}

#[test]
fn sq_ja_conversion() {
    assert_eq!(sq_ja(Square::new(7, 6)), "７六");
    assert_eq!(sq_ja(Square::new(1, 1)), "１一");
    assert_eq!(sq_ja(Square::new(9, 9)), "９九");
    assert_eq!(sq_ja(Square::new(5, 5)), "５五");
}

#[test]
fn piece_names() {
    assert_eq!(piece_ja(PieceKind::Pawn), "歩");
    assert_eq!(piece_ja(PieceKind::King), "玉");
    assert_eq!(piece_ja(PieceKind::Dragon), "竜");
    assert_eq!(piece_ja(PieceKind::Horse), "馬");
}

#[test]
fn disambiguation_marks() {
    let to = Square::new(5, 8);
    // a single candidate needs no mark
    assert_eq!(disambiguate(Side::Sente, Square::new(4, 9), to, &[Square::new(4, 9)]), "");
    // two golds on the same rank: right and left, from sente's view
    let golds = [Square::new(4, 9), Square::new(6, 9)];
    assert_eq!(disambiguate(Side::Sente, Square::new(4, 9), to, &golds), "右");
    assert_eq!(disambiguate(Side::Sente, Square::new(6, 9), to, &golds), "左");
    // from gote's view right and left are swapped
    let to_g = Square::new(5, 2);
    let golds_g = [Square::new(4, 1), Square::new(6, 1)];
    assert_eq!(disambiguate(Side::Gote, Square::new(4, 1), to_g, &golds_g), "左");
    assert_eq!(disambiguate(Side::Gote, Square::new(6, 1), to_g, &golds_g), "右");
}

#[test]
fn gote_move_notation() {
    let p = pos(START);
    let la = legal(START, Side::Gote);
    let action = Action::from_usi("3c3d").unwrap();
    assert_eq!(ja_notation(&action, Side::Gote, &la, &p), "３四歩");
}

// ---- online ----

#[test]
fn legal_actions_pass() {
    let pos = Position::initial();
    let sente = Action::from_usi("7g7f").unwrap();
    let gote = Action::from_usi("3c3d").unwrap();
    assert!(turn_actions_are_legal(&pos, sente, gote));
}

#[test]
fn empty_from_square_rejected() {
    let pos = Position::initial();
    let malicious = Action::from_usi("5e5f").unwrap();
    let honest = Action::from_usi("3c3d").unwrap();
    assert!(!turn_actions_are_legal(&pos, honest, malicious));
}

#[test]
fn illegal_promote_rejected() {
    let pos = Position::initial();
    let malicious = Action::from_usi("5i5h+").unwrap();
    let honest = Action::from_usi("3c3d").unwrap();
    assert!(!turn_actions_are_legal(&pos, malicious, honest));
}

#[test]
fn cross_side_piece_rejected() {
    let pos = Position::initial();
    let malicious_gote = Action::from_usi("7g7f").unwrap();
    let honest_sente = Action::from_usi("2g2f").unwrap();
    assert!(!turn_actions_are_legal(&pos, honest_sente, malicious_gote));
}

#[test]
fn resign_is_not_a_board_action() {
    let pos = Position::initial();
    assert!(!turn_actions_are_legal(&pos, Action::Resign, Action::from_usi("3c3d").unwrap()));
}

#[test]
fn abort_records_reason() {
    let mut phase = OnlinePhase::WaitingPeerAck;
    abort_to(&mut phase, "peer left".to_string());
    assert_eq!(phase, OnlinePhase::Aborted("peer left".to_string()));
}

#[test]
fn version_mismatch_messages() {
    let mine = VersionTuple { rule: (0, 7), protocol: 3 };
    let theirs = VersionTuple { rule: (0, 6), protocol: 2 };
    let both = NegotiationOutcome::Incompatible { mine, theirs, rule_mismatch: true, protocol_mismatch: true };
    assert_eq!(
        format_version_mismatch(&both),
        "版が異なるため対戦できません。ルール版: 自分 0.7 ≠ 相手 0.6、プロトコル版: 自分 3 ≠ 相手 2"
    );
    let proto_only = NegotiationOutcome::Incompatible {
        mine,
        theirs: VersionTuple { rule: (0, 7), protocol: 12 },
        rule_mismatch: false,
        protocol_mismatch: true,
    };
    assert_eq!(format_version_mismatch(&proto_only), "版が異なるため対戦できません。プロトコル版: 自分 3 ≠ 相手 12");
    assert_eq!(
        format_version_mismatch(&NegotiationOutcome::InvalidResponse),
        "版交渉: 相手の応答が不正です。互換性のない版の可能性があります。"
    );
    assert!(format_version_mismatch(&NegotiationOutcome::Timeout).starts_with("版交渉: 相手が応答しませんでした。"));
}
