use fukanzen_shogi::browser::json::escape_json;
use fukanzen_shogi::resolve::resolve;
use fukanzen_shogi::serialize::sfen_to_position;
use fukanzen_shogi::types::{Action, Piece, PieceKind, Side, Square};

#[test]
fn slider_passes_a_square_the_other_piece_lands_on() {
    // Sente's rook runs 8h to 8b while gote's silver lands on 8d, on its path.
    let pos = sfen_to_position("4k4/9/2s6/9/9/9/9/1R7/4K4 b - 1").unwrap();
    let r = resolve(&pos, Action::from_usi("8h8b").unwrap(), Action::from_usi("7c8d").unwrap());
    assert_eq!(r.next.board.get(Square::new(8, 2)), Some(Piece::new(PieceKind::Rook, Side::Sente)));
    assert_eq!(r.next.board.get(Square::new(8, 4)), Some(Piece::new(PieceKind::Silver, Side::Gote)));
    assert_eq!(r.next.board.get(Square::new(8, 8)), None);
}

#[test]
fn escaped_text_has_no_control_characters() {
    let all: String = (0u32..0x80).filter_map(char::from_u32).collect();
    let e = escape_json(&all);
    assert!(e.chars().all(|c| (c as u32) >= 0x20));
}
