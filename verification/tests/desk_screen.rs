use fukanzen_shogi::board::{Board, Hand, Position};
use fukanzen_shogi::desk::screen::{
    board_cell_look, cell_style, cell_text, click_areas_for, hand_focus_mark, hand_item_selected,
    hand_items, hand_label, hand_piece_rects, info_lines, message_text, pending_texts, status_text,
    CellLook, InfoLook,
};
use fukanzen_shogi::desk::state::{App, Area};
use fukanzen_shogi::desk::{DrawReason, FocusArea, GameOverKind, InputMode, Phase, Selection};
use fukanzen_shogi::kifu::Kifu;
use fukanzen_shogi::types::{Action, Piece, PieceKind, Side, Square};

fn hand_of(kinds: &[PieceKind]) -> Hand {
    let mut h = Hand::empty();
    for &k in kinds {
        h.add(k);
    }
    h
}

#[test]
fn hand_rectangles_follow_the_items() {
    let h = hand_of(&[PieceKind::Silver, PieceKind::Pawn, PieceKind::Pawn]);
    let v = hand_piece_rects(&h, 5, 7);
    assert_eq!(
        v,
        vec![
            (Area { x: 15, y: 7, width: 4, height: 1 }, PieceKind::Pawn),
            (Area { x: 19, y: 7, width: 3, height: 1 }, PieceKind::Silver),
        ]
    );
    assert!(hand_piece_rects(&Hand::empty(), 0, 0).is_empty());
}

#[test]
fn hand_item_texts() {
    let h = hand_of(&[PieceKind::Rook, PieceKind::Pawn, PieceKind::Pawn, PieceKind::Pawn]);
    let v = hand_items(&h);
    assert_eq!(v, vec![("歩3 ".to_string(), PieceKind::Pawn), ("飛 ".to_string(), PieceKind::Rook)]);
    assert_eq!(hand_label(Side::Sente), "先手持駒: ");
    assert_eq!(hand_label(Side::Gote), "後手持駒: ");
}

#[test]
fn click_areas_on_a_screen() {
    let mut app = App::new();
    let screen = Area { x: 0, y: 0, width: 80, height: 24 };
    let status = Area { x: 0, y: 19, width: 80, height: 1 };
    let board = Area { x: 0, y: 0, width: 33, height: 19 };
    let c = click_areas_for(&app, screen, status, board);
    assert_eq!(c.resolve, None);
    assert_eq!(c.promote_yes, None);
    assert!(c.sente_hand.is_empty());

    app.phase = Phase::ResolveReady;
    let c = click_areas_for(&app, screen, status, board);
    assert_eq!(c.resolve, Some(status));

    app.phase = Phase::PromotionChoice { from: Square::new(2, 8), to: Square::new(2, 3), side: Side::Sente };
    let c = click_areas_for(&app, screen, status, board);
    // A 38 by 5 dialog at (21, 9): inner row 1 holds the buttons.
    assert_eq!(c.promote_yes, Some(Area { x: 22, y: 11, width: 18, height: 1 }));
    assert_eq!(c.promote_no, Some(Area { x: 40, y: 11, width: 18, height: 1 }));

    app.phase = Phase::GameOver(GameOverKind::Draw(DrawReason::Sennichite));
    let c = click_areas_for(&app, screen, status, board);
    // A 44 by 8 dialog at (18, 8).
    assert_eq!(c.gameover_undo, Some(Area { x: 19, y: 12, width: 42, height: 1 }));
    assert_eq!(c.gameover_new, Some(Area { x: 19, y: 13, width: 42, height: 1 }));
    assert_eq!(c.gameover_quit, Some(Area { x: 19, y: 14, width: 42, height: 1 }));

    let mut pos = Position::initial();
    pos.hand_sente = hand_of(&[PieceKind::Gold]);
    app.kifu = Kifu::new(pos);
    let c = click_areas_for(&app, screen, status, board);
    assert_eq!(c.sente_hand, vec![(Area { x: 11, y: 12, width: 3, height: 1 }, PieceKind::Gold)]);
    assert!(c.gote_hand.is_empty());
}

#[test]
fn cell_looks() {
    assert_eq!(cell_style(true, true, true), CellLook::Picked);
    assert_eq!(cell_style(true, false, true), CellLook::TargetUnderCursor);
    assert_eq!(cell_style(false, false, true), CellLook::Target);
    assert_eq!(cell_style(true, false, false), CellLook::Cursor);
    assert_eq!(cell_style(false, false, false), CellLook::Plain);

    let mut app = App::new();
    assert_eq!(board_cell_look(&app, Square::new(5, 9)), CellLook::Cursor);
    app.selection = Selection::BoardPiece(Square::new(7, 7));
    app.highlights = vec![Square::new(7, 6)];
    assert_eq!(board_cell_look(&app, Square::new(7, 7)), CellLook::Picked);
    assert_eq!(board_cell_look(&app, Square::new(7, 6)), CellLook::Target);
    assert_eq!(board_cell_look(&app, Square::new(1, 1)), CellLook::Plain);
}

#[test]
fn cell_texts() {
    assert_eq!(cell_text(None), " . ");
    assert_eq!(cell_text(Some(Piece::new(PieceKind::Gold, Side::Sente))), " 金");
    assert_eq!(cell_text(Some(Piece::new(PieceKind::Dragon, Side::Gote))), "v龍");
    let b = Board::empty();
    assert_eq!(cell_text(b.get(Square::new(5, 5))), " . ");
}

#[test]
fn hand_line_marks() {
    let mut app = App::new();
    app.selection = Selection::HandPiece(PieceKind::Pawn);
    app.focus = FocusArea::Hand;
    assert!(hand_item_selected(&app, Side::Sente, PieceKind::Pawn));
    assert!(!hand_item_selected(&app, Side::Gote, PieceKind::Pawn));
    assert!(hand_focus_mark(&app, Side::Sente));
    app.phase = Phase::ResolveReady;
    assert!(!hand_focus_mark(&app, Side::Sente));
}

#[test]
fn status_pending_and_message() {
    assert_eq!(status_text(&Phase::SenteInput), "先手 入力中");
    assert_eq!(
        status_text(&Phase::PromotionChoice { from: Square::new(2, 8), to: Square::new(2, 3), side: Side::Gote }),
        "後手 成り選択中"
    );
    assert_eq!(
        status_text(&Phase::GameOver(GameOverKind::Draw(DrawReason::Sennichite))),
        "対局終了: 引き分け（千日手）"
    );
    let mut app = App::new();
    app.sente_action = Some(Action::from_usi("7g7f").unwrap());
    let (s, g, line) = pending_texts(&app);
    assert_eq!(s, "7g7f");
    assert_eq!(g, "未入力");
    assert_eq!(line, "カーソル: 5i  (↑↓←→で移動、Enter/Spaceで選択)");
    app.focus = FocusArea::Hand;
    assert_eq!(pending_texts(&app).2, "駒台選択中 (←→で駒種切替、Enter確定、Esc中止)");

    assert_eq!(message_text(&app), ("'?'キーでヘルプを表示".to_string(), false));
    app.input_mode = InputMode::SavePath;
    app.input_buffer = "a.kifu".to_string();
    assert_eq!(message_text(&app), ("保存先パス: a.kifu_".to_string(), true));
}

#[test]
fn information_lines() {
    let mut app = App::new();
    let (lines, n) = info_lines(&app, 40);
    assert!(lines.is_empty());
    assert_eq!(n, 1);

    app.toggle_sfen();
    let (lines, _) = info_lines(&app, 21);
    let texts: Vec<&str> = lines.iter().map(|(t, _)| t.as_str()).collect();
    assert_eq!(
        texts,
        vec!["SFEN:", "lnsgkgsnl/1r5b1/pppp", "ppppp/9/9/9/PPPPPPPP", "P/1B5R1/LNSGKGSNL b ", "- 1", ""]
    );
    assert_eq!(lines[0].1, InfoLook::Bold);
    assert_eq!(lines[1].1, InfoLook::Plain);

    app.toggle_sfen();
    app.all_moves_text = vec!["a".to_string(), "b".to_string(), "c".to_string()];
    app.show_all_moves = true;
    let (lines, _) = info_lines(&app, 13);
    let texts: Vec<&str> = lines.iter().map(|(t, _)| t.as_str()).collect();
    assert_eq!(texts, vec!["先手 合法手 (3手):", "a b", "c", ""]);

    app.last_resolution = vec!["先手: 7g7f".to_string()];
    let (lines, _) = info_lines(&app, 13);
    assert_eq!(lines[0], ("◀ 直前の解決 ▶".to_string(), InfoLook::Heading));
    assert_eq!(lines[1], ("先手: 7g7f".to_string(), InfoLook::Plain));
    assert_eq!(lines[2], (String::new(), InfoLook::Plain));
}
