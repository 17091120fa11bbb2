use fukanzen_shogi::desk::keys::{handle_click, handle_key, Key, KeyOutcome, KeyPress};
use fukanzen_shogi::desk::state::App;
use fukanzen_shogi::desk::{
    build_resolution_text, game_over_text, piece_kind_ja, DrawReason, FocusArea, GameOverKind,
    InputMode, Phase, Selection, WinReason,
};
use fukanzen_shogi::board::{Board, Hand, Position};
use fukanzen_shogi::resolve::{resolve, ResolutionEvent};
use fukanzen_shogi::types::{Action, Piece, PieceKind, Side, Square};

fn key(c: char) -> KeyPress {
    KeyPress { code: Key::Char(c), ctrl: false }
}

fn press(code: Key) -> KeyPress {
    KeyPress { code, ctrl: false }
}

#[test]
fn fresh_desk() {
    let app = App::new();
    assert_eq!(app.phase, Phase::SenteInput);
    assert_eq!((app.cursor_file, app.cursor_rank), (5, 9));
    assert_eq!(app.message, "'?'キーでヘルプを表示");
    assert!(app.kifu.plies.is_empty());
    assert_eq!(app.current_side(), Some(Side::Sente));
    assert_eq!(app.cursor_sq(), Square::new(5, 9));
    assert_eq!(app.current_pos(), Position::initial());
}

#[test]
fn select_pawn_highlights_its_square_ahead() {
    let mut app = App::new();
    app.on_board_press(Square::new(7, 7), Side::Sente);
    assert_eq!(app.selection, Selection::BoardPiece(Square::new(7, 7)));
    assert_eq!(app.highlights, vec![Square::new(7, 6)]);
    assert_eq!(app.message, "歩を選択 — 移動先を選んでください（Escでキャンセル）");
    // pressing the same square again drops the selection
    app.on_board_press(Square::new(7, 7), Side::Sente);
    assert_eq!(app.selection, Selection::Empty);
    assert!(app.highlights.is_empty());
}

#[test]
fn board_press_messages() {
    let mut app = App::new();
    app.on_board_press(Square::new(5, 5), Side::Sente);
    assert_eq!(app.message, "その位置に駒がありません");
    app.on_board_press(Square::new(3, 3), Side::Sente);
    assert_eq!(app.message, "自分の駒を選んでください");
    app.on_board_press(Square::new(7, 7), Side::Sente);
    app.on_board_press(Square::new(5, 5), Side::Sente);
    assert_eq!(app.message, "合法手ではありません");
    // picking another own piece re-selects it
    app.on_board_press(Square::new(2, 7), Side::Sente);
    assert_eq!(app.selection, Selection::BoardPiece(Square::new(2, 7)));
    assert_eq!(app.message, "歩を選択");
}

fn play_turn(app: &mut App, s: (Square, Square), g: (Square, Square)) {
    app.on_board_press(s.0, Side::Sente);
    app.on_board_press(s.1, Side::Sente);
    assert_eq!(app.phase, Phase::GoteInput);
    app.on_board_press(g.0, Side::Gote);
    app.on_board_press(g.1, Side::Gote);
    assert_eq!(app.phase, Phase::ResolveReady);
    app.on_enter();
}

#[test]
fn a_full_turn_on_the_desk() {
    let mut app = App::new();
    app.on_board_press(Square::new(7, 7), Side::Sente);
    app.on_board_press(Square::new(7, 6), Side::Sente);
    assert_eq!(app.phase, Phase::GoteInput);
    assert_eq!(app.message, "先手: 7g7f 確定。後手の着手を入力してください");
    assert_eq!((app.cursor_file, app.cursor_rank), (5, 1));
    app.on_board_press(Square::new(3, 3), Side::Gote);
    app.on_board_press(Square::new(3, 4), Side::Gote);
    assert_eq!(app.phase, Phase::ResolveReady);
    assert_eq!(app.message, "後手: 3c3d 確定。[Enter]で解決");
    app.on_enter();
    assert_eq!(app.phase, Phase::SenteInput);
    assert_eq!(app.kifu.plies.len(), 1);
    assert_eq!(app.last_resolution, vec!["先手: 7g7f  後手: 3c3d".to_string(), "取得なし（逃げ・空き移動）".to_string()]);
    assert_eq!(app.message, "");
    assert_eq!(app.current_pos().move_number, 2);
    // undo takes the turn back
    app.undo();
    assert!(app.kifu.plies.is_empty());
    assert_eq!(app.message, "1ターン戻しました");
    app.undo();
    assert_eq!(app.message, "取り消せる手がありません");
}

#[test]
fn undo_resets_a_turn_being_entered() {
    let mut app = App::new();
    play_turn(&mut app, (Square::new(7, 7), Square::new(7, 6)), (Square::new(3, 3), Square::new(3, 4)));
    app.on_board_press(Square::new(2, 7), Side::Sente);
    app.on_board_press(Square::new(2, 6), Side::Sente);
    assert_eq!(app.phase, Phase::GoteInput);
    app.undo();
    assert_eq!(app.phase, Phase::SenteInput);
    assert_eq!(app.sente_action, None);
    assert_eq!(app.kifu.plies.len(), 1);
    assert_eq!(app.message, "入力をリセットしました");
}

#[test]
fn escape_and_resign() {
    let mut app = App::new();
    app.on_board_press(Square::new(7, 7), Side::Sente);
    app.on_escape();
    assert_eq!(app.selection, Selection::Empty);
    assert_eq!(app.message, "選択解除");
    app.resign();
    assert_eq!(app.phase, Phase::GameOver(GameOverKind::GoteWins(WinReason::Resign)));
    assert_eq!(app.message, "先手投了");
    app.resign();
    assert_eq!(app.message, "現在投了できません");
    app.new_game();
    assert_eq!(app.phase, Phase::SenteInput);
}

#[test]
fn escape_before_resolution_takes_back_gote_action() {
    let mut app = App::new();
    app.on_board_press(Square::new(7, 7), Side::Sente);
    app.on_board_press(Square::new(7, 6), Side::Sente);
    app.on_board_press(Square::new(3, 3), Side::Gote);
    app.on_board_press(Square::new(3, 4), Side::Gote);
    app.on_escape();
    assert_eq!(app.phase, Phase::GoteInput);
    assert_eq!(app.gote_action, None);
    assert_eq!(app.message, "後手の着手をリセット");
}

fn desk_with(board: Board, sente_hand: Hand, gote_hand: Hand) -> App {
    let mut app = App::new();
    app.kifu.initial_position = Position { board, hand_sente: sente_hand, hand_gote: gote_hand, move_number: 1 };
    app
}

#[test]
fn promotion_question_and_answers() {
    let mut board = Board::empty();
    board.set(Square::new(5, 9), Some(Piece::new(PieceKind::King, Side::Sente)));
    board.set(Square::new(9, 1), Some(Piece::new(PieceKind::King, Side::Gote)));
    board.set(Square::new(2, 4), Some(Piece::new(PieceKind::Silver, Side::Sente)));
    let mut app = desk_with(board, Hand::empty(), Hand::empty());
    app.on_board_press(Square::new(2, 4), Side::Sente);
    app.on_board_press(Square::new(2, 3), Side::Sente);
    assert_eq!(
        app.phase,
        Phase::PromotionChoice { from: Square::new(2, 4), to: Square::new(2, 3), side: Side::Sente }
    );
    assert_eq!(app.message, "[y]/[p]成る  [n]成らない  [Esc]キャンセル");
    app.cancel_promotion();
    assert_eq!(app.phase, Phase::SenteInput);
    assert_eq!(app.message, "キャンセルしました");
    app.on_board_press(Square::new(2, 4), Side::Sente);
    app.on_board_press(Square::new(2, 3), Side::Sente);
    app.apply_promotion(true);
    assert_eq!(
        app.sente_action,
        Some(Action::Move { from: Square::new(2, 4), to: Square::new(2, 3), promote: true })
    );
    assert_eq!(app.message, "先手: 2d2c+ 確定。後手の着手を入力してください");
}

#[test]
fn hand_selection_and_drop() {
    let mut board = Board::empty();
    board.set(Square::new(5, 9), Some(Piece::new(PieceKind::King, Side::Sente)));
    board.set(Square::new(5, 1), Some(Piece::new(PieceKind::King, Side::Gote)));
    let mut sh = Hand::empty();
    sh.add(PieceKind::Gold);
    sh.add(PieceKind::Pawn);
    let mut app = desk_with(board, sh, Hand::empty());
    app.toggle_hand_focus();
    assert_eq!(app.focus, FocusArea::Hand);
    assert_eq!(app.selection, Selection::HandPiece(PieceKind::Pawn));
    assert_eq!(app.message, "駒台: 歩選択中 — ←→で変更、Enterで確定、Escでキャンセル");
    app.move_hand_cursor(1);
    assert_eq!(app.selection, Selection::HandPiece(PieceKind::Gold));
    assert_eq!(app.hand_cursor, 1);
    app.move_hand_cursor(1);
    assert_eq!(app.selection, Selection::HandPiece(PieceKind::Pawn));
    assert_eq!(app.hand_cursor, 0);
    app.move_hand_cursor(-1);
    assert_eq!(app.hand_cursor, 1);
    app.on_enter();
    assert_eq!(app.focus, FocusArea::Board);
    assert_eq!(app.message, "金を持っています — 打ち先のマスを選んでください");
    assert!(app.highlights.contains(&Square::new(5, 5)));
    assert!(!app.highlights.contains(&Square::new(5, 9)));
    app.on_board_press(Square::new(5, 5), Side::Sente);
    assert_eq!(app.sente_action, Some(Action::Drop { kind: PieceKind::Gold, to: Square::new(5, 5) }));
    // gote holds nothing
    app.toggle_hand_focus();
    assert_eq!(app.message, "持ち駒がありません");
}

#[test]
fn direct_hand_pick() {
    let mut app = App::new();
    app.select_hand_piece_direct(PieceKind::Rook);
    assert_eq!(app.message, "飛は持ち駒にありません");
    let mut board = Board::empty();
    board.set(Square::new(5, 9), Some(Piece::new(PieceKind::King, Side::Sente)));
    board.set(Square::new(5, 1), Some(Piece::new(PieceKind::King, Side::Gote)));
    let mut sh = Hand::empty();
    sh.add(PieceKind::Rook);
    let mut app = desk_with(board, sh, Hand::empty());
    app.select_hand_piece_direct(PieceKind::Rook);
    assert_eq!(app.selection, Selection::HandPiece(PieceKind::Rook));
    assert_eq!(app.focus, FocusArea::Board);
    assert_eq!(app.message, "飛打ち — 移動先を選んでください");
    assert_eq!(app.highlights.len(), 79);
}

#[test]
fn king_death_ends_the_game_on_the_desk() {
    let mut board = Board::empty();
    board.set(Square::new(5, 5), Some(Piece::new(PieceKind::King, Side::Sente)));
    board.set(Square::new(3, 9), Some(Piece::new(PieceKind::Gold, Side::Sente)));
    board.set(Square::new(5, 1), Some(Piece::new(PieceKind::Rook, Side::Gote)));
    board.set(Square::new(9, 9), Some(Piece::new(PieceKind::King, Side::Gote)));
    let mut app = desk_with(board, Hand::empty(), Hand::empty());
    app.sente_action = Some(Action::Move { from: Square::new(3, 9), to: Square::new(4, 9), promote: false });
    app.gote_action = Some(Action::Move { from: Square::new(5, 1), to: Square::new(5, 5), promote: false });
    app.phase = Phase::ResolveReady;
    app.resolve_turn();
    assert_eq!(app.phase, Phase::GameOver(GameOverKind::GoteWins(WinReason::KingDied)));
    assert_eq!(app.last_resolution.last().unwrap(), "→ 後手の勝ち（先手玉が取られた）");
    assert_eq!(app.last_resolution[1], "先手玉が取られた！");
    // after the game, u takes the turn back
    app.undo();
    assert_eq!(app.phase, Phase::SenteInput);
    assert!(app.kifu.plies.is_empty());
}

#[test]
fn unresolvable_turn_is_refused() {
    let mut app = App::new();
    app.sente_action = Some(Action::Move { from: Square::new(5, 5), to: Square::new(5, 4), promote: false });
    app.gote_action = Some(Action::Move { from: Square::new(3, 3), to: Square::new(3, 4), promote: false });
    app.phase = Phase::ResolveReady;
    app.resolve_turn();
    assert_eq!(app.message, "この組手は解決できません");
    assert!(app.kifu.plies.is_empty());
}

#[test]
fn toggles_and_record_text() {
    let mut app = App::new();
    app.toggle_sfen();
    assert!(app.show_sfen);
    assert_eq!(app.sfen_text, "lnsgkgsnl/1r5b1/ppppppppp/9/9/9/PPPPPPPPP/1B5R1/LNSGKGSNL b - 1");
    app.toggle_sfen();
    assert!(!app.show_sfen);
    app.toggle_all_moves();
    assert!(app.show_all_moves);
    assert_eq!(app.all_moves_text.len(), 30);
    assert!(app.all_moves_text.contains(&"7g7f".to_string()));
    assert_eq!(app.message, "先手 の合法手: 30手");
    app.toggle_all_moves();
    assert!(app.all_moves_text.is_empty());
    let text = app.record_text();
    assert_eq!(text, "sfen lnsgkgsnl/1r5b1/ppppppppp/9/9/9/PPPPPPPPP/1B5R1/LNSGKGSNL b - 1");
    app.record_saved("a.kifu");
    assert_eq!(app.message, "棋譜を a.kifu に保存しました");
    app.record_save_failed("disk full");
    assert_eq!(app.message, "保存エラー: disk full");
    app.record_load_failed("not found");
    assert_eq!(app.message, "読み込みエラー: not found");
}

#[test]
fn load_text_replaces_the_game() {
    let mut app = App::new();
    let text = "sfen lnsgkgsnl/1r5b1/ppppppppp/9/9/9/PPPPPPPPP/1B5R1/LNSGKGSNL b - 1\n1: 7g7f | 3c3d";
    app.load_text(text, "g.kifu");
    assert_eq!(app.kifu.plies.len(), 1);
    assert_eq!(app.message, "g.kifu を読み込みました");
    app.load_text("garbage", "g.kifu");
    assert_eq!(app.message, "棋譜のパースに失敗しました");
    assert_eq!(app.kifu.plies.len(), 1);
    app.load_text("sfen lnsgkgsnl/1r5b1/ppppppppp/9/9/9/PPPPPPPPP/1B5R1/LNSGKGSNL b - 1\n1: 5e5d | 3c3d", "h.kifu");
    assert_eq!(app.message, "棋譜を再生できません");
    assert_eq!(app.kifu.plies.len(), 1);
}

#[test]
fn names_and_game_over_lines() {
    assert_eq!(piece_kind_ja(PieceKind::ProLance), "杏");
    assert_eq!(piece_kind_ja(PieceKind::Dragon), "龍");
    assert_eq!(game_over_text(&GameOverKind::Draw(DrawReason::Sennichite)), "引き分け（千日手）");
    assert_eq!(game_over_text(&GameOverKind::SenteWins(WinReason::Checkmate)), "先手の勝ち（後手着手不能）");
}

#[test]
fn resolution_lines_mark_the_kings_counterstroke() {
    let mut board = Board::empty();
    board.set(Square::new(5, 5), Some(Piece::new(PieceKind::King, Side::Sente)));
    board.set(Square::new(5, 4), Some(Piece::new(PieceKind::Silver, Side::Gote)));
    board.set(Square::new(9, 1), Some(Piece::new(PieceKind::King, Side::Gote)));
    let pos = Position { board, hand_sente: Hand::empty(), hand_gote: Hand::empty(), move_number: 1 };
    let s = Action::Move { from: Square::new(5, 5), to: Square::new(5, 4), promote: false };
    let g = Action::Move { from: Square::new(5, 4), to: Square::new(5, 5), promote: false };
    let res = resolve(&pos, s, g);
    let lines = build_resolution_text(&pos, s, g, &res.event);
    assert_eq!(lines, vec!["先手: 5e5d  後手: 5d5e".to_string(), "★戦国無双: 先手玉が銀を斬り返した".to_string()]);
    let clash = build_resolution_text(
        &pos,
        s,
        g,
        &ResolutionEvent::Clash { sente_piece: PieceKind::Dragon, gote_piece: PieceKind::ProPawn },
    );
    assert_eq!(clash[1], "相討ち: 先手の飛と後手の歩が交換");
}

// ---- keys and clicks ----

#[test]
fn keys_move_the_cursor_and_quit() {
    let mut app = App::new();
    assert_eq!(handle_key(press(Key::Up), &mut app), KeyOutcome::Continue);
    assert_eq!((app.cursor_file, app.cursor_rank), (5, 8));
    handle_key(press(Key::Left), &mut app);
    assert_eq!(app.cursor_file, 6);
    handle_key(press(Key::Right), &mut app);
    handle_key(press(Key::Right), &mut app);
    assert_eq!(app.cursor_file, 4);
    for _ in 0..12 {
        handle_key(press(Key::Down), &mut app);
    }
    assert_eq!(app.cursor_rank, 9);
    assert_eq!(handle_key(key('q'), &mut app), KeyOutcome::Quit);
    assert_eq!(handle_key(KeyPress { code: Key::Char('c'), ctrl: true }, &mut app), KeyOutcome::Quit);
    assert_eq!(handle_key(key('c'), &mut app), KeyOutcome::Continue);
}

#[test]
fn keys_enter_a_turn() {
    let mut app = App::new();
    // cursor to 7g: file 7 is two steps left of 5
    handle_key(press(Key::Left), &mut app);
    handle_key(press(Key::Left), &mut app);
    handle_key(press(Key::Up), &mut app);
    handle_key(press(Key::Up), &mut app);
    assert_eq!(app.cursor_sq(), Square::new(7, 7));
    handle_key(press(Key::Enter), &mut app);
    handle_key(press(Key::Up), &mut app);
    handle_key(key(' '), &mut app);
    assert_eq!(app.sente_action, Some(Action::from_usi("7g7f").unwrap()));
    assert_eq!(app.phase, Phase::GoteInput);
}

#[test]
fn keys_for_files_and_help() {
    let mut app = App::new();
    assert_eq!(handle_key(key('s'), &mut app), KeyOutcome::Save("shogi_game.kifu".to_string()));
    assert_eq!(handle_key(key('l'), &mut app), KeyOutcome::Load("shogi_game.kifu".to_string()));
    handle_key(key('S'), &mut app);
    assert_eq!(app.input_mode, InputMode::SavePath);
    for c in " my.kifu ".chars() {
        handle_key(key(c), &mut app);
    }
    handle_key(key('x'), &mut app);
    handle_key(press(Key::Backspace), &mut app);
    assert_eq!(app.input_buffer, " my.kifu ");
    assert_eq!(handle_key(press(Key::Enter), &mut app), KeyOutcome::Save("my.kifu".to_string()));
    assert_eq!(app.input_mode, InputMode::Normal);
    handle_key(key('L'), &mut app);
    assert_eq!(app.input_mode, InputMode::LoadPath);
    handle_key(press(Key::Esc), &mut app);
    assert_eq!(app.input_mode, InputMode::Normal);
    assert_eq!(app.message, "キャンセルしました");
    handle_key(key('?'), &mut app);
    assert!(app.show_help);
    handle_key(key('h'), &mut app);
    assert!(!app.show_help);
    handle_key(key('f'), &mut app);
    assert!(app.show_sfen);
    handle_key(key('m'), &mut app);
    assert!(app.show_all_moves);
    handle_key(key('7'), &mut app);
    assert_eq!(app.message, "飛は持ち駒にありません");
}

#[test]
fn keys_after_the_game() {
    let mut app = App::new();
    handle_key(key('r'), &mut app);
    assert_eq!(app.phase, Phase::GameOver(GameOverKind::GoteWins(WinReason::Resign)));
    assert_eq!(handle_key(press(Key::Up), &mut app), KeyOutcome::Continue);
    assert_eq!(app.cursor_rank, 9);
    handle_key(key('n'), &mut app);
    assert_eq!(app.phase, Phase::SenteInput);
    assert_eq!(app.message, "'?'キーでヘルプを表示");
    handle_key(key('r'), &mut app);
    assert_eq!(handle_key(key('Q'), &mut app), KeyOutcome::Quit);
}

#[test]
fn keys_on_the_promotion_question() {
    let mut board = Board::empty();
    board.set(Square::new(5, 9), Some(Piece::new(PieceKind::King, Side::Sente)));
    board.set(Square::new(9, 1), Some(Piece::new(PieceKind::King, Side::Gote)));
    board.set(Square::new(2, 4), Some(Piece::new(PieceKind::Silver, Side::Sente)));
    let mut app = desk_with(board, Hand::empty(), Hand::empty());
    app.on_board_press(Square::new(2, 4), Side::Sente);
    app.on_board_press(Square::new(2, 3), Side::Sente);
    handle_key(key('n'), &mut app);
    assert_eq!(
        app.sente_action,
        Some(Action::Move { from: Square::new(2, 4), to: Square::new(2, 3), promote: false })
    );
}

#[test]
fn clicks_press_board_cells() {
    let mut app = App::new();
    // rank 7 is inner row 8, screen row 9; file 7 is cell 2, columns 9..11
    handle_click(9, 9, 24, &mut app);
    assert_eq!((app.cursor_file, app.cursor_rank), (7, 7));
    assert_eq!(app.selection, Selection::BoardPiece(Square::new(7, 7)));
    // outside the board panel nothing happens
    handle_click(40, 9, 24, &mut app);
    assert_eq!(app.selection, Selection::BoardPiece(Square::new(7, 7)));
    // the gote hand row does nothing while sente enters
    handle_click(5, 1, 24, &mut app);
    assert_eq!(app.focus, FocusArea::Board);
    // the sente hand row toggles the hand (empty here)
    handle_click(5, 12, 24, &mut app);
    assert_eq!(app.message, "持ち駒がありません");
}
