use fukanzen_shogi::board::{Board, Hand, Position};
use fukanzen_shogi::console::{
    board_lines, diagnose_illegal, game_result_line, handle_command, input_step, kifu_lines,
    load_record, opening_status, parse_side_arg, piece_display_char, resolution_report,
    settle_turn, CommandOutcome, Decision, DrawReason, GameResult, InputResult, WinReason,
};
use fukanzen_shogi::kifu::Kifu;
use fukanzen_shogi::link::{
    frame, frame_len, parse_host_port, parse_online_args, system_message, try_submit, urlencode,
    ConnectMode, DoSystemMsg,
};
use fukanzen_shogi::resolve::ResolutionEvent;
use fukanzen_shogi::types::{Action, Piece, PieceKind, Ply, Side, Square};

fn lines_of(o: &CommandOutcome) -> Vec<String> {
    match o {
        CommandOutcome::Stay(v) => v.clone(),
        CommandOutcome::Return(v, _) => v.clone(),
        _ => Vec::new(),
    }
}

// ---- console ----

#[test]
fn side_arguments() {
    assert_eq!(parse_side_arg("s"), Some(Side::Sente));
    assert_eq!(parse_side_arg("sente"), Some(Side::Sente));
    assert_eq!(parse_side_arg("g"), Some(Side::Gote));
    assert_eq!(parse_side_arg("gote"), Some(Side::Gote));
    assert_eq!(parse_side_arg("x"), None);
    assert_eq!(parse_side_arg(""), None);
}

#[test]
fn result_lines() {
    assert_eq!(game_result_line(&GameResult::SenteWins(WinReason::KingDied), 12), "まで12組手で先手の勝ち（後手玉死）");
    assert_eq!(game_result_line(&GameResult::GoteWins(WinReason::Resign), 0), "まで0組手で後手の勝ち（先手投了）");
    assert_eq!(game_result_line(&GameResult::Draw(DrawReason::Sennichite), 7), "まで7組手で引き分け（千日手）");
}

#[test]
fn board_as_printed() {
    let v = board_lines(&Position::initial());
    assert_eq!(v.len(), 17);
    assert_eq!(v[0], "");
    assert_eq!(v[1], "  組手: 0");
    assert_eq!(v[2], "後手持駒: なし");
    assert_eq!(v[5], "a|v香v桂v銀v金v玉v金v銀v桂v香|");
    assert_eq!(v[9], "e| .  .  .  .  .  .  .  .  . |");
    assert_eq!(v[12], "h| .  角 .  .  .  .  .  飛 . |");
    assert_eq!(v[15], "先手持駒: なし");
    let mut pos = Position::initial();
    pos.hand_sente.add(PieceKind::Pawn);
    pos.hand_sente.add(PieceKind::Pawn);
    pos.hand_sente.add(PieceKind::Rook);
    assert_eq!(board_lines(&pos)[15], "先手持駒: 歩2 飛 ");
    assert_eq!(piece_display_char(Piece::new(PieceKind::Horse, Side::Gote)), "v馬");
}

#[test]
fn reasons_for_refused_actions() {
    let pos = Position::initial();
    assert_eq!(
        diagnose_illegal(&pos, Side::Sente, Action::from_usi("5e5d").unwrap()),
        "  理由: 移動元に駒がありません"
    );
    assert_eq!(
        diagnose_illegal(&pos, Side::Sente, Action::from_usi("3c3d").unwrap()),
        "  理由: 自分の駒ではありません"
    );
    assert_eq!(
        diagnose_illegal(&pos, Side::Sente, Action::from_usi("7g7e").unwrap()),
        "  理由: その手は合法手の範囲外です"
    );
    let mut pawns = Position::initial();
    pawns.hand_sente.add(PieceKind::Pawn);
    assert_eq!(
        diagnose_illegal(&pawns, Side::Sente, Action::from_usi("P*5e").unwrap()),
        "  理由: 二歩（同じ筋にすでに歩があります）"
    );
    let mut board = Board::empty();
    board.set(Square::new(5, 9), Some(Piece::new(PieceKind::King, Side::Sente)));
    board.set(Square::new(9, 1), Some(Piece::new(PieceKind::King, Side::Gote)));
    board.set(Square::new(2, 2), Some(Piece::new(PieceKind::Pawn, Side::Sente)));
    let p = Position { board, hand_sente: Hand::empty(), hand_gote: Hand::empty(), move_number: 1 };
    assert_eq!(
        diagnose_illegal(&p, Side::Sente, Action::from_usi("2b2a").unwrap()),
        "  理由: この移動は成りが必須です（2b2a+ と入力してください）"
    );
}

#[test]
fn resolution_report_lines() {
    let s = Action::from_usi("7g7f").unwrap();
    let g = Action::from_usi("3c3d").unwrap();
    let v = resolution_report(&ResolutionEvent::Normal { sente_capture: Some(PieceKind::Dragon), gote_capture: None }, s, g);
    assert_eq!(
        v,
        vec![
            "  --- 解決結果 ---".to_string(),
            "  先手: 7g7f | 後手: 3c3d".to_string(),
            "  先手が 龍 を取得".to_string(),
            "  ----------------".to_string(),
        ]
    );
}

fn started() -> Kifu {
    Kifu::new(Position::initial())
}

#[test]
fn commands() {
    let mut k = started();
    let pos = k.current();
    let o = handle_command(":moves", &pos, Side::Sente, &mut k);
    let l = lines_of(&o);
    assert_eq!(l[0], "  先手 の合法手 (30 手):");
    assert!(l[1].contains("  7g7f"));
    let o = handle_command(":moves x", &pos, Side::Sente, &mut k);
    assert_eq!(lines_of(&o), vec!["  使い方: :moves [s|g]  （s=先手、g=後手）".to_string()]);
    let o = handle_command(":moves g", &pos, Side::Sente, &mut k);
    assert_eq!(lines_of(&o)[0], "  後手 の合法手 (30 手):");
    assert_eq!(lines_of(&handle_command(":undo", &pos, Side::Sente, &mut k)), vec!["  取り消せる手がありません。".to_string()]);
    assert_eq!(lines_of(&handle_command(":sfen", &pos, Side::Sente, &mut k)), vec![format!("  {}", "lnsgkgsnl/1r5b1/ppppppppp/9/9/9/PPPPPPPPP/1B5R1/LNSGKGSNL b - 1")]);
    assert_eq!(lines_of(&handle_command(":kifu", &pos, Side::Sente, &mut k)), vec!["  着手なし（初期局面）".to_string()]);
    assert_eq!(lines_of(&handle_command(":what", &pos, Side::Sente, &mut k)), vec!["  不明なコマンド: :what".to_string()]);
    assert!(matches!(handle_command(":quit", &pos, Side::Sente, &mut k), CommandOutcome::Return(_, InputResult::Quit)));
    assert!(matches!(handle_command(":exit", &pos, Side::Gote, &mut k), CommandOutcome::Return(_, InputResult::Quit)));
    assert!(matches!(
        handle_command(":resign", &pos, Side::Sente, &mut k),
        CommandOutcome::Return(_, InputResult::Decided(Decision::Resign))
    ));
    assert!(matches!(
        handle_command(":resign s", &pos, Side::Sente, &mut k),
        CommandOutcome::Return(_, InputResult::Decided(Decision::Resign))
    ));
    assert_eq!(
        lines_of(&handle_command(":resign g", &pos, Side::Sente, &mut k)),
        vec!["  現在は先手の入力フェーズです。後手の投了はその入力フェーズで行ってください。".to_string()]
    );
    match handle_command(":save out.kifu", &pos, Side::Sente, &mut k) {
        CommandOutcome::Save { path, content } => {
            assert_eq!(path, "out.kifu");
            assert_eq!(content, "sfen lnsgkgsnl/1r5b1/ppppppppp/9/9/9/PPPPPPPPP/1B5R1/LNSGKGSNL b - 1");
        }
        other => panic!("expected save, got {:?}", other),
    }
    assert_eq!(lines_of(&handle_command(":save", &pos, Side::Sente, &mut k)), vec!["  使い方: :save <ファイルパス>".to_string()]);
    match handle_command(":load in.kifu extra", &pos, Side::Sente, &mut k) {
        CommandOutcome::Load { path } => assert_eq!(path, "in.kifu"),
        other => panic!("expected load, got {:?}", other),
    }
    assert_eq!(handle_command(":board", &pos, Side::Sente, &mut k).is_stay_of_len(), 17);
}

trait StayLen {
    fn is_stay_of_len(&self) -> usize;
}

impl StayLen for CommandOutcome {
    fn is_stay_of_len(&self) -> usize {
        match self {
            CommandOutcome::Stay(v) => v.len(),
            _ => 0,
        }
    }
}

#[test]
fn undo_and_load_commands() {
    let mut k = started();
    k.push(Ply { sente: Action::from_usi("7g7f").unwrap(), gote: Action::from_usi("3c3d").unwrap() });
    let pos = k.current();
    assert!(matches!(handle_command(":undo", &pos, Side::Sente, &mut k), CommandOutcome::Return(_, InputResult::Reload)));
    assert!(k.plies.is_empty());
    let text = "sfen lnsgkgsnl/1r5b1/ppppppppp/9/9/9/PPPPPPPPP/1B5R1/LNSGKGSNL b - 1\n1: 7g7f | 3c3d";
    let o = load_record(text, "g.kifu", &mut k);
    assert_eq!(lines_of(&o), vec!["  棋譜を g.kifu から読み込みました。".to_string()]);
    assert_eq!(k.plies.len(), 1);
    assert_eq!(lines_of(&load_record("nope", "g.kifu", &mut k)), vec!["  棋譜のパースに失敗しました。".to_string()]);
    let zero = "sfen lnsgkgsnl/1r5b1/ppppppppp/9/9/9/PPPPPPPPP/1B5R1/LNSGKGSNL b - 0";
    assert_eq!(lines_of(&load_record(zero, "z.kifu", &mut k)), vec!["  棋譜を再生できません。".to_string()]);
    assert_eq!(k.plies.len(), 1);
    let kl = kifu_lines(&k, Some(GameResult::Draw(DrawReason::BothResign)));
    assert_eq!(
        kl,
        vec![
            "  棋譜（1組手）:".to_string(),
            "  1: 7g7f | 3c3d".to_string(),
            "  まで1組手で引き分け（両者投了）".to_string(),
        ]
    );
}

#[test]
fn input_lines() {
    let mut k = started();
    assert!(matches!(
        input_step("  7g7f \n", Side::Sente, &mut k),
        CommandOutcome::Return(_, InputResult::Decided(Decision::Move(_)))
    ));
    assert_eq!(
        lines_of(&input_step("hello", Side::Sente, &mut k)),
        vec!["  入力形式が不正です。USI 形式で入力してください（例: 7g7f, P*5e）".to_string()]
    );
    assert_eq!(
        lines_of(&input_step("5e5d", Side::Sente, &mut k)),
        vec![
            "  5e5d の合法手ではありません。".to_string(),
            "  理由: 移動元に駒がありません".to_string(),
            "  (:moves s または :moves g で合法手一覧を表示)".to_string(),
        ]
    );
    assert!(matches!(input_step(":quit\n", Side::Gote, &mut k), CommandOutcome::Return(_, InputResult::Quit)));
}

#[test]
fn settling_turns() {
    let mut k = started();
    let r = settle_turn(&mut k, Decision::Resign, Decision::Resign);
    assert_eq!(r.result, Some(GameResult::Draw(DrawReason::BothResign)));
    assert_eq!(r.lines, vec!["両者が同時に投了。引き分け。".to_string()]);
    let r = settle_turn(&mut k, Decision::Resign, Decision::Move(Action::from_usi("3c3d").unwrap()));
    assert_eq!(r.result, Some(GameResult::GoteWins(WinReason::Resign)));
    let r = settle_turn(&mut k, Decision::Move(Action::from_usi("7g7f").unwrap()), Decision::Resign);
    assert_eq!(r.result, Some(GameResult::SenteWins(WinReason::Resign)));
    assert!(k.plies.is_empty());
    let r = settle_turn(
        &mut k,
        Decision::Move(Action::from_usi("7g7f").unwrap()),
        Decision::Move(Action::from_usi("3c3d").unwrap()),
    );
    assert_eq!(r.result, None);
    assert_eq!(r.lines.len(), 4);
    assert_eq!(k.plies.len(), 1);
    assert_eq!(opening_status(&k.current()), None);
}

#[test]
fn settling_a_king_death_and_a_mate() {
    let mut board = Board::empty();
    board.set(Square::new(5, 5), Some(Piece::new(PieceKind::King, Side::Sente)));
    board.set(Square::new(3, 9), Some(Piece::new(PieceKind::Gold, Side::Sente)));
    board.set(Square::new(5, 1), Some(Piece::new(PieceKind::Rook, Side::Gote)));
    board.set(Square::new(9, 9), Some(Piece::new(PieceKind::King, Side::Gote)));
    let mut k = Kifu::new(Position { board, hand_sente: Hand::empty(), hand_gote: Hand::empty(), move_number: 1 });
    let r = settle_turn(
        &mut k,
        Decision::Move(Action::from_usi("3i4i").unwrap()),
        Decision::Move(Action::from_usi("5a5e").unwrap()),
    );
    assert_eq!(r.result, Some(GameResult::GoteWins(WinReason::KingDied)));
    assert_eq!(r.lines.last().unwrap(), "先手玉が取られた。後手の勝ち。");

    let mut mate = Board::empty();
    mate.set(Square::new(1, 1), Some(Piece::new(PieceKind::King, Side::Sente)));
    mate.set(Square::new(1, 2), Some(Piece::new(PieceKind::Gold, Side::Gote)));
    mate.set(Square::new(2, 2), Some(Piece::new(PieceKind::Gold, Side::Gote)));
    mate.set(Square::new(9, 9), Some(Piece::new(PieceKind::King, Side::Gote)));
    let pos = Position { board: mate, hand_sente: Hand::empty(), hand_gote: Hand::empty(), move_number: 1 };
    let (line, result) = opening_status(&pos).unwrap();
    assert_eq!(line, "先手（手前）が着手不能 — 確定的詰み。後手の勝ち。");
    assert_eq!(result, GameResult::GoteWins(WinReason::Checkmate));
}

// ---- link ----

#[test]
fn start_menu_form() {
    let c = try_submit(true, " 8765 ", "pw").unwrap();
    assert_eq!(c.local_side, Side::Sente);
    assert!(matches!(c.mode, ConnectMode::Listen(8765)));
    assert_eq!(c.secret, b"pw".to_vec());
    assert_eq!(try_submit(true, "70000", "pw").unwrap_err(), "ポート番号は 1〜65535 の整数で入力してください");
    assert_eq!(try_submit(true, "", "pw").unwrap_err(), "ポート番号は 1〜65535 の整数で入力してください");
    let c = try_submit(false, " 192.168.1.10:8765 ", "").unwrap();
    assert_eq!(c.local_side, Side::Gote);
    assert!(matches!(c.mode, ConnectMode::Connect(ref a) if a == "192.168.1.10:8765"));
    assert!(c.secret.is_empty());
    assert_eq!(try_submit(false, "   ", "pw").unwrap_err(), "接続先アドレスを入力してください (例: 192.168.1.10:8765)");
}

fn args(v: &[&str]) -> Vec<String> {
    v.iter().map(|s| s.to_string()).collect()
}

#[test]
fn command_line_settings() {
    assert!(parse_online_args(&args(&["tui"])).is_none());
    let c = parse_online_args(&args(&["tui", "--listen", "9000", "--secret", "abc"])).unwrap();
    assert!(matches!(c.mode, ConnectMode::Listen(9000)));
    assert_eq!(c.local_side, Side::Sente);
    assert_eq!(c.secret, b"abc".to_vec());
    let c = parse_online_args(&args(&["tui", "--connect", "host:1", "--listen"])).unwrap();
    assert!(matches!(c.mode, ConnectMode::Connect(ref a) if a == "host:1"));
    assert!(c.secret.is_empty());
    let c = parse_online_args(&args(&["tui", "--connect", "h:2", "--listen", "bad"])).unwrap();
    assert!(matches!(c.mode, ConnectMode::Connect(_)));
    let c = parse_online_args(&args(&["tui", "--connect", "h:2", "--listen", "80"])).unwrap();
    assert!(matches!(c.mode, ConnectMode::Listen(80)));
}

#[test]
fn room_server_messages() {
    assert_eq!(system_message("peer_joined", Some("sente")), Some(DoSystemMsg::SideAssigned { side: Side::Sente }));
    assert_eq!(system_message("room_ready", Some("gote")), Some(DoSystemMsg::SideAssigned { side: Side::Gote }));
    assert_eq!(system_message("room_ready", None), Some(DoSystemMsg::SideAssigned { side: Side::Gote }));
    assert_eq!(system_message("room_full", None), Some(DoSystemMsg::RoomFull));
    assert_eq!(system_message("peer_disconnected", None), Some(DoSystemMsg::PeerDisconnected));
    assert_eq!(system_message("peer_reconnected", None), Some(DoSystemMsg::PeerReconnected));
    assert_eq!(system_message("you_reconnected", None), Some(DoSystemMsg::YouReconnected));
    assert_eq!(system_message("commit", None), None);
}

#[test]
fn lan_frames() {
    let f = frame(b"abc");
    assert_eq!(f, vec![0, 0, 0, 3, b'a', b'b', b'c']);
    assert_eq!(frame(&vec![7u8; 300])[..4], [0, 0, 1, 44]);
    assert_eq!(frame_len([0, 0, 1, 44]), Some(300));
    assert_eq!(frame_len([0, 0, 0, 0]), None);
    assert_eq!(frame_len([0, 16, 0, 0]), Some(1048576));
    assert_eq!(frame_len([0, 16, 0, 1]), None);
}

#[test]
fn room_urls() {
    assert_eq!(parse_host_port("wss://example.org/room/abc"), Some(("example.org".to_string(), 443)));
    assert_eq!(parse_host_port("ws://localhost:8787/room/x"), Some(("localhost".to_string(), 8787)));
    assert_eq!(parse_host_port("example.org/room"), None);
    assert_eq!(parse_host_port("wss://h:notaport/x"), None);
    assert_eq!(urlencode("abc-_.~XYZ09"), "abc-_.~XYZ09");
    assert_eq!(urlencode("a b/c"), "a%20b%2Fc");
    assert_eq!(urlencode("部屋"), "%E9%83%A8%E5%B1%8B");
}
