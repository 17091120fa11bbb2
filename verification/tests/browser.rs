use fukanzen_shogi::board::{Board, Hand, Position};
use fukanzen_shogi::browser::engine::{
    build_archive, evaluate_terminal, game_status, legal_actions, max_turns, parse_archive,
    resolve_ply, ArchiveRequest, PlyRequest, TerminalRequest,
};
use fukanzen_shogi::browser::json::escape_json;
use fukanzen_shogi::browser::notation::{ja_notation, parse_legal_json};
use fukanzen_shogi::serialize::position_to_sfen;
use fukanzen_shogi::terminate::MAX_TURNS;
use fukanzen_shogi::types::{Action, Piece, PieceKind, Side, Square};

const START: &str = "lnsgkgsnl/1r5b1/ppppppppp/9/9/9/PPPPPPPPP/1B5R1/LNSGKGSNL b - 1";

fn ply(s: &str, g: &str) -> PlyRequest {
    PlyRequest { s: Some(s.to_string()), g: Some(g.to_string()) }
}

fn archive_request(initial_sfen: &str, plies: Vec<PlyRequest>, kind: &str, outcome: &str) -> ArchiveRequest {
    ArchiveRequest {
        initial_sfen: Some(initial_sfen.to_string()),
        plies: Some(plies),
        rule: Some("0.5".to_string()),
        protocol: Some(2),
        app: Some("0.8.1".to_string()),
        sente: None,
        gote: None,
        result_kind: Some(kind.to_string()),
        result_outcome: Some(outcome.to_string()),
    }
}

fn sample_request() -> ArchiveRequest {
    archive_request(START, vec![ply("7g7f", "3c3d"), ply("2g2f", "8c8d")], "mate", "gote_wins")
}

fn request_with_n_plies(n: usize) -> ArchiveRequest {
    let plies = (0..n).map(|_| ply("7g7f", "3c3d")).collect();
    archive_request(START, plies, "unfinished", "none")
}

fn json(text: &str) -> serde_json::Value {
    serde_json::from_str(text).expect("the reply is JSON")
}

// ---- archives ----

#[test]
fn build_then_parse_round_trip() {
    let archive = build_archive(&sample_request());
    assert!(!archive.starts_with("ERROR"), "build_archive failed: {}", archive);

    let v = json(&parse_archive(&archive));
    assert_eq!(v["ok"], true);
    assert_eq!(v["initial_sfen"], START);
    assert_eq!(v["plies"].as_array().unwrap().len(), 2);
    assert_eq!(v["plies"][0]["s"], "7g7f");
    assert_eq!(v["plies"][0]["g"], "3c3d");
    assert_eq!(v["plies"][1]["s"], "2g2f");
    assert_eq!(v["plies"][1]["g"], "8c8d");
    assert_eq!(v["meta"]["rule"], "0.5");
    assert_eq!(v["meta"]["protocol"], 2);
    assert_eq!(v["meta"]["app"], "0.8.1");
    assert_eq!(v["meta"]["sente"], serde_json::Value::Null);
    assert_eq!(v["meta"]["gote"], serde_json::Value::Null);
    assert_eq!(v["meta"]["result"]["kind"], "mate");
    assert_eq!(v["meta"]["result"]["outcome"], "gote_wins");
}

#[test]
fn parse_old_bare_kifu() {
    let old = "sfen lnsgkgsnl/1r5b1/ppppppppp/9/9/9/PPPPPPPPP/1B5R1/LNSGKGSNL b - 1\n1: 7g7f | 3c3d";
    let v = json(&parse_archive(old));
    assert_eq!(v["ok"], true);
    assert_eq!(v["plies"].as_array().unwrap().len(), 1);
    assert_eq!(v["meta"]["result"]["kind"], "unfinished");
    assert_eq!(v["meta"]["result"]["outcome"], "none");
}

#[test]
fn parse_broken_input() {
    let v = json(&parse_archive("this is not an archive"));
    assert_eq!(v["ok"], false);
}

#[test]
fn parse_empty_input() {
    let v = json(&parse_archive(""));
    assert_eq!(v["ok"], false);
}

#[test]
fn parse_accepts_exactly_max_plies() {
    let archive = build_archive(&request_with_n_plies(MAX_TURNS));
    assert!(!archive.starts_with("ERROR"), "build_archive failed: {}", archive);
    let v = json(&parse_archive(&archive));
    assert_eq!(v["ok"], true);
    assert_eq!(v["plies"].as_array().unwrap().len(), MAX_TURNS);
}

#[test]
fn parse_rejects_too_many_plies() {
    let archive = build_archive(&request_with_n_plies(MAX_TURNS + 1));
    assert!(!archive.starts_with("ERROR"), "build_archive failed: {}", archive);
    let v = json(&parse_archive(&archive));
    assert_eq!(v["ok"], false);
    assert_eq!(v["error"], "too_many_plies");
}

#[test]
fn escape_json_escapes_control_characters() {
    let archive = "fukanzen-shogi-archive 1\nrule 0.5\nprotocol 2\napp foo\tbar\nsente -\ngote -\nresult unfinished none\nsfen lnsgkgsnl/1r5b1/ppppppppp/9/9/9/PPPPPPPPP/1B5R1/LNSGKGSNL b - 1\n";
    let parsed_json = parse_archive(archive);
    let v: serde_json::Value =
        serde_json::from_str(&parsed_json).expect("the reply of parse_archive is not JSON");
    assert_eq!(v["ok"], true);
    assert_eq!(v["meta"]["app"], "foo\tbar");
}

#[test]
fn max_turns_getter_matches_engine_constant() {
    assert_eq!(max_turns(), MAX_TURNS);
    assert_eq!(max_turns(), 500);
}

#[test]
fn build_archive_reports_missing_and_bad_fields() {
    let mut q = sample_request();
    q.initial_sfen = None;
    assert_eq!(build_archive(&q), "ERROR: missing initial_sfen");

    let mut q = sample_request();
    q.initial_sfen = Some("not sfen".to_string());
    assert_eq!(build_archive(&q), "ERROR: bad initial_sfen");

    let mut q = sample_request();
    q.plies = None;
    assert_eq!(build_archive(&q), "ERROR: missing plies");

    let mut q = sample_request();
    q.plies = Some(vec![ply("7g7f", "3c3d"), PlyRequest { s: None, g: Some("3c3d".to_string()) }]);
    assert_eq!(build_archive(&q), "ERROR: missing ply.s");

    let mut q = sample_request();
    q.plies = Some(vec![PlyRequest { s: Some("7g7f".to_string()), g: None }]);
    assert_eq!(build_archive(&q), "ERROR: missing ply.g");

    let mut q = sample_request();
    q.plies = Some(vec![ply("7g7f", "3c3d"), ply("zz", "3c3d")]);
    assert_eq!(build_archive(&q), "ERROR: bad ply.s: zz");

    let mut q = sample_request();
    q.plies = Some(vec![ply("7g7f", "x9")]);
    assert_eq!(build_archive(&q), "ERROR: bad ply.g: x9");

    let mut q = sample_request();
    q.rule = None;
    assert_eq!(build_archive(&q), "ERROR: missing rule");

    let mut q = sample_request();
    q.rule = Some("5".to_string());
    assert_eq!(build_archive(&q), "ERROR: bad rule");

    let mut q = sample_request();
    q.protocol = None;
    assert_eq!(build_archive(&q), "ERROR: missing protocol");

    let mut q = sample_request();
    q.result_kind = Some("victory".to_string());
    assert_eq!(build_archive(&q), "ERROR: bad result.kind");

    let mut q = sample_request();
    q.result_outcome = None;
    assert_eq!(build_archive(&q), "ERROR: bad result.outcome");
}

#[test]
fn build_archive_writes_header_and_record() {
    let archive = build_archive(&sample_request());
    assert_eq!(
        archive,
        "fukanzen-shogi-archive 1\nrule 0.5\nprotocol 2\napp 0.8.1\nsente -\ngote -\nresult mate gote_wins\nsfen lnsgkgsnl/1r5b1/ppppppppp/9/9/9/PPPPPPPPP/1B5R1/LNSGKGSNL b - 1\n1: 7g7f | 3c3d\n2: 2g2f | 8c8d"
    );
}

// ---- the end of a game ----

fn terminal_request(initial_sfen: &str, plies: Vec<PlyRequest>) -> Option<TerminalRequest> {
    Some(TerminalRequest { initial_sfen: Some(initial_sfen.to_string()), plies: Some(plies) })
}

/// Two kings alone, walking over 36 and 35 squares: no content repeats in
/// 500 turns, since the two periods are coprime.
fn no_repeat_plies(n_plies: usize) -> (String, Vec<PlyRequest>) {
    fn half_squares(rank_lo: u8, rank_hi: u8) -> Vec<Square> {
        let mut v = Vec::new();
        for rank in rank_lo..=rank_hi {
            for file in 1..=9u8 {
                v.push(Square::new(file, rank));
            }
        }
        v
    }

    let sente_squares = half_squares(1, 4);
    let gote_squares: Vec<Square> = half_squares(6, 9).into_iter().take(35).collect();

    let mut board = Board::empty();
    board.set(sente_squares[0], Some(Piece::new(PieceKind::King, Side::Sente)));
    board.set(gote_squares[0], Some(Piece::new(PieceKind::King, Side::Gote)));
    let initial_sfen = position_to_sfen(&Position {
        board,
        hand_sente: Hand::empty(),
        hand_gote: Hand::empty(),
        move_number: 1,
    });

    let mut sente_at = 0usize;
    let mut gote_at = 0usize;
    let mut plies = Vec::new();
    for i in 0..n_plies {
        let next_sente = (i + 1) % sente_squares.len();
        let next_gote = (i + 1) % gote_squares.len();
        let s_usi = Action::Move { from: sente_squares[sente_at], to: sente_squares[next_sente], promote: false }
            .to_usi();
        let g_usi = Action::Move { from: gote_squares[gote_at], to: gote_squares[next_gote], promote: false }
            .to_usi();
        plies.push(ply(&s_usi, &g_usi));
        sente_at = next_sente;
        gote_at = next_gote;
    }
    (initial_sfen, plies)
}

#[test]
fn evaluate_terminal_ongoing() {
    let v = json(&evaluate_terminal(&terminal_request(START, vec![])));
    assert_eq!(v["status"], "ongoing");
}

#[test]
fn evaluate_terminal_max_turns() {
    let (sfen, plies) = no_repeat_plies(MAX_TURNS);
    let v = json(&evaluate_terminal(&terminal_request(&sfen, plies)));
    assert_eq!(v["status"], "terminal");
    assert_eq!(v["kind"], "max_turns");
    assert_eq!(v["outcome"], "draw");
}

#[test]
fn evaluate_terminal_matches_build_archive_plies() {
    let n = 3;
    let (sfen, plies) = no_repeat_plies(n);
    let q = ArchiveRequest {
        initial_sfen: Some(sfen),
        plies: Some(plies),
        rule: Some("0.6".to_string()),
        protocol: Some(2),
        app: Some("test".to_string()),
        sente: None,
        gote: None,
        result_kind: Some("unfinished".to_string()),
        result_outcome: Some("none".to_string()),
    };
    let archive = build_archive(&q);
    assert!(!archive.starts_with("ERROR"), "build_archive failed: {}", archive);
    let reparsed = json(&parse_archive(&archive));
    assert_eq!(reparsed["plies"].as_array().unwrap().len(), n);
}

#[test]
fn evaluate_terminal_bad_input() {
    let v = json(&evaluate_terminal(&None));
    assert_eq!(v["status"], "error");
}

#[test]
fn evaluate_terminal_reports_each_error() {
    let r = evaluate_terminal(&Some(TerminalRequest { initial_sfen: None, plies: Some(vec![]) }));
    assert_eq!(r, r#"{"status":"error","error":"missing initial_sfen"}"#);
    let r = evaluate_terminal(&terminal_request("bad", vec![]));
    assert_eq!(r, r#"{"status":"error","error":"bad initial_sfen"}"#);
    let r = evaluate_terminal(&Some(TerminalRequest { initial_sfen: Some(START.to_string()), plies: None }));
    assert_eq!(r, r#"{"status":"error","error":"missing plies"}"#);
    let r = evaluate_terminal(&terminal_request(START, vec![ply("a\"b", "3c3d")]));
    assert_eq!(r, r#"{"status":"error","error":"bad ply.s: a\"b"}"#);
    let r = evaluate_terminal(&terminal_request(START, vec![ply("5e5d", "3c3d")]));
    assert_eq!(r, r#"{"status":"error","error":"unresolvable turn"}"#);
}

#[test]
fn evaluate_terminal_king_death() {
    // The sente rook lands on the gote king, which stays while a pawn moves.
    let sfen = "4k4/9/p8/9/9/9/9/9/4R3K b - 1";
    let v = json(&evaluate_terminal(&terminal_request(sfen, vec![ply("5i5a", "5a4a")])));
    assert_eq!(v["status"], "ongoing");
    let v = json(&evaluate_terminal(&terminal_request(sfen, vec![ply("5i5a", "9c9d")])));
    assert_eq!(v["status"], "terminal");
    assert_eq!(v["kind"], "king_death");
    assert_eq!(v["outcome"], "sente_wins");
}

// ---- resolving a turn, status, legal actions ----

#[test]
fn resolve_ply_reports_next_position_and_event() {
    let r = resolve_ply(START, "7g7f", "3c3d");
    assert_eq!(
        r,
        r#"{"ok":true,"sfen":"lnsgkgsnl/1r5b1/pppppp1pp/6p2/9/2P6/PP1PPPPPP/1B5R1/LNSGKGSNL b - 2","event":"normal"}"#
    );
}

#[test]
fn resolve_ply_reports_bad_input() {
    assert_eq!(resolve_ply("x", "7g7f", "3c3d"), r#"{"ok":false,"error":"bad sfen: x"}"#);
    assert_eq!(resolve_ply(START, "7g", "3c3d"), r#"{"ok":false,"error":"bad sente_usi: 7g"}"#);
    assert_eq!(resolve_ply(START, "7g7f", "q\"q"), r#"{"ok":false,"error":"bad gote_usi: q\"q"}"#);
    assert_eq!(resolve_ply(START, "5e5d", "3c3d"), r#"{"ok":false,"error":"unresolvable turn"}"#);
}

#[test]
fn resolve_ply_clash_event() {
    // Both pawns move onto 5e.
    let sfen = "4k4/9/9/4p4/9/4P4/9/9/4K4 b - 1";
    let v = json(&resolve_ply(sfen, "5f5e", "5d5e"));
    assert_eq!(v["ok"], true);
    assert_eq!(v["event"], "clash");
}

#[test]
fn game_status_names() {
    assert_eq!(game_status(START), "ongoing");
    assert_eq!(game_status("not sfen"), "error");
}

#[test]
fn legal_actions_lists_usi() {
    let sfen = "4k4/9/9/9/9/9/9/9/8K b - 1";
    let list = legal_actions(sfen, "sente");
    let v = json(&list);
    let mut got: Vec<String> = v.as_array().unwrap().iter().map(|x| x.as_str().unwrap().to_string()).collect();
    got.sort();
    assert_eq!(got, vec!["1i1h", "1i2h", "1i2i"]);
    assert_eq!(legal_actions(sfen, "black"), "[]");
    assert_eq!(legal_actions("bad", "sente"), "[]");
}

#[test]
fn escape_json_exact() {
    assert_eq!(escape_json("a\"b\\c\nd\re\tf\u{1}g"), "a\\\"b\\\\c\\nd\\re\\tf\\u0001g");
    assert_eq!(escape_json("\u{1f}"), "\\u001f");
    assert_eq!(escape_json("将棋"), "将棋");
}

// ---- notation ----

#[test]
fn parse_legal_json_reads_engine_output() {
    let v = parse_legal_json(r#"["7g7f","P*5e", "bad" ,"8h2b+"]"#);
    assert_eq!(v.len(), 3);
    assert_eq!(v[0], Action::from_usi("7g7f").unwrap());
    assert_eq!(v[1], Action::from_usi("P*5e").unwrap());
    assert_eq!(v[2], Action::from_usi("8h2b+").unwrap());
    assert!(parse_legal_json("[]").is_empty());
    assert!(parse_legal_json("   ").is_empty());
}

#[test]
fn ja_notation_from_text() {
    let legal = legal_actions(START, "sente");
    assert_eq!(ja_notation("7g7f", "sente", &legal, START), "７六歩");
    assert_eq!(ja_notation("resign", "gote", "[]", START), "投了");
    assert_eq!(ja_notation("zz", "sente", &legal, START), "");
    assert_eq!(ja_notation("7g7f", "sente", &legal, "bad"), "");
}
