//! The console tool for checking the rules by hand: one person enters both
//! camps' actions in turn and plays a game to its end. This module decides
//! what each input does and what is printed; reading lines and files and
//! printing are the caller's.
use vstd::prelude::*;

use crate::board::{slot_kind, Hand, Position};
use crate::desk::{kind_name, piece_kind_ja};
use crate::kifu::{replay_spec, replayable, lemma_push_keeps_wf, lemma_push_replay, step_ok, Kifu};
use crate::desk::state::{lemma_drop_last_replays, lemma_replay_counts_turns};
use crate::movegen::{has_pawn_on_file, is_legal, legal_actions, pawn_on_file};
use crate::resolve::{
    can_resolve, hands_have_room, resolvable, resolve, spec_resolve, ResolutionEvent,
};
use crate::serialize::{
    kifu_from_string, kifu_to_string, kifu_text, parse_kifu_text, ply_line, ply_to_string,
    position_sfen, position_to_sfen,
};
use crate::terminate::{
    check_king_death, check_sennichite, check_status, king_death_of, sennichite_of, status_of,
    GameEnd, GameStatus,
};
use crate::text::{
    chars_eq, chars_of, decimal, has_prefix, push_char, push_count, push_decimal, push_str,
    split_index, split_once, starts_with, string_of, string_of_str, sub_vec, trim, trim_vec,
};
use crate::types::{parse_action, usi_action, Action, Piece, PieceKind, Ply, Side, Square};

verus! {

broadcast use crate::types::group_square;

/// What a camp decides in a turn: an action, or resignation.
#[derive(Debug, Clone, Copy, PartialEq, Eq, Structural)]
pub enum Decision {
    Move(Action),
    Resign,
}

/// The end of asking one camp for its decision.
#[derive(Debug, Clone, Copy, PartialEq, Eq, Structural)]
pub enum InputResult {
    Decided(Decision),
    Quit,
    /// The record changed: start the turn again from its latest position.
    Reload,
}

#[derive(Debug, Clone, Copy, PartialEq, Eq, Structural)]
pub enum WinReason {
    Resign,
    KingDied,
    Checkmate,
}

#[derive(Debug, Clone, Copy, PartialEq, Eq, Structural)]
pub enum DrawReason {
    BothResign,
    BothKingDied,
    BothCheckmate,
    Sennichite,
}

/// How a game ended.
#[derive(Debug, Clone, Copy, PartialEq, Eq, Structural)]
pub enum GameResult {
    SenteWins(WinReason),
    GoteWins(WinReason),
    Draw(DrawReason),
}

/// The camp named by a command argument: `s` or `sente`, `g` or `gote`.
pub open spec fn side_arg(a: Seq<char>) -> Option<Side> {
    if a == "s"@ || a == "sente"@ {
        Some(Side::Sente)
    } else if a == "g"@ || a == "gote"@ {
        Some(Side::Gote)
    } else {
        None
    }
}

fn is_text(v: &Vec<char>, t: &str) -> (b: bool)
    ensures
        b == (v@ == t@),
{
    let w = chars_of(t);
    chars_eq(v.as_slice(), w.as_slice())
}

/// The camp named by a command argument (see `side_arg`).
pub fn parse_side_arg(arg: &str) -> (r: Option<Side>)
    ensures
        r == side_arg(arg@),
{
    let v = chars_of(arg);
    if is_text(&v, "s") || is_text(&v, "sente") {
        Some(Side::Sente)
    } else if is_text(&v, "g") || is_text(&v, "gote") {
        Some(Side::Gote)
    } else {
        None
    }
}

/// The name of a camp.
pub open spec fn side_label(s: Side) -> Seq<char> {
    match s {
        Side::Sente => "先手"@,
        Side::Gote => "後手"@,
    }
}

fn side_name(s: Side) -> (t: &'static str)
    ensures
        t@ == side_label(s),
{
    match s {
        Side::Sente => "先手",
        Side::Gote => "後手",
    }
}

/// The last line of a finished record: after how many turns, who won, and why.
pub open spec fn result_line(result: GameResult, n: nat) -> Seq<char> {
    match result {
        GameResult::SenteWins(reason) => "まで"@ + decimal(n) + "組手で先手の勝ち（"@ + match reason {
            WinReason::Resign => "後手投了"@,
            WinReason::KingDied => "後手玉死"@,
            WinReason::Checkmate => "後手着手不能"@,
        } + "）"@,
        GameResult::GoteWins(reason) => "まで"@ + decimal(n) + "組手で後手の勝ち（"@ + match reason {
            WinReason::Resign => "先手投了"@,
            WinReason::KingDied => "先手玉死"@,
            WinReason::Checkmate => "先手着手不能"@,
        } + "）"@,
        GameResult::Draw(reason) => "まで"@ + decimal(n) + "組手で引き分け（"@ + match reason {
            DrawReason::BothResign => "両者投了"@,
            DrawReason::BothKingDied => "両玉死"@,
            DrawReason::BothCheckmate => "両者着手不能"@,
            DrawReason::Sennichite => "千日手"@,
        } + "）"@,
    }
}

/// The last line of a finished record (see `result_line`).
pub fn game_result_line(result: &GameResult, n: usize) -> (s: String)
    ensures
        s@ == result_line(*result, n as nat),
{
    let mut s = string_of_str("まで");
    push_count(&mut s, n);
    let (who, why) = match *result {
        GameResult::SenteWins(reason) => (
            "組手で先手の勝ち（",
            match reason {
                WinReason::Resign => "後手投了",
                WinReason::KingDied => "後手玉死",
                WinReason::Checkmate => "後手着手不能",
            },
        ),
        GameResult::GoteWins(reason) => (
            "組手で後手の勝ち（",
            match reason {
                WinReason::Resign => "先手投了",
                WinReason::KingDied => "先手玉死",
                WinReason::Checkmate => "先手着手不能",
            },
        ),
        GameResult::Draw(reason) => (
            "組手で引き分け（",
            match reason {
                DrawReason::BothResign => "両者投了",
                DrawReason::BothKingDied => "両玉死",
                DrawReason::BothCheckmate => "両者着手不能",
                DrawReason::Sennichite => "千日手",
            },
        ),
    };
    push_str(&mut s, who);
    push_str(&mut s, why);
    push_str(&mut s, "）");
    assert(s@ =~= result_line(*result, n as nat));
    s
}

/// A piece as the board shows it: a space or `v` (gote), then its name.
pub open spec fn piece_cell(p: Piece) -> Seq<char> {
    (if p.side == Side::Sente {
        " "@
    } else {
        "v"@
    }) + kind_name(p.kind)
}

/// A piece as the board shows it (see `piece_cell`).
pub fn piece_display_char(p: Piece) -> (s: String)
    ensures
        s@ == piece_cell(p),
{
    let mut s = String::new();
    match p.side {
        Side::Sente => push_str(&mut s, " "),
        Side::Gote => push_str(&mut s, "v"),
    }
    push_str(&mut s, piece_kind_ja(p.kind));
    assert(s@ =~= piece_cell(p));
    s
}

/// The pieces of the first `n` slots of a hand: each kind held, with its count
/// when more than one, followed by a space.
pub open spec fn hand_part(h: Hand, n: int) -> Seq<char>
    decreases n,
{
    if n <= 0 {
        Seq::empty()
    } else {
        let k = slot_kind(n - 1);
        let c = h.spec_count(k);
        hand_part(h, n - 1) + if c == 0 {
            Seq::empty()
        } else if c > 1 {
            kind_name(k) + decimal(c) + " "@
        } else {
            kind_name(k) + " "@
        }
    }
}

/// A hand as printed: its pieces, or `なし` when it holds none.
pub open spec fn hand_text(h: Hand) -> Seq<char> {
    if hand_part(h, 7).len() == 0 {
        "なし"@
    } else {
        hand_part(h, 7)
    }
}

fn push_hand(s: &mut String, h: &Hand)
    ensures
        final(s)@ == old(s)@ + hand_text(*h),
{
    let kinds = Hand::kinds();
    let mut t = String::new();
    let mut any = false;
    let mut i: usize = 0;
    while i < 7
        invariant
            i <= 7,
            forall|j: int| 0 <= j < 7 ==> #[trigger] kinds@[j] == slot_kind(j),
            t@ == hand_part(*h, i as int),
            any == (t@.len() > 0),
        decreases 7 - i,
    {
        let k = kinds[i];
        let c = h.count(k);
        let ghost before = t@;
        proof {
            reveal_strlit(" ");
        }
        if c > 1 {
            push_str(&mut t, piece_kind_ja(k));
            push_decimal(&mut t, c as u32);
            push_str(&mut t, " ");
            any = true;
        } else if c == 1 {
            push_str(&mut t, piece_kind_ja(k));
            push_str(&mut t, " ");
            any = true;
        }
        assert(t@ =~= hand_part(*h, i + 1));
        i += 1;
    }
    if !any {
        push_str(s, "なし");
    } else {
        push_str(s, t.as_str());
    }
}

/// The letter of a rank, `a` for rank 1.
pub open spec fn rank_letter(r: int) -> char {
    (96 + r) as char
}

/// The cell of a square as printed: ` . ` when empty.
pub open spec fn cell_text(c: Option<Piece>) -> Seq<char> {
    match c {
        Some(p) => piece_cell(p),
        None => " . "@,
    }
}

/// The cells of a rank from file 9 down to file `9 - n + 1`.
pub open spec fn rank_cells(pos: Position, r: int, n: int) -> Seq<char>
    decreases n,
{
    if n <= 0 {
        Seq::empty()
    } else {
        rank_cells(pos, r, n - 1) + cell_text(pos.board.at(Square::spec_new(10 - n, r)))
    }
}

/// One printed row of the board.
pub open spec fn rank_row(pos: Position, r: int) -> Seq<char> {
    seq![rank_letter(r), '|'] + rank_cells(pos, r, 9) + "|"@
}

/// The printed rows of ranks 1 to `n`.
pub open spec fn rank_rows(pos: Position, n: int) -> Seq<Seq<char>>
    decreases n,
{
    if n <= 0 {
        Seq::empty()
    } else {
        rank_rows(pos, n - 1).push(rank_row(pos, n))
    }
}

/// The board as printed: turns played, gote's hand, the board from gote's
/// side with rank 1 on top, sente's hand.
pub open spec fn board_text(pos: Position) -> Seq<Seq<char>> {
    seq![
        Seq::empty(),
        "  組手: "@ + decimal((pos.move_number - 1) as nat),
        "後手持駒: "@ + hand_text(pos.hand_gote),
        "  ９ ８ ７ ６ ５ ４ ３ ２ １"@,
        " +--+--+--+--+--+--+--+--+--+"@,
    ] + rank_rows(pos, 9) + seq![
        " +--+--+--+--+--+--+--+--+--+"@,
        "先手持駒: "@ + hand_text(pos.hand_sente),
        Seq::empty(),
    ]
}

/// The views of a list of strings.
pub open spec fn lines_view(v: Seq<String>) -> Seq<Seq<char>> {
    v.map_values(|s: String| s@)
}

fn push_line(v: &mut Vec<String>, s: String)
    ensures
        lines_view(final(v)@) == lines_view(old(v)@).push(s@),
{
    v.push(s);
    assert(lines_view(v@) =~= lines_view(old(v)@).push(s@));
}

fn rank_line(pos: &Position, r: u8) -> (s: String)
    requires
        1 <= r <= 9,
    ensures
        s@ == rank_row(*pos, r as int),
{
    let mut s = String::new();
    push_char(&mut s, (96u8 + r) as char);
    push_char(&mut s, '|');
    let mut n: u8 = 0;
    while n < 9
        invariant
            n <= 9,
            1 <= r <= 9,
            s@ == seq![rank_letter(r as int), '|'] + rank_cells(*pos, r as int, n as int),
        decreases 9 - n,
    {
        let sq = Square::new(9 - n, r);
        match pos.board.get(sq) {
            None => push_str(&mut s, " . "),
            Some(p) => {
                let c = piece_display_char(p);
                push_str(&mut s, c.as_str());
            },
        }
        n += 1;
    }
    push_str(&mut s, "|");
    s
}

/// The board as printed (see `board_text`).
pub fn board_lines(pos: &Position) -> (v: Vec<String>)
    requires
        pos.move_number >= 1,
    ensures
        lines_view(v@) == board_text(*pos),
{
    let mut v: Vec<String> = Vec::new();
    push_line(&mut v, String::new());
    let mut t = string_of_str("  組手: ");
    push_decimal(&mut t, pos.move_number - 1);
    push_line(&mut v, t);
    let mut g = string_of_str("後手持駒: ");
    push_hand(&mut g, &pos.hand_gote);
    push_line(&mut v, g);
    push_line(&mut v, string_of_str("  ９ ８ ７ ６ ５ ４ ３ ２ １"));
    push_line(&mut v, string_of_str(" +--+--+--+--+--+--+--+--+--+"));
    let ghost head = lines_view(v@);
    let mut r: u8 = 1;
    while r <= 9
        invariant
            1 <= r <= 10,
            lines_view(v@) == head + rank_rows(*pos, r - 1),
        decreases 10 - r,
    {
        push_line(&mut v, rank_line(pos, r));
        r += 1;
    }
    push_line(&mut v, string_of_str(" +--+--+--+--+--+--+--+--+--+"));
    let mut s = string_of_str("先手持駒: ");
    push_hand(&mut s, &pos.hand_sente);
    push_line(&mut v, s);
    push_line(&mut v, String::new());
    assert(lines_view(v@) =~= board_text(*pos));
    v
}

/// A record the console can go on with: it replays, the hands of its latest
/// position have room, and its turn numbers start from 1.
pub open spec fn record_ok(k: Kifu) -> bool {
    &&& k.wf()
    &&& k.position_at(k.plies@.len() as int).has_room()
    &&& k.initial_position.move_number >= 1
}

/// Why an action that is not legal was refused: a second pawn on a file, a
/// move from an empty square or of the other camp's piece, a move that must
/// promote; otherwise a general line.
pub open spec fn reason_line(pos: Position, side: Side, a: Action) -> Seq<char> {
    let general = "  理由: その手は合法手の範囲外です"@;
    match a {
        Action::Drop { kind: PieceKind::Pawn, to } => if pawn_on_file(pos, side, to.sfile()) {
            "  理由: 二歩（同じ筋にすでに歩があります）"@
        } else {
            general
        },
        Action::Move { from, to, promote } => match pos.board.at(from) {
            Some(p) => if p.side != side {
                "  理由: 自分の駒ではありません"@
            } else if !promote && is_legal(pos, side, Action::Move { from, to, promote: true }) {
                "  理由: この移動は成りが必須です（"@ + usi_action(
                    Action::Move { from, to, promote: true },
                ) + " と入力してください）"@
            } else {
                general
            },
            None => "  理由: 移動元に駒がありません"@,
        },
        _ => general,
    }
}

fn contains_action(v: &Vec<Action>, a: Action) -> (b: bool)
    ensures
        b == v@.contains(a),
{
    let mut i: usize = 0;
    while i < v.len()
        invariant
            i <= v.len(),
            forall|j: int| 0 <= j < i ==> v@[j] != a,
        decreases v.len() - i,
    {
        if v[i] == a {
            assert(v@[i as int] == a);
            return true;
        }
        i += 1;
    }
    false
}

/// Why an action was refused (see `reason_line`).
pub fn diagnose_illegal(pos: &Position, side: Side, action: Action) -> (s: String)
    requires
        action.wf(),
        pos.has_room(),
    ensures
        s@ == reason_line(*pos, side, action),
{
    match action {
        Action::Drop { kind: PieceKind::Pawn, to } => {
            assert(1 <= to.sfile() <= 9);
            if has_pawn_on_file(pos, side, to.file()) {
                return string_of_str("  理由: 二歩（同じ筋にすでに歩があります）");
            }
        },
        Action::Move { from, to, promote } => {
            match pos.board.get(from) {
                Some(p) => {
                    if p.side != side {
                        return string_of_str("  理由: 自分の駒ではありません");
                    }
                },
                None => {
                    return string_of_str("  理由: 移動元に駒がありません");
                },
            }
            if !promote {
                let with_promote = Action::Move { from, to, promote: true };
                let legal = legal_actions(pos, side);
                if contains_action(&legal, with_promote) {
                    let mut s = string_of_str("  理由: この移動は成りが必須です（");
                    let u = with_promote.to_usi();
                    push_str(&mut s, u.as_str());
                    push_str(&mut s, " と入力してください）");
                    return s;
                }
            }
        },
        _ => {},
    }
    string_of_str("  理由: その手は合法手の範囲外です")
}

/// The report of a resolved turn, as printed.
pub open spec fn report_lines(event: ResolutionEvent, sente: Action, gote: Action) -> Seq<Seq<char>> {
    let body: Seq<Seq<char>> = match event {
        ResolutionEvent::Normal { sente_capture, gote_capture } => {
            let a: Seq<Seq<char>> = match sente_capture {
                Some(k) => seq!["  先手が "@ + kind_name(k) + " を取得"@],
                None => Seq::empty(),
            };
            let b: Seq<Seq<char>> = match gote_capture {
                Some(k) => seq!["  後手が "@ + kind_name(k) + " を取得"@],
                None => Seq::empty(),
            };
            let c: Seq<Seq<char>> = if sente_capture is None && gote_capture is None {
                seq!["  取得なし（空きマスへの移動、または逃げた駒）"@]
            } else {
                Seq::empty()
            };
            a + b + c
        },
        ResolutionEvent::Clash { sente_piece, gote_piece } => seq![
            "  相討ち: 先手の "@ + kind_name(sente_piece) + " と後手の "@ + kind_name(gote_piece)
                + " が交換"@,
        ],
        ResolutionEvent::SenteDied => seq!["  先手玉が取られた！"@],
        ResolutionEvent::GoteDied => seq!["  後手玉が取られた！"@],
        ResolutionEvent::BothDied => seq!["  両玉が同時に取られた！"@],
    };
    seq!["  --- 解決結果 ---"@, "  先手: "@ + usi_action(sente) + " | 後手: "@ + usi_action(gote)]
        + body + seq!["  ----------------"@]
}

fn text3(a: &str, b: &str, c: &str) -> (s: String)
    ensures
        s@ == a@ + b@ + c@,
{
    let mut s = String::new();
    push_str(&mut s, a);
    push_str(&mut s, b);
    push_str(&mut s, c);
    assert(s@ =~= a@ + b@ + c@);
    s
}

/// The report of a resolved turn (see `report_lines`).
pub fn resolution_report(event: &ResolutionEvent, sente: Action, gote: Action) -> (v: Vec<String>)
    requires
        sente.wf(),
        gote.wf(),
    ensures
        lines_view(v@) == report_lines(*event, sente, gote),
{
    let mut v: Vec<String> = Vec::new();
    push_line(&mut v, string_of_str("  --- 解決結果 ---"));
    let mut head = string_of_str("  先手: ");
    let su = sente.to_usi();
    push_str(&mut head, su.as_str());
    push_str(&mut head, " | 後手: ");
    let gu = gote.to_usi();
    push_str(&mut head, gu.as_str());
    push_line(&mut v, head);
    match *event {
        ResolutionEvent::Normal { sente_capture, gote_capture } => {
            match sente_capture {
                Some(k) => push_line(&mut v, text3("  先手が ", piece_kind_ja(k), " を取得")),
                None => {},
            }
            match gote_capture {
                Some(k) => push_line(&mut v, text3("  後手が ", piece_kind_ja(k), " を取得")),
                None => {},
            }
            if sente_capture.is_none() && gote_capture.is_none() {
                push_line(&mut v, string_of_str("  取得なし（空きマスへの移動、または逃げた駒）"));
            }
        },
        ResolutionEvent::Clash { sente_piece, gote_piece } => {
            let mut s = text3("  相討ち: 先手の ", piece_kind_ja(sente_piece), " と後手の ");
            push_str(&mut s, piece_kind_ja(gote_piece));
            push_str(&mut s, " が交換");
            push_line(&mut v, s);
        },
        ResolutionEvent::SenteDied => push_line(&mut v, string_of_str("  先手玉が取られた！")),
        ResolutionEvent::GoteDied => push_line(&mut v, string_of_str("  後手玉が取られた！")),
        ResolutionEvent::BothDied => push_line(&mut v, string_of_str("  両玉が同時に取られた！")),
    }
    push_line(&mut v, string_of_str("  ----------------"));
    assert(lines_view(v@) =~= report_lines(*event, sente, gote));
    v
}

/// The record as printed: its turns (or a note that there are none), then the
/// result line when the game has ended.
pub open spec fn record_lines(init: Position, plies: Seq<Ply>, result: Option<GameResult>) -> Seq<Seq<char>> {
    let n = plies.len();
    let body: Seq<Seq<char>> = if n == 0 {
        seq!["  着手なし（初期局面）"@]
    } else {
        seq!["  棋譜（"@ + decimal(n) + "組手）:"@] + Seq::new(
            n,
            |i: int| "  "@ + ply_line((init.move_number + i) as u32, plies[i]),
        )
    };
    body + match result {
        Some(r) => seq!["  "@ + result_line(r, n)],
        None => Seq::empty(),
    }
}

/// The record as printed (see `record_lines`).
pub fn kifu_lines(kifu: &Kifu, result: Option<GameResult>) -> (v: Vec<String>)
    requires
        record_ok(*kifu),
    ensures
        lines_view(v@) == record_lines(kifu.initial_position, kifu.plies@, result),
{
    let ghost init = kifu.initial_position;
    let ghost plies = kifu.plies@;
    proof {
        if plies.len() > 0 {
            lemma_replay_counts_turns(init, plies, plies.len() - 1);
            assert(step_ok(init, plies, plies.len() - 1));
        }
    }
    let mut v: Vec<String> = Vec::new();
    let n = kifu.plies.len();
    if n == 0 {
        push_line(&mut v, string_of_str("  着手なし（初期局面）"));
    } else {
        let mut h = string_of_str("  棋譜（");
        push_count(&mut h, n);
        push_str(&mut h, "組手）:");
        push_line(&mut v, h);
        let start = kifu.initial_position.move_number;
        let mut i: usize = 0;
        while i < n
            invariant
                i <= n == plies.len(),
                plies == kifu.plies@,
                init == kifu.initial_position,
                start == init.move_number,
                init.move_number + plies.len() <= u32::MAX + 1,
                kifu.wf(),
                lines_view(v@) == seq!["  棋譜（"@ + decimal(n as nat) + "組手）:"@] + Seq::new(
                    i as nat,
                    |j: int| "  "@ + ply_line((init.move_number + j) as u32, plies[j]),
                ),
            decreases n - i,
        {
            let ply = kifu.plies[i];
            assert(step_ok(init, plies, i as int));
            let mut t = string_of_str("  ");
            let l = ply_to_string(start + i as u32, &ply);
            push_str(&mut t, l.as_str());
            let ghost before = lines_view(v@);
            push_line(&mut v, t);
            assert(lines_view(v@) =~= seq!["  棋譜（"@ + decimal(n as nat) + "組手）:"@] + Seq::new(
                (i + 1) as nat,
                |j: int| "  "@ + ply_line((init.move_number + j) as u32, plies[j]),
            ));
            i += 1;
        }
    }
    match result {
        Some(r) => {
            let mut t = string_of_str("  ");
            let l = game_result_line(&r, n);
            push_str(&mut t, l.as_str());
            push_line(&mut v, t);
        },
        None => {},
    }
    assert(lines_view(v@) =~= record_lines(init, plies, result));
    v
}

/// What a console input leads to.
#[derive(Debug)]
pub enum CommandOutcome {
    /// Print the lines and ask again.
    Stay(Vec<String>),
    /// Print the lines and end the asking with this result.
    Return(Vec<String>, InputResult),
    /// Write the text to the file at the path, report, and ask again.
    Save { path: String, content: String },
    /// Read the file at the path and hand its text to `load_record`.
    Load { path: String },
}

/// A command outcome as values.
pub enum OutcomeView {
    Stay(Seq<Seq<char>>),
    Return(Seq<Seq<char>>, InputResult),
    Save(Seq<char>, Seq<char>),
    Load(Seq<char>),
}

pub open spec fn outcome_view(o: CommandOutcome) -> OutcomeView {
    match o {
        CommandOutcome::Stay(v) => OutcomeView::Stay(lines_view(v@)),
        CommandOutcome::Return(v, r) => OutcomeView::Return(lines_view(v@), r),
        CommandOutcome::Save { path, content } => OutcomeView::Save(path@, content@),
        CommandOutcome::Load { path } => OutcomeView::Load(path@),
    }
}

/// The command word: the input up to its first space.
pub open spec fn cmd_head(input: Seq<char>) -> Seq<char> {
    match split_once(input, ' ') {
        Some((h, _)) => h,
        None => input,
    }
}

/// The command's first argument: between the first and the second space.
pub open spec fn cmd_arg(input: Seq<char>) -> Option<Seq<char>> {
    match split_once(input, ' ') {
        Some((_, rest)) => Some(
            match split_once(rest, ' ') {
                Some((a, _)) => a,
                None => rest,
            },
        ),
        None => None,
    }
}

/// The list of actions on one line, each after two spaces.
pub open spec fn moves_line(acts: Seq<Action>) -> Seq<char>
    decreases acts.len(),
{
    if acts.len() == 0 {
        Seq::empty()
    } else {
        moves_line(acts.drop_last()) + "  "@ + usi_action(acts.last())
    }
}

/// The lines of `:moves`: the camp and the number of its legal actions, then
/// the actions.
pub open spec fn moves_lines(target: Side, acts: Seq<Action>) -> Seq<Seq<char>> {
    seq![
        "  "@ + side_label(target) + " の合法手 ("@ + decimal(acts.len()) + " 手):"@,
        moves_line(acts),
    ]
}

/// The output lists the legal actions of `target`, in some order.
pub open spec fn lists_moves(pos: Position, target: Side, out: OutcomeView) -> bool {
    exists|acts: Seq<Action>|
        (forall|a: Action| #[trigger] acts.contains(a) <==> is_legal(pos, target, a)) && out
            == OutcomeView::Stay(#[trigger] moves_lines(target, acts))
}

/// What a command does while `side` enters its action on `pos`, from the
/// record `k0` to the record `k1`:
/// - `:moves [s|g]` lists the legal actions (of `side` without an argument);
/// - `:board` prints the board; `:sfen` the SFEN; `:kifu` the record;
/// - `:undo` takes back the last turn, if any, and starts the turn again;
/// - `:save <path>` and `:load <path>` hand the path over;
/// - `:resign [s|g]` resigns, for `side` only;
/// - `:quit` and `:exit` end the game.
/// Only `:undo` changes the record.
pub open spec fn command_done(input: Seq<char>, pos: Position, side: Side, k0: Kifu, k1: Kifu, out: OutcomeView) -> bool {
    let head = cmd_head(input);
    let arg = cmd_arg(input);
    let kept = k1.initial_position == k0.initial_position && k1.plies@ == k0.plies@;
    if head == ":moves"@ {
        &&& kept
        &&& if arg is Some && side_arg(arg->0) is None {
            out == OutcomeView::Stay(seq!["  使い方: :moves [s|g]  （s=先手、g=後手）"@])
        } else {
            let target = match arg {
                Some(a) => side_arg(a)->0,
                None => side,
            };
            lists_moves(pos, target, out)
        }
    } else if head == ":board"@ {
        kept && out == OutcomeView::Stay(board_text(pos))
    } else if head == ":undo"@ {
        if k0.plies@.len() == 0 {
            kept && out == OutcomeView::Stay(seq!["  取り消せる手がありません。"@])
        } else {
            &&& k1.initial_position == k0.initial_position
            &&& k1.plies@ == k0.plies@.drop_last()
            &&& out == OutcomeView::Return(seq!["  1組手戻りました。"@], InputResult::Reload)
        }
    } else if head == ":save"@ {
        kept && match arg {
            None => out == OutcomeView::Stay(seq!["  使い方: :save <ファイルパス>"@]),
            Some(p) => out == OutcomeView::Save(p, kifu_text(k0.initial_position, k0.plies@)),
        }
    } else if head == ":load"@ {
        kept && match arg {
            None => out == OutcomeView::Stay(seq!["  使い方: :load <ファイルパス>"@]),
            Some(p) => out == OutcomeView::Load(p),
        }
    } else if head == ":resign"@ {
        kept && match arg {
            None => out == OutcomeView::Return(Seq::empty(), InputResult::Decided(Decision::Resign)),
            Some(a) => match side_arg(a) {
                None => out == OutcomeView::Stay(seq!["  使い方: :resign [s|g]  （s=先手、g=後手）"@]),
                Some(s) => if s != side {
                    out == OutcomeView::Stay(
                        seq![
                            "  現在は"@ + side_label(side) + "の入力フェーズです。"@ + side_label(s)
                                + "の投了はその入力フェーズで行ってください。"@,
                        ],
                    )
                } else {
                    out == OutcomeView::Return(
                        Seq::empty(),
                        InputResult::Decided(Decision::Resign),
                    )
                },
            },
        }
    } else if head == ":quit"@ || head == ":exit"@ {
        kept && out == OutcomeView::Return(Seq::empty(), InputResult::Quit)
    } else if head == ":sfen"@ {
        kept && out == OutcomeView::Stay(seq!["  "@ + position_sfen(pos)])
    } else if head == ":kifu"@ {
        kept && out == OutcomeView::Stay(record_lines(k0.initial_position, k0.plies@, None))
    } else {
        kept && out == OutcomeView::Stay(seq!["  不明なコマンド: "@ + input])
    }
}

fn one_line(t: &str) -> (v: Vec<String>)
    ensures
        lines_view(v@) == seq![t@],
{
    let mut v: Vec<String> = Vec::new();
    push_line(&mut v, string_of_str(t));
    v
}

fn split_command(input: &str) -> (r: (Vec<char>, Option<Vec<char>>))
    ensures
        r.0@ == cmd_head(input@),
        match cmd_arg(input@) {
            Some(a) => r.1 matches Some(x) && x@ == a,
            None => r.1 is None,
        },
{
    let v = chars_of(input);
    match split_index(v.as_slice(), ' ') {
        None => (v, None),
        Some(i) => {
            let head = sub_vec(v.as_slice(), 0, i);
            let rest = sub_vec(v.as_slice(), i + 1, v.len());
            assert(rest@ =~= v@.skip(i + 1));
            assert(head@ =~= v@.take(i as int));
            match split_index(rest.as_slice(), ' ') {
                None => (head, Some(rest)),
                Some(j) => {
                    let a = sub_vec(rest.as_slice(), 0, j);
                    assert(a@ =~= rest@.take(j as int));
                    (head, Some(a))
                },
            }
        },
    }
}

fn moves_output(pos: &Position, target: Side) -> (v: Vec<String>)
    requires
        pos.has_room(),
    ensures
        exists|acts: Seq<Action>|
            (forall|a: Action| #[trigger] acts.contains(a) <==> is_legal(*pos, target, a))
                && lines_view(v@) == moves_lines(target, acts),
{
    let actions = legal_actions(pos, target);
    let mut h = string_of_str("  ");
    push_str(&mut h, side_name(target));
    push_str(&mut h, " の合法手 (");
    push_count(&mut h, actions.len());
    push_str(&mut h, " 手):");
    let mut m = String::new();
    let mut i: usize = 0;
    while i < actions.len()
        invariant
            i <= actions@.len(),
            forall|k: int| 0 <= k < actions@.len() ==> (#[trigger] actions@[k]).wf(),
            m@ == moves_line(actions@.take(i as int)),
        decreases actions@.len() - i,
    {
        push_str(&mut m, "  ");
        let u = actions[i].to_usi();
        push_str(&mut m, u.as_str());
        assert(actions@.take(i + 1).drop_last() =~= actions@.take(i as int));
        i += 1;
    }
    assert(actions@.take(actions@.len() as int) =~= actions@);
    let mut v: Vec<String> = Vec::new();
    push_line(&mut v, h);
    push_line(&mut v, m);
    assert(lines_view(v@) =~= moves_lines(target, actions@));
    v
}

fn same_text(v: &Vec<char>, t: &str) -> (b: bool)
    ensures
        b == (v@ == t@),
{
    is_text(v, t)
}

/// Performs a console command (see `command_done`).
pub fn handle_command(input: &str, pos: &Position, side: Side, kifu: &mut Kifu) -> (out: CommandOutcome)
    requires
        pos.has_room(),
        pos.move_number >= 1,
        record_ok(*old(kifu)),
    ensures
        command_done(input@, *pos, side, *old(kifu), *final(kifu), outcome_view(out)),
        record_ok(*final(kifu)),
{
    let (head, arg) = split_command(input);
    if same_text(&head, ":moves") {
        let target = match &arg {
            Some(a) => {
                let t = string_of(a.as_slice());
                match parse_side_arg(t.as_str()) {
                    Some(s) => s,
                    None => {
                        return CommandOutcome::Stay(one_line("  使い方: :moves [s|g]  （s=先手、g=後手）"));
                    },
                }
            },
            None => side,
        };
        let out = moves_output(pos, target);
        proof {
            let acts = choose|acts: Seq<Action>|
                (forall|a: Action| #[trigger] acts.contains(a) <==> is_legal(*pos, target, a))
                    && lines_view(out@) == moves_lines(target, acts);
            assert(OutcomeView::Stay(lines_view(out@)) == OutcomeView::Stay(moves_lines(target, acts)));
        }
        return CommandOutcome::Stay(out);
    }
    if same_text(&head, ":board") {
        return CommandOutcome::Stay(board_lines(pos));
    }
    if same_text(&head, ":undo") {
        if kifu.plies.len() == 0 {
            return CommandOutcome::Stay(one_line("  取り消せる手がありません。"));
        }
        proof {
            lemma_drop_last_replays(kifu.initial_position, kifu.plies@);
        }
        kifu.undo();
        return CommandOutcome::Return(one_line("  1組手戻りました。"), InputResult::Reload);
    }
    if same_text(&head, ":save") {
        return match &arg {
            None => CommandOutcome::Stay(one_line("  使い方: :save <ファイルパス>")),
            Some(a) => {
                proof {
                    let init = kifu.initial_position;
                    let plies = kifu.plies@;
                    assert forall|i: int| 0 <= i < plies.len() implies (#[trigger] plies[i]).sente.wf()
                        && plies[i].gote.wf() by {
                        assert(step_ok(init, plies, i));
                    }
                    if plies.len() > 0 {
                        lemma_replay_counts_turns(init, plies, plies.len() - 1);
                        assert(step_ok(init, plies, plies.len() - 1));
                    }
                }
                CommandOutcome::Save { path: string_of(a.as_slice()), content: kifu_to_string(kifu) }
            },
        };
    }
    if same_text(&head, ":load") {
        return match &arg {
            None => CommandOutcome::Stay(one_line("  使い方: :load <ファイルパス>")),
            Some(a) => CommandOutcome::Load { path: string_of(a.as_slice()) },
        };
    }
    if same_text(&head, ":resign") {
        match &arg {
            Some(a) => {
                let t = string_of(a.as_slice());
                match parse_side_arg(t.as_str()) {
                    None => {
                        return CommandOutcome::Stay(one_line("  使い方: :resign [s|g]  （s=先手、g=後手）"));
                    },
                    Some(s) => {
                        if s != side {
                            let mut m = string_of_str("  現在は");
                            push_str(&mut m, side_name(side));
                            push_str(&mut m, "の入力フェーズです。");
                            push_str(&mut m, side_name(s));
                            push_str(&mut m, "の投了はその入力フェーズで行ってください。");
                            let mut v: Vec<String> = Vec::new();
                            push_line(&mut v, m);
                            assert(lines_view(v@) =~= seq![m@]);
                            return CommandOutcome::Stay(v);
                        }
                    },
                }
            },
            None => {},
        }
        let v: Vec<String> = Vec::new();
        assert(lines_view(v@) =~= Seq::<Seq<char>>::empty());
        return CommandOutcome::Return(v, InputResult::Decided(Decision::Resign));
    }
    if same_text(&head, ":quit") || same_text(&head, ":exit") {
        let v: Vec<String> = Vec::new();
        assert(lines_view(v@) =~= Seq::<Seq<char>>::empty());
        return CommandOutcome::Return(v, InputResult::Quit);
    }
    if same_text(&head, ":sfen") {
        let mut t = string_of_str("  ");
        let f = position_to_sfen(pos);
        push_str(&mut t, f.as_str());
        let mut v: Vec<String> = Vec::new();
        push_line(&mut v, t);
        assert(lines_view(v@) =~= seq![t@]);
        return CommandOutcome::Stay(v);
    }
    if same_text(&head, ":kifu") {
        return CommandOutcome::Stay(kifu_lines(kifu, None));
    }
    let mut t = string_of_str("  不明なコマンド: ");
    push_str(&mut t, input);
    let mut v: Vec<String> = Vec::new();
    push_line(&mut v, t);
    assert(lines_view(v@) =~= seq![t@]);
    CommandOutcome::Stay(v)
}

/// Reading the text of a record: it replaces the game when it parses and
/// replays (from turn number 1 or later).
pub open spec fn load_done(content: Seq<char>, path: Seq<char>, k0: Kifu, k1: Kifu, out: OutcomeView) -> bool {
    let kept = k1.initial_position == k0.initial_position && k1.plies@ == k0.plies@;
    match parse_kifu_text(content) {
        None => kept && out == OutcomeView::Stay(seq!["  棋譜のパースに失敗しました。"@]),
        Some((init, plies)) => if replayable(init, plies, plies.len() as int) && replay_spec(
            init,
            plies,
            plies.len(),
        ).has_room() && init.move_number >= 1 {
            &&& k1.initial_position == init
            &&& k1.plies@ == plies
            &&& out == OutcomeView::Return(
                seq!["  棋譜を "@ + path + " から読み込みました。"@],
                InputResult::Reload,
            )
        } else {
            kept && out == OutcomeView::Stay(seq!["  棋譜を再生できません。"@])
        },
    }
}

/// Replaces the game by the record read from `path` (see `load_done`).
pub fn load_record(content: &str, path: &str, kifu: &mut Kifu) -> (out: CommandOutcome)
    requires
        record_ok(*old(kifu)),
    ensures
        load_done(content@, path@, *old(kifu), *final(kifu), outcome_view(out)),
        record_ok(*final(kifu)),
{
    match kifu_from_string(content) {
        None => CommandOutcome::Stay(one_line("  棋譜のパースに失敗しました。")),
        Some(loaded) => {
            if !loaded.is_replayable() || loaded.initial_position.move_number < 1 {
                return CommandOutcome::Stay(one_line("  棋譜を再生できません。"));
            }
            let c = loaded.current();
            if !hands_have_room(&c) {
                return CommandOutcome::Stay(one_line("  棋譜を再生できません。"));
            }
            *kifu = loaded;
            let mut v: Vec<String> = Vec::new();
            push_line(&mut v, text3("  棋譜を ", path, " から読み込みました。"));
            assert(lines_view(v@) =~= seq!["  棋譜を "@ + path@ + " から読み込みました。"@]);
            CommandOutcome::Return(v, InputResult::Reload)
        },
    }
}

/// What an input line does while `side` enters its action on the latest
/// position of `k0`: a line starting with `:` is a command (see
/// `command_done`); otherwise a legal action in USI is the decision, and
/// anything else is refused with the reason.
pub open spec fn input_done(line: Seq<char>, side: Side, k0: Kifu, k1: Kifu, out: OutcomeView) -> bool {
    let input = trim(line);
    let pos = k0.position_at(k0.plies@.len() as int);
    if has_prefix(input, ":"@) {
        command_done(input, pos, side, k0, k1, out)
    } else {
        &&& k1.initial_position == k0.initial_position
        &&& k1.plies@ == k0.plies@
        &&& match parse_action(input) {
            None => out == OutcomeView::Stay(
                seq!["  入力形式が不正です。USI 形式で入力してください（例: 7g7f, P*5e）"@],
            ),
            Some(a) => if is_legal(pos, side, a) {
                out == OutcomeView::Return(Seq::empty(), InputResult::Decided(Decision::Move(a)))
            } else {
                out == OutcomeView::Stay(
                    seq![
                        "  "@ + input + " の合法手ではありません。"@,
                        reason_line(pos, side, a),
                        "  (:moves s または :moves g で合法手一覧を表示)"@,
                    ],
                )
            },
        }
    }
}

/// Handles one input line while `side` enters its action (see `input_done`).
pub fn input_step(line: &str, side: Side, kifu: &mut Kifu) -> (out: CommandOutcome)
    requires
        record_ok(*old(kifu)),
    ensures
        input_done(line@, side, *old(kifu), *final(kifu), outcome_view(out)),
        record_ok(*final(kifu)),
{
    let pos = kifu.current();
    proof {
        lemma_replay_counts_turns(kifu.initial_position, kifu.plies@, kifu.plies@.len() as int);
    }
    let v = chars_of(line);
    let t = trim_vec(v.as_slice());
    let input = string_of(t.as_slice());
    let colon = chars_of(":");
    if starts_with(t.as_slice(), colon.as_slice()) {
        return handle_command(input.as_str(), &pos, side, kifu);
    }
    match Action::from_usi(input.as_str()) {
        None => CommandOutcome::Stay(one_line("  入力形式が不正です。USI 形式で入力してください（例: 7g7f, P*5e）")),
        Some(a) => {
            let legal = legal_actions(&pos, side);
            if contains_action(&legal, a) {
                let v: Vec<String> = Vec::new();
                assert(lines_view(v@) =~= Seq::<Seq<char>>::empty());
                CommandOutcome::Return(v, InputResult::Decided(Decision::Move(a)))
            } else {
                let mut v: Vec<String> = Vec::new();
                push_line(&mut v, text3("  ", input.as_str(), " の合法手ではありません。"));
                push_line(&mut v, diagnose_illegal(&pos, side, a));
                push_line(&mut v, string_of_str("  (:moves s または :moves g で合法手一覧を表示)"));
                assert(lines_view(v@) =~= seq![
                    "  "@ + input@ + " の合法手ではありません。"@,
                    reason_line(pos, side, a),
                    "  (:moves s または :moves g で合法手一覧を表示)"@,
                ]);
                CommandOutcome::Stay(v)
            }
        },
    }
}

/// Before the actions of a turn: the end of the game when a camp has no legal
/// action, with its line.
pub open spec fn opening_result(pos: Position) -> Option<(Seq<char>, GameResult)> {
    match status_of(pos) {
        GameStatus::SenteLoses => Some(
            (
                "先手（手前）が着手不能 — 確定的詰み。後手の勝ち。"@,
                GameResult::GoteWins(WinReason::Checkmate),
            ),
        ),
        GameStatus::GoteLoses => Some(
            (
                "後手（上手）が着手不能 — 確定的詰み。先手の勝ち。"@,
                GameResult::SenteWins(WinReason::Checkmate),
            ),
        ),
        GameStatus::Draw => Some(("両者が着手不能 — 引き分け。"@, GameResult::Draw(DrawReason::BothCheckmate))),
        GameStatus::Ongoing => None,
    }
}

/// The end of the game before the actions of a turn (see `opening_result`).
pub fn opening_status(pos: &Position) -> (r: Option<(String, GameResult)>)
    requires
        pos.has_room(),
    ensures
        match opening_result(*pos) {
            Some((t, g)) => r matches Some((s, h)) && s@ == t && h == g,
            None => r is None,
        },
{
    match check_status(pos) {
        GameStatus::SenteLoses => Some(
            (
                string_of_str("先手（手前）が着手不能 — 確定的詰み。後手の勝ち。"),
                GameResult::GoteWins(WinReason::Checkmate),
            ),
        ),
        GameStatus::GoteLoses => Some(
            (
                string_of_str("後手（上手）が着手不能 — 確定的詰み。先手の勝ち。"),
                GameResult::SenteWins(WinReason::Checkmate),
            ),
        ),
        GameStatus::Draw => Some(
            (string_of_str("両者が着手不能 — 引き分け。"), GameResult::Draw(DrawReason::BothCheckmate)),
        ),
        GameStatus::Ongoing => None,
    }
}

/// The report of a turn: its lines, and the result when the game ended.
#[derive(Debug)]
pub struct TurnReport {
    pub lines: Vec<String>,
    pub result: Option<GameResult>,
}

/// Settling a turn from both decisions: a resignation ends the game (both
/// resigning is a draw); two actions are resolved and recorded, and the game
/// ends on a king's death, then on repetition.
pub open spec fn settle_done(k0: Kifu, sd: Decision, gd: Decision, k1: Kifu, lines: Seq<Seq<char>>, result: Option<GameResult>) -> bool {
    let kept = k1.initial_position == k0.initial_position && k1.plies@ == k0.plies@;
    let pos = k0.position_at(k0.plies@.len() as int);
    match (sd, gd) {
        (Decision::Resign, Decision::Resign) => kept && lines == seq!["両者が同時に投了。引き分け。"@]
            && result == Some(GameResult::Draw(DrawReason::BothResign)),
        (Decision::Resign, Decision::Move(_)) => kept && lines == seq!["先手が投了。後手の勝ち。"@]
            && result == Some(GameResult::GoteWins(WinReason::Resign)),
        (Decision::Move(_), Decision::Resign) => kept && lines == seq!["後手が投了。先手の勝ち。"@]
            && result == Some(GameResult::SenteWins(WinReason::Resign)),
        (Decision::Move(s), Decision::Move(g)) => {
            let res = spec_resolve(pos, s, g);
            if !(resolvable(pos, s, g) && res.next.has_room()) {
                kept && lines == seq!["  この組手は解決できません。"@] && result is None
            } else {
                let plies = k0.plies@.push(Ply { sente: s, gote: g });
                let rep = report_lines(res.event, s, g);
                &&& k1.initial_position == k0.initial_position
                &&& k1.plies@ == plies
                &&& match king_death_of(res.event) {
                    Some(GameEnd::SenteLoses) => lines == rep.push("先手玉が取られた。後手の勝ち。"@)
                        && result == Some(GameResult::GoteWins(WinReason::KingDied)),
                    Some(GameEnd::GoteLoses) => lines == rep.push("後手玉が取られた。先手の勝ち。"@)
                        && result == Some(GameResult::SenteWins(WinReason::KingDied)),
                    Some(GameEnd::Draw) => lines == rep.push("両玉が同時に取られた。引き分け。"@)
                        && result == Some(GameResult::Draw(DrawReason::BothKingDied)),
                    None => if sennichite_of(k0.initial_position, plies) {
                        lines == rep.push("千日手成立（同一局面4回）。暫定引き分け。"@) && result == Some(
                            GameResult::Draw(DrawReason::Sennichite),
                        )
                    } else {
                        lines == rep && result is None
                    },
                }
            }
        },
    }
}

/// Settles a turn from both decisions (see `settle_done`).
pub fn settle_turn(kifu: &mut Kifu, sente: Decision, gote: Decision) -> (r: TurnReport)
    requires
        record_ok(*old(kifu)),
    ensures
        settle_done(*old(kifu), sente, gote, *final(kifu), lines_view(r.lines@), r.result),
        record_ok(*final(kifu)),
{
    let (s, g) = match (sente, gote) {
        (Decision::Resign, Decision::Resign) => {
            return TurnReport { lines: one_line("両者が同時に投了。引き分け。"), result: Some(GameResult::Draw(DrawReason::BothResign)) };
        },
        (Decision::Resign, Decision::Move(_)) => {
            return TurnReport { lines: one_line("先手が投了。後手の勝ち。"), result: Some(GameResult::GoteWins(WinReason::Resign)) };
        },
        (Decision::Move(_), Decision::Resign) => {
            return TurnReport { lines: one_line("後手が投了。先手の勝ち。"), result: Some(GameResult::SenteWins(WinReason::Resign)) };
        },
        (Decision::Move(s), Decision::Move(g)) => (s, g),
    };
    let pos = kifu.current();
    if !can_resolve(&pos, s, g) {
        return TurnReport { lines: one_line("  この組手は解決できません。"), result: None };
    }
    let res = resolve(&pos, s, g);
    if !hands_have_room(&res.next) {
        return TurnReport { lines: one_line("  この組手は解決できません。"), result: None };
    }
    let mut lines = resolution_report(&res.event, s, g);
    let ply = Ply { sente: s, gote: g };
    proof {
        lemma_push_keeps_wf(*kifu, ply);
        lemma_push_replay(*kifu, ply, kifu.plies@.len() as int);
    }
    kifu.push(ply);
    match check_king_death(&res.event) {
        Some(GameEnd::SenteLoses) => {
            push_line(&mut lines, string_of_str("先手玉が取られた。後手の勝ち。"));
            return TurnReport { lines, result: Some(GameResult::GoteWins(WinReason::KingDied)) };
        },
        Some(GameEnd::GoteLoses) => {
            push_line(&mut lines, string_of_str("後手玉が取られた。先手の勝ち。"));
            return TurnReport { lines, result: Some(GameResult::SenteWins(WinReason::KingDied)) };
        },
        Some(GameEnd::Draw) => {
            push_line(&mut lines, string_of_str("両玉が同時に取られた。引き分け。"));
            return TurnReport { lines, result: Some(GameResult::Draw(DrawReason::BothKingDied)) };
        },
        None => {},
    }
    if check_sennichite(kifu) {
        push_line(&mut lines, string_of_str("千日手成立（同一局面4回）。暫定引き分け。"));
        return TurnReport { lines, result: Some(GameResult::Draw(DrawReason::Sennichite)) };
    }
    TurnReport { lines, result: None }
}

} // verus!
