//! The local analysis desk: one screen on which both camps enter their actions
//! in turn, then the turn is resolved. This module holds the desk's state
//! machine and the texts it shows; drawing and the terminal are the caller's.
use vstd::prelude::*;

use crate::board::Position;
use crate::resolve::ResolutionEvent;
use crate::text::{push_str, string_of_str};
use crate::types::{usi_action, Action, PieceKind, Side, Square};

pub mod state;
pub mod keys;
pub mod screen;

verus! {

/// What the desk is waiting for.
#[derive(Debug, Clone, Copy, PartialEq, Eq, Structural)]
pub enum Phase {
    SenteInput,
    GoteInput,
    PromotionChoice { from: Square, to: Square, side: Side },
    ResolveReady,
    GameOver(GameOverKind),
}

/// How a game on the desk ended.
#[derive(Debug, Clone, Copy, PartialEq, Eq, Structural)]
pub enum GameOverKind {
    SenteWins(WinReason),
    GoteWins(WinReason),
    Draw(DrawReason),
}

#[derive(Debug, Clone, Copy, PartialEq, Eq, Structural)]
pub enum WinReason {
    Resign,
    KingDied,
    Checkmate,
}

#[derive(Debug, Clone, Copy, PartialEq, Eq, Structural)]
pub enum DrawReason {
    BothKingDied,
    BothCheckmate,
    Sennichite,
}

/// What is picked up: nothing, a piece on the board, or a kind in hand.
#[derive(Debug, Clone, Copy, PartialEq, Eq, Structural)]
pub enum Selection {
    Empty,
    BoardPiece(Square),
    HandPiece(PieceKind),
}

/// Where the cursor keys act.
#[derive(Debug, Clone, Copy, PartialEq, Eq, Structural)]
pub enum FocusArea {
    Board,
    Hand,
}

/// Whether keys are commands or the text of a file path.
#[derive(Debug, Clone, Copy, PartialEq, Eq, Structural)]
pub enum InputMode {
    Normal,
    SavePath,
    LoadPath,
}

/// The name of a piece kind on the desk (one character for every kind).
pub open spec fn kind_name(kind: PieceKind) -> Seq<char> {
    match kind {
        PieceKind::Pawn => "歩"@,
        PieceKind::Lance => "香"@,
        PieceKind::Knight => "桂"@,
        PieceKind::Silver => "銀"@,
        PieceKind::Gold => "金"@,
        PieceKind::Bishop => "角"@,
        PieceKind::Rook => "飛"@,
        PieceKind::King => "玉"@,
        PieceKind::ProPawn => "と"@,
        PieceKind::ProLance => "杏"@,
        PieceKind::ProKnight => "圭"@,
        PieceKind::ProSilver => "全"@,
        PieceKind::Horse => "馬"@,
        PieceKind::Dragon => "龍"@,
    }
}

/// The name of a piece kind on the desk.
pub fn piece_kind_ja(kind: PieceKind) -> (s: &'static str)
    ensures
        s@ == kind_name(kind),
{
    match kind {
        PieceKind::Pawn => "歩",
        PieceKind::Lance => "香",
        PieceKind::Knight => "桂",
        PieceKind::Silver => "銀",
        PieceKind::Gold => "金",
        PieceKind::Bishop => "角",
        PieceKind::Rook => "飛",
        PieceKind::King => "玉",
        PieceKind::ProPawn => "と",
        PieceKind::ProLance => "杏",
        PieceKind::ProKnight => "圭",
        PieceKind::ProSilver => "全",
        PieceKind::Horse => "馬",
        PieceKind::Dragon => "龍",
    }
}

/// The line that announces the end of a game.
pub open spec fn game_over_line(kind: GameOverKind) -> Seq<char> {
    match kind {
        GameOverKind::SenteWins(WinReason::KingDied) => "先手の勝ち（後手玉が取られた）"@,
        GameOverKind::SenteWins(WinReason::Resign) => "先手の勝ち（後手投了）"@,
        GameOverKind::SenteWins(WinReason::Checkmate) => "先手の勝ち（後手着手不能）"@,
        GameOverKind::GoteWins(WinReason::KingDied) => "後手の勝ち（先手玉が取られた）"@,
        GameOverKind::GoteWins(WinReason::Resign) => "後手の勝ち（先手投了）"@,
        GameOverKind::GoteWins(WinReason::Checkmate) => "後手の勝ち（先手着手不能）"@,
        GameOverKind::Draw(DrawReason::BothKingDied) => "引き分け（両玉が取られた）"@,
        GameOverKind::Draw(DrawReason::BothCheckmate) => "引き分け（両者着手不能）"@,
        GameOverKind::Draw(DrawReason::Sennichite) => "引き分け（千日手）"@,
    }
}

/// The line that announces the end of a game.
pub fn game_over_text(kind: &GameOverKind) -> (s: &'static str)
    ensures
        s@ == game_over_line(*kind),
{
    match kind {
        GameOverKind::SenteWins(WinReason::KingDied) => "先手の勝ち（後手玉が取られた）",
        GameOverKind::SenteWins(WinReason::Resign) => "先手の勝ち（後手投了）",
        GameOverKind::SenteWins(WinReason::Checkmate) => "先手の勝ち（後手着手不能）",
        GameOverKind::GoteWins(WinReason::KingDied) => "後手の勝ち（先手玉が取られた）",
        GameOverKind::GoteWins(WinReason::Resign) => "後手の勝ち（先手投了）",
        GameOverKind::GoteWins(WinReason::Checkmate) => "後手の勝ち（先手着手不能）",
        GameOverKind::Draw(DrawReason::BothKingDied) => "引き分け（両玉が取られた）",
        GameOverKind::Draw(DrawReason::BothCheckmate) => "引き分け（両者着手不能）",
        GameOverKind::Draw(DrawReason::Sennichite) => "引き分け（千日手）",
    }
}

/// The action moves a king of the position.
pub open spec fn moves_king(pos: Position, a: Action) -> bool {
    match a.from_sq() {
        Some(f) => pos.board.at(f) matches Some(p) && p.kind == PieceKind::King,
        None => false,
    }
}

/// The king's action won a collision (4.7): it moved, and the other action
/// came onto the square it left or the square it went to.
pub open spec fn king_struck_back(pos: Position, king_act: Action, other: Action) -> bool {
    moves_king(pos, king_act) && (king_act.from_sq() == Some(other.to_sq()) || other.to_sq()
        == king_act.to_sq())
}

/// The line on one capture of a camp: a king's counterstroke is marked.
pub open spec fn capture_line(side_name: Seq<char>, struck_back: bool, kind: PieceKind) -> Seq<
    char,
> {
    if struck_back {
        "★戦国無双: "@ + side_name + "玉が"@ + kind_name(kind.unpromoted()) + "を斬り返した"@
    } else {
        side_name + "が"@ + kind_name(kind.unpromoted()) + "を取得"@
    }
}

/// The lines that describe a resolved turn: both actions, then what happened.
pub open spec fn resolution_lines(pos: Position, sente: Action, gote: Action, event: ResolutionEvent) -> Seq<
    Seq<char>,
> {
    let head = "先手: "@ + usi_action(sente) + "  後手: "@ + usi_action(gote);
    let rest: Seq<Seq<char>> = match event {
        ResolutionEvent::Normal { sente_capture, gote_capture } => {
            let s: Seq<Seq<char>> = match sente_capture {
                Some(k) => seq![capture_line("先手"@, king_struck_back(pos, sente, gote), k)],
                None => Seq::empty(),
            };
            let g: Seq<Seq<char>> = match gote_capture {
                Some(k) => seq![capture_line("後手"@, king_struck_back(pos, gote, sente), k)],
                None => Seq::empty(),
            };
            let none: Seq<Seq<char>> = if sente_capture is None && gote_capture is None {
                seq!["取得なし（逃げ・空き移動）"@]
            } else {
                Seq::empty()
            };
            s + g + none
        },
        ResolutionEvent::Clash { sente_piece, gote_piece } => seq![
            "相討ち: 先手の"@ + kind_name(sente_piece.unpromoted()) + "と後手の"@ + kind_name(
                gote_piece.unpromoted(),
            ) + "が交換"@,
        ],
        ResolutionEvent::SenteDied => seq!["先手玉が取られた！"@],
        ResolutionEvent::GoteDied => seq!["後手玉が取られた！"@],
        ResolutionEvent::BothDied => seq!["両玉が同時に取られた！"@],
    };
    seq![head] + rest
}

/// The views of a list of strings.
pub open spec fn texts_of(v: Seq<String>) -> Seq<Seq<char>> {
    v.map_values(|s: String| s@)
}

fn uses_king(pos: &Position, a: Action) -> (b: bool)
    requires
        a.wf(),
    ensures
        b == moves_king(*pos, a),
{
    match a.from_sq() {
        Some(f) => match pos.board.get(f) {
            Some(p) => p.kind == PieceKind::King,
            None => false,
        },
        None => false,
    }
}

fn struck_back(pos: &Position, king_act: Action, other: Action) -> (b: bool)
    requires
        king_act.wf(),
        !(king_act is Resign),
        !(other is Resign),
    ensures
        b == king_struck_back(*pos, king_act, other),
{
    uses_king(pos, king_act) && (match king_act.from_sq() {
        Some(f) => other.to_sq() == f,
        None => false,
    } || other.to_sq() == king_act.to_sq())
}

fn capture_text(side_name: &str, struck: bool, kind: PieceKind) -> (s: String)
    ensures
        s@ == capture_line(side_name@, struck, kind),
{
    let mut s = String::new();
    if struck {
        push_str(&mut s, "★戦国無双: ");
        push_str(&mut s, side_name);
        push_str(&mut s, "玉が");
        push_str(&mut s, piece_kind_ja(kind.unpromoted()));
        push_str(&mut s, "を斬り返した");
    } else {
        push_str(&mut s, side_name);
        push_str(&mut s, "が");
        push_str(&mut s, piece_kind_ja(kind.unpromoted()));
        push_str(&mut s, "を取得");
    }
    assert(s@ =~= capture_line(side_name@, struck, kind));
    s
}

/// The lines that describe a resolved turn (see `resolution_lines`).
pub fn build_resolution_text(pos: &Position, sente: Action, gote: Action, event: &ResolutionEvent) -> (v: Vec<String>)
    requires
        sente.wf(),
        gote.wf(),
        !(sente is Resign),
        !(gote is Resign),
    ensures
        texts_of(v@) == resolution_lines(*pos, sente, gote, *event),
{
    let mut lines: Vec<String> = Vec::new();
    let mut head = String::new();
    push_str(&mut head, "先手: ");
    let su = sente.to_usi();
    push_str(&mut head, su.as_str());
    push_str(&mut head, "  後手: ");
    let gu = gote.to_usi();
    push_str(&mut head, gu.as_str());
    lines.push(head);
    match *event {
        ResolutionEvent::Normal { sente_capture, gote_capture } => {
            match sente_capture {
                Some(k) => {
                    let sb = struck_back(pos, sente, gote);
                    lines.push(capture_text("先手", sb, k));
                },
                None => {},
            }
            match gote_capture {
                Some(k) => {
                    let gb = struck_back(pos, gote, sente);
                    lines.push(capture_text("後手", gb, k));
                },
                None => {},
            }
            if sente_capture.is_none() && gote_capture.is_none() {
                lines.push(string_of_str("取得なし（逃げ・空き移動）"));
            }
        },
        ResolutionEvent::Clash { sente_piece, gote_piece } => {
            let mut s = String::new();
            push_str(&mut s, "相討ち: 先手の");
            push_str(&mut s, piece_kind_ja(sente_piece.unpromoted()));
            push_str(&mut s, "と後手の");
            push_str(&mut s, piece_kind_ja(gote_piece.unpromoted()));
            push_str(&mut s, "が交換");
            lines.push(s);
        },
        ResolutionEvent::SenteDied => {
            lines.push(string_of_str("先手玉が取られた！"));
        },
        ResolutionEvent::GoteDied => {
            lines.push(string_of_str("後手玉が取られた！"));
        },
        ResolutionEvent::BothDied => {
            lines.push(string_of_str("両玉が同時に取られた！"));
        },
    }
    assert(texts_of(lines@) =~= resolution_lines(*pos, sente, gote, *event));
    lines
}

} // verus!
