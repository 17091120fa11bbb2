//! The state of the desk and every operation on it. Each operation is stated
//! as a function of the desk's view (`AppView`), so that a sequence of key
//! presses has an exact meaning.
use vstd::prelude::*;

use crate::board::{is_initial_position, slot_kind, Hand, Position};
use crate::desk::{
    build_resolution_text, kind_name, piece_kind_ja, resolution_lines, texts_of, DrawReason,
    FocusArea, GameOverKind, InputMode, Phase, Selection, WinReason,
};
use crate::kifu::{
    lemma_push_keeps_wf, lemma_push_replay, lemma_replay_prefix, replay_spec, replayable, step_ok,
    Kifu,
};
use crate::movegen::{is_legal, legal_actions};
use crate::resolve::{can_resolve, hands_have_room, resolvable, resolve, spec_resolve};
use crate::serialize::{
    kifu_from_string, kifu_to_string, kifu_text, parse_kifu_text, position_sfen, position_to_sfen,
};
use crate::terminate::{
    check_king_death, check_sennichite, check_status, king_death_of, sennichite_of, status_of,
    GameEnd, GameStatus,
};
use crate::text::{decimal, push_count, push_str, string_of_str};
use crate::types::{usi_action, Action, PieceKind, Ply, Side, Square};

verus! {

/// A rectangle of the screen, in terminal cells.
#[derive(Debug, Clone, Copy, PartialEq, Eq, Structural)]
pub struct Area {
    pub x: u16,
    pub y: u16,
    pub width: u16,
    pub height: u16,
}

/// Where the buttons and hand pieces were drawn last, for mouse clicks.
#[derive(Debug, Clone)]
pub struct ClickAreas {
    pub promote_yes: Option<Area>,
    pub promote_no: Option<Area>,
    pub resolve: Option<Area>,
    pub gameover_undo: Option<Area>,
    pub gameover_new: Option<Area>,
    pub gameover_quit: Option<Area>,
    pub sente_hand: Vec<(Area, PieceKind)>,
    pub gote_hand: Vec<(Area, PieceKind)>,
}

impl ClickAreas {
    /// Nothing has been drawn.
    pub open spec fn is_blank(&self) -> bool {
        &&& self.promote_yes is None
        &&& self.promote_no is None
        &&& self.resolve is None
        &&& self.gameover_undo is None
        &&& self.gameover_new is None
        &&& self.gameover_quit is None
        &&& self.sente_hand@.len() == 0
        &&& self.gote_hand@.len() == 0
    }
}

impl Default for ClickAreas {
    fn default() -> (c: Self)
        ensures
            c.is_blank(),
    {
        ClickAreas {
            promote_yes: None,
            promote_no: None,
            resolve: None,
            gameover_undo: None,
            gameover_new: None,
            gameover_quit: None,
            sente_hand: Vec::new(),
            gote_hand: Vec::new(),
        }
    }
}

/// The state of the desk.
pub struct App {
    pub kifu: Kifu,
    pub phase: Phase,
    pub sente_action: Option<Action>,
    pub gote_action: Option<Action>,
    /// The cursor: file and rank, 1 to 9.
    pub cursor_file: u8,
    pub cursor_rank: u8,
    pub focus: FocusArea,
    pub hand_cursor: usize,
    pub selection: Selection,
    pub highlights: Vec<Square>,
    pub last_resolution: Vec<String>,
    pub message: String,
    pub show_help: bool,
    pub show_sfen: bool,
    pub sfen_text: String,
    pub show_all_moves: bool,
    pub all_moves_text: Vec<String>,
    pub input_mode: InputMode,
    pub input_buffer: String,
    pub click_areas: ClickAreas,
}

/// The desk as values: the record split into its start and turns, texts as
/// character sequences, the highlighted squares as a set.
pub struct AppView {
    pub initial: Position,
    pub plies: Seq<Ply>,
    pub phase: Phase,
    pub sente_action: Option<Action>,
    pub gote_action: Option<Action>,
    pub cursor_file: u8,
    pub cursor_rank: u8,
    pub focus: FocusArea,
    pub hand_cursor: usize,
    pub selection: Selection,
    pub highlights: Set<Square>,
    pub last_resolution: Seq<Seq<char>>,
    pub message: Seq<char>,
    pub show_help: bool,
    pub show_sfen: bool,
    pub sfen_text: Seq<char>,
    pub show_all_moves: bool,
    pub all_moves_text: Seq<Seq<char>>,
    pub input_mode: InputMode,
    pub input_buffer: Seq<char>,
}

impl View for App {
    type V = AppView;

    open spec fn view(&self) -> AppView {
        AppView {
            initial: self.kifu.initial_position,
            plies: self.kifu.plies@,
            phase: self.phase,
            sente_action: self.sente_action,
            gote_action: self.gote_action,
            cursor_file: self.cursor_file,
            cursor_rank: self.cursor_rank,
            focus: self.focus,
            hand_cursor: self.hand_cursor,
            selection: self.selection,
            highlights: self.highlights@.to_set(),
            last_resolution: texts_of(self.last_resolution@),
            message: self.message@,
            show_help: self.show_help,
            show_sfen: self.show_sfen,
            sfen_text: self.sfen_text@,
            show_all_moves: self.show_all_moves,
            all_moves_text: texts_of(self.all_moves_text@),
            input_mode: self.input_mode,
            input_buffer: self.input_buffer@,
        }
    }
}

/// The position on the desk: the last one of the record.
pub open spec fn cur(v: AppView) -> Position {
    replay_spec(v.initial, v.plies, v.plies.len())
}

/// A desk that can go on: its record replays, its hands have room, the cursor
/// is on the board, the hand cursor is within the seven kinds, the squares it
/// holds are on the board, a kind picked in hand is a base kind, and the
/// actions entered are well formed.
pub open spec fn desk_wf(v: AppView) -> bool {
    &&& replayable(v.initial, v.plies, v.plies.len() as int)
    &&& cur(v).has_room()
    &&& 1 <= v.cursor_file <= 9
    &&& 1 <= v.cursor_rank <= 9
    &&& v.hand_cursor < 7
    &&& v.selection matches Selection::BoardPiece(sq) ==> sq.wf()
    &&& v.selection matches Selection::HandPiece(kind) ==> !kind.is_promoted()
    &&& v.phase matches Phase::PromotionChoice { from, to, .. } ==> from.wf() && to.wf()
    &&& v.sente_action matches Some(a) ==> a.wf()
    &&& v.gote_action matches Some(a) ==> a.wf()
}

/// The camp whose action is being entered.
pub open spec fn side_of(p: Phase) -> Option<Side> {
    match p {
        Phase::SenteInput => Some(Side::Sente),
        Phase::GoteInput => Some(Side::Gote),
        _ => None,
    }
}

/// The input phase of a camp.
pub open spec fn input_phase(side: Side) -> Phase {
    match side {
        Side::Sente => Phase::SenteInput,
        Side::Gote => Phase::GoteInput,
    }
}

/// Nothing picked up, nothing highlighted, the cursor keys on the board.
pub open spec fn cleared(v: AppView) -> AppView {
    AppView { selection: Selection::Empty, highlights: Set::empty(), focus: FocusArea::Board, ..v }
}

/// `sq` is where the selection can go for `side`: a legal move of the picked
/// piece (promoting or not), or a legal drop of the picked kind.
pub open spec fn reaches(pos: Position, side: Side, sel: Selection, sq: Square) -> bool {
    match sel {
        Selection::Empty => false,
        Selection::BoardPiece(from) => is_legal(
            pos,
            side,
            Action::Move { from, to: sq, promote: false },
        ) || is_legal(pos, side, Action::Move { from, to: sq, promote: true }),
        Selection::HandPiece(kind) => is_legal(pos, side, Action::Drop { kind, to: sq }),
    }
}

/// The squares to highlight for the selection of the camp being entered.
pub open spec fn highlight_set(v: AppView) -> Set<Square> {
    match side_of(v.phase) {
        Some(side) => Set::new(|sq: Square| reaches(cur(v), side, v.selection, sq)),
        None => Set::empty(),
    }
}

pub open spec fn highlighted(v: AppView) -> AppView {
    AppView { highlights: highlight_set(v), ..v }
}

/// An action is chosen: sente's, then gote enters; gote's, then the turn can
/// be resolved.
pub open spec fn after_action(v: AppView, a: Action, side: Side) -> AppView {
    let c = cleared(v);
    match side {
        Side::Sente => AppView {
            sente_action: Some(a),
            phase: Phase::GoteInput,
            cursor_file: 5,
            cursor_rank: 1,
            message: "先手: "@ + usi_action(a) + " 確定。後手の着手を入力してください"@,
            ..c
        },
        Side::Gote => AppView {
            gote_action: Some(a),
            phase: Phase::ResolveReady,
            message: "後手: "@ + usi_action(a) + " 確定。[Enter]で解決"@,
            ..c
        },
    }
}

/// A move is chosen: asked whether to promote when both are legal, else
/// taken (promoting when only that is legal).
pub open spec fn after_confirm_move(v: AppView, from: Square, to: Square, side: Side) -> AppView {
    let pos = cur(v);
    let can_promote = is_legal(pos, side, Action::Move { from, to, promote: true });
    let can_stay = is_legal(pos, side, Action::Move { from, to, promote: false });
    if can_promote && can_stay {
        AppView {
            phase: Phase::PromotionChoice { from, to, side },
            message: "[y]/[p]成る  [n]成らない  [Esc]キャンセル"@,
            ..cleared(v)
        }
    } else {
        after_action(v, Action::Move { from, to, promote: can_promote }, side)
    }
}

/// A piece of the board is picked up.
pub open spec fn pick_board_piece(v: AppView, sq: Square, msg: Seq<char>) -> AppView {
    AppView { message: msg, ..highlighted(AppView { selection: Selection::BoardPiece(sq), ..v }) }
}

/// A square is pressed while `side` enters its action.
pub open spec fn after_board_press(v: AppView, sq: Square, side: Side) -> AppView {
    let pos = cur(v);
    match v.selection {
        Selection::Empty => match pos.board.at(sq) {
            Some(p) => if p.side == side {
                pick_board_piece(
                    v,
                    sq,
                    kind_name(p.kind) + "を選択 — 移動先を選んでください（Escでキャンセル）"@,
                )
            } else {
                AppView { message: "自分の駒を選んでください"@, ..v }
            },
            None => AppView { message: "その位置に駒がありません"@, ..v },
        },
        Selection::BoardPiece(from) => if sq == from {
            cleared(v)
        } else if v.highlights.contains(sq) {
            after_confirm_move(v, from, sq, side)
        } else {
            match pos.board.at(sq) {
                Some(p) => if p.side == side {
                    pick_board_piece(v, sq, kind_name(p.kind) + "を選択"@)
                } else {
                    AppView { message: "合法手ではありません"@, ..v }
                },
                None => AppView { message: "合法手ではありません"@, ..v },
            }
        },
        Selection::HandPiece(kind) => if v.highlights.contains(sq) {
            after_action(v, Action::Drop { kind, to: sq }, side)
        } else {
            AppView { message: "その位置には打てません"@, ..v }
        },
    }
}

/// The answer to the promotion question.
pub open spec fn after_promotion(v: AppView, promote: bool) -> AppView {
    match v.phase {
        Phase::PromotionChoice { from, to, side } => after_action(
            v,
            Action::Move { from, to, promote },
            side,
        ),
        _ => v,
    }
}

/// The promotion question is withdrawn: back to the camp's input.
pub open spec fn after_cancel_promotion(v: AppView) -> AppView {
    match v.phase {
        Phase::PromotionChoice { side, .. } => AppView {
            phase: input_phase(side),
            message: "キャンセルしました"@,
            ..v
        },
        _ => v,
    }
}

/// The kind picked in hand is kept, and the cursor goes back to the board.
pub open spec fn after_confirm_hand(v: AppView) -> AppView {
    match v.selection {
        Selection::HandPiece(kind) => AppView {
            focus: FocusArea::Board,
            message: kind_name(kind) + "を持っています — 打ち先のマスを選んでください"@,
            ..v
        },
        _ => v,
    }
}

/// The kinds a hand holds, in slot order, among the first `n` slots.
pub open spec fn held_kinds(h: Hand, n: int) -> Seq<PieceKind>
    decreases n,
{
    if n <= 0 {
        Seq::empty()
    } else {
        let prev = held_kinds(h, n - 1);
        if h.spec_count(slot_kind(n - 1)) > 0 {
            prev.push(slot_kind(n - 1))
        } else {
            prev
        }
    }
}

/// The kinds a hand holds, in slot order.
pub open spec fn hand_list(h: Hand) -> Seq<PieceKind> {
    held_kinds(h, 7)
}

/// The action is the kind the selection asks for: a move of the picked piece,
/// or a drop of the picked kind.
pub open spec fn picks(a: Action, sel: Selection) -> bool {
    match sel {
        Selection::Empty => false,
        Selection::BoardPiece(from) => a.from_sq() == Some(from),
        Selection::HandPiece(kind) => a matches Action::Drop { kind: k, .. } && k == kind,
    }
}

/// The hand cursor moves by `dir` among the kinds held, wrapping around.
pub open spec fn after_move_hand_cursor(v: AppView, dir: int) -> AppView {
    match side_of(v.phase) {
        None => v,
        Some(side) => {
            let ks = hand_list(cur(v).spec_hand(side));
            if ks.len() == 0 {
                v
            } else {
                let hc = (v.hand_cursor + dir) % (ks.len() as int);
                let k = ks[hc];
                AppView {
                    message: "駒台: "@ + kind_name(k) + "選択中 — ←→で変更、Enterで確定"@,
                    ..highlighted(
                        AppView { hand_cursor: hc as usize, selection: Selection::HandPiece(k), ..v },
                    )
                }
            }
        },
    }
}

/// The cursor keys move to the hand (picking its first kind) or back to the board.
pub open spec fn after_toggle_hand_focus(v: AppView) -> AppView {
    match side_of(v.phase) {
        None => v,
        Some(side) => if v.focus == FocusArea::Hand {
            cleared(v)
        } else {
            let ks = hand_list(cur(v).spec_hand(side));
            if ks.len() == 0 {
                AppView { message: "持ち駒がありません"@, ..v }
            } else {
                let k = ks[0];
                AppView {
                    message: "駒台: "@ + kind_name(k)
                        + "選択中 — ←→で変更、Enterで確定、Escでキャンセル"@,
                    ..highlighted(
                        AppView {
                            focus: FocusArea::Hand,
                            hand_cursor: 0,
                            selection: Selection::HandPiece(k),
                            ..v
                        },
                    )
                }
            }
        },
    }
}

/// A kind in hand is picked by its number key.
pub open spec fn after_select_hand_direct(v: AppView, kind: PieceKind) -> AppView {
    match side_of(v.phase) {
        None => v,
        Some(side) => if cur(v).spec_hand(side).spec_count(kind) > 0 {
            AppView {
                message: kind_name(kind) + "打ち — 移動先を選んでください"@,
                focus: FocusArea::Board,
                ..highlighted(
                    AppView { focus: FocusArea::Hand, selection: Selection::HandPiece(kind), ..v },
                )
            }
        } else {
            AppView { message: kind_name(kind) + "は持ち駒にありません"@, ..v }
        },
    }
}

/// The message when the chosen actions cannot be resolved on the position
/// (or a hand would overflow).
pub open spec fn refused_turn_message() -> Seq<char> {
    "この組手は解決できません"@
}

/// The turn is resolved: the lines describing it are shown, it is recorded,
/// and the game ends on a king's death, then repetition, then a camp without
/// a legal action; otherwise sente enters next.
pub open spec fn after_resolve(v: AppView) -> AppView {
    match (v.sente_action, v.gote_action) {
        (Some(s), Some(g)) => {
            let pos = cur(v);
            let res = spec_resolve(pos, s, g);
            if !(resolvable(pos, s, g) && res.next.has_room()) {
                AppView { message: refused_turn_message(), ..v }
            } else {
                let lines = resolution_lines(pos, s, g, res.event);
                let plies = v.plies.push(Ply { sente: s, gote: g });
                let b = AppView {
                    last_resolution: lines,
                    plies,
                    sente_action: None,
                    gote_action: None,
                    show_all_moves: false,
                    ..v
                };
                match king_death_of(res.event) {
                    Some(GameEnd::SenteLoses) => AppView {
                        last_resolution: lines.push("→ 後手の勝ち（先手玉が取られた）"@),
                        phase: Phase::GameOver(GameOverKind::GoteWins(WinReason::KingDied)),
                        ..b
                    },
                    Some(GameEnd::GoteLoses) => AppView {
                        last_resolution: lines.push("→ 先手の勝ち（後手玉が取られた）"@),
                        phase: Phase::GameOver(GameOverKind::SenteWins(WinReason::KingDied)),
                        ..b
                    },
                    Some(GameEnd::Draw) => AppView {
                        last_resolution: lines.push("→ 引き分け（両玉が取られた）"@),
                        phase: Phase::GameOver(GameOverKind::Draw(DrawReason::BothKingDied)),
                        ..b
                    },
                    None => if sennichite_of(v.initial, plies) {
                        AppView {
                            last_resolution: lines.push("→ 千日手（引き分け）"@),
                            phase: Phase::GameOver(GameOverKind::Draw(DrawReason::Sennichite)),
                            ..b
                        }
                    } else {
                        match status_of(res.next) {
                            GameStatus::SenteLoses => AppView {
                                last_resolution: lines.push("→ 後手の勝ち（先手着手不能）"@),
                                phase: Phase::GameOver(GameOverKind::GoteWins(WinReason::Checkmate)),
                                ..b
                            },
                            GameStatus::GoteLoses => AppView {
                                last_resolution: lines.push("→ 先手の勝ち（後手着手不能）"@),
                                phase: Phase::GameOver(GameOverKind::SenteWins(WinReason::Checkmate)),
                                ..b
                            },
                            GameStatus::Draw => AppView {
                                last_resolution: lines.push("→ 引き分け（両者着手不能）"@),
                                phase: Phase::GameOver(GameOverKind::Draw(DrawReason::BothCheckmate)),
                                ..b
                            },
                            GameStatus::Ongoing => AppView {
                                phase: Phase::SenteInput,
                                cursor_file: 5,
                                cursor_rank: 9,
                                message: Seq::empty(),
                                ..b
                            },
                        }
                    },
                }
            }
        },
        _ => v,
    }
}

/// Enter: confirm the kind in hand or press the square under the cursor while
/// a camp enters; resolve when ready; promote when asked.
pub open spec fn after_enter(v: AppView) -> AppView {
    match v.phase {
        Phase::SenteInput | Phase::GoteInput => match v.focus {
            FocusArea::Hand => after_confirm_hand(v),
            FocusArea::Board => after_board_press(
                v,
                Square::spec_new(v.cursor_file as int, v.cursor_rank as int),
                side_of(v.phase)->0,
            ),
        },
        Phase::ResolveReady => after_resolve(v),
        Phase::PromotionChoice { .. } => after_promotion(v, true),
        Phase::GameOver(_) => v,
    }
}

/// Escape: withdraw the promotion question, drop the selection, or take back
/// gote's action before resolution.
pub open spec fn after_escape(v: AppView) -> AppView {
    match v.phase {
        Phase::PromotionChoice { .. } => after_cancel_promotion(v),
        Phase::SenteInput | Phase::GoteInput => if v.selection != Selection::Empty {
            AppView { message: "選択解除"@, ..cleared(v) }
        } else {
            v
        },
        Phase::ResolveReady => AppView {
            gote_action: None,
            phase: Phase::GoteInput,
            message: "後手の着手をリセット"@,
            ..v
        },
        Phase::GameOver(_) => v,
    }
}

/// Undo: a turn being entered is reset; otherwise the last turn is taken back.
pub open spec fn after_undo(v: AppView) -> AppView {
    if v.sente_action is Some || v.phase == Phase::GoteInput || v.phase == Phase::ResolveReady {
        AppView {
            sente_action: None,
            gote_action: None,
            phase: Phase::SenteInput,
            cursor_file: 5,
            cursor_rank: 9,
            message: "入力をリセットしました"@,
            ..cleared(v)
        }
    } else if v.plies.len() == 0 {
        AppView { message: "取り消せる手がありません"@, ..v }
    } else {
        AppView {
            plies: v.plies.drop_last(),
            phase: Phase::SenteInput,
            sente_action: None,
            gote_action: None,
            cursor_file: 5,
            cursor_rank: 9,
            message: "1ターン戻しました"@,
            ..cleared(v)
        }
    }
}

/// Resignation of the camp that is entering its action.
pub open spec fn after_resign(v: AppView) -> AppView {
    match v.phase {
        Phase::SenteInput => AppView {
            phase: Phase::GameOver(GameOverKind::GoteWins(WinReason::Resign)),
            message: "先手投了"@,
            ..v
        },
        Phase::GoteInput => AppView {
            phase: Phase::GameOver(GameOverKind::SenteWins(WinReason::Resign)),
            message: "後手投了"@,
            ..v
        },
        _ => AppView { message: "現在投了できません"@, ..v },
    }
}

/// The SFEN of the position is shown, or hidden.
pub open spec fn after_toggle_sfen(v: AppView) -> AppView {
    if v.show_sfen {
        AppView { show_sfen: false, ..v }
    } else {
        AppView { sfen_text: position_sfen(cur(v)), show_sfen: true, ..v }
    }
}

/// The camp whose legal actions are listed: the one entering, else sente.
pub open spec fn listed_side(v: AppView) -> Side {
    match side_of(v.phase) {
        Some(s) => s,
        None => Side::Sente,
    }
}

/// The legal actions are listed (in some order, each legal action at least
/// once and nothing else), or the list is hidden.
pub open spec fn toggles_all_moves(v: AppView, w: AppView) -> bool {
    if v.show_all_moves {
        w == AppView { show_all_moves: false, all_moves_text: Seq::empty(), ..v }
    } else {
        let side = listed_side(v);
        exists|acts: Seq<Action>|
            {
                &&& forall|a: Action| #[trigger] acts.contains(a) <==> is_legal(cur(v), side, a)
                &&& w == AppView {
                    all_moves_text: acts.map_values(|a: Action| usi_action(a)),
                    message: (if side == Side::Sente {
                        "先手"@
                    } else {
                        "後手"@
                    }) + " の合法手: "@ + decimal(acts.len()) + "手"@,
                    show_all_moves: true,
                    ..v
                }
            }
    }
}

/// A record read from text replaces the game, or the reason it cannot.
pub open spec fn after_load(v: AppView, content: Seq<char>, path: Seq<char>) -> AppView {
    match parse_kifu_text(content) {
        None => AppView { message: "棋譜のパースに失敗しました"@, ..v },
        Some((init, plies)) => if replayable(init, plies, plies.len() as int) && replay_spec(
            init,
            plies,
            plies.len(),
        ).has_room() {
            AppView {
                initial: init,
                plies,
                phase: Phase::SenteInput,
                sente_action: None,
                gote_action: None,
                cursor_file: 5,
                cursor_rank: 9,
                last_resolution: Seq::empty(),
                message: path + " を読み込みました"@,
                ..cleared(v)
            }
        } else {
            AppView { message: "棋譜を再生できません"@, ..v }
        },
    }
}

/// Each turn of a record that replays moves the turn number on by one.
pub proof fn lemma_replay_counts_turns(init: Position, plies: Seq<Ply>, n: int)
    requires
        0 <= n <= plies.len(),
        replayable(init, plies, n),
    ensures
        replay_spec(init, plies, n as nat).move_number == init.move_number + n,
    decreases n,
{
    if n > 0 {
        lemma_replay_counts_turns(init, plies, n - 1);
        assert(step_ok(init, plies, n - 1));
    }
}

/// Taking back the last turn of a record that replays leaves one that replays,
/// ending on the position before that turn, whose hands have room.
pub proof fn lemma_drop_last_replays(init: Position, plies: Seq<Ply>)
    requires
        plies.len() > 0,
        replayable(init, plies, plies.len() as int),
    ensures
        replayable(init, plies.drop_last(), plies.len() - 1),
        replay_spec(init, plies.drop_last(), (plies.len() - 1) as nat) == replay_spec(
            init,
            plies,
            (plies.len() - 1) as nat,
        ),
        replay_spec(init, plies.drop_last(), (plies.len() - 1) as nat).has_room(),
{
    let d = plies.drop_last();
    let last = plies.last();
    assert(d.push(last) =~= plies);
    assert forall|k: int| 0 <= k < plies.len() - 1 implies #[trigger] step_ok(init, d, k) by {
        lemma_replay_prefix(init, d, last, k as nat);
        assert(step_ok(init, plies, k));
        assert(d[k] == plies[k]);
    }
    lemma_replay_prefix(init, d, last, d.len());
    assert(step_ok(init, plies, plies.len() - 1));
}

/// A fresh desk: the standard start, sente to enter, nothing shown.
pub open spec fn is_fresh(v: AppView) -> bool {
    &&& is_initial_position(v.initial)
    &&& v.plies.len() == 0
    &&& v.phase == Phase::SenteInput
    &&& v.sente_action is None
    &&& v.gote_action is None
    &&& v.cursor_file == 5
    &&& v.cursor_rank == 9
    &&& v.focus == FocusArea::Board
    &&& v.hand_cursor == 0
    &&& v.selection == Selection::Empty
    &&& v.highlights == Set::<Square>::empty()
    &&& v.last_resolution.len() == 0
    &&& v.message == "'?'キーでヘルプを表示"@
    &&& !v.show_help
    &&& !v.show_sfen
    &&& v.sfen_text.len() == 0
    &&& !v.show_all_moves
    &&& v.all_moves_text.len() == 0
    &&& v.input_mode == InputMode::Normal
    &&& v.input_buffer.len() == 0
}

fn targets(actions: &Vec<Action>, sel: Selection) -> (out: Vec<Square>)
    requires
        forall|k: int| 0 <= k < actions@.len() ==> !(#[trigger] actions@[k] is Resign),
    ensures
        forall|sq: Square|
            out@.contains(sq) <==> exists|k: int|
                0 <= k < actions@.len() && picks(#[trigger] actions@[k], sel) && actions@[k].to_sq()
                    == sq,
{
    let mut out: Vec<Square> = Vec::new();
    let mut i: usize = 0;
    while i < actions.len()
        invariant
            i <= actions@.len(),
            forall|k: int| 0 <= k < actions@.len() ==> !(#[trigger] actions@[k] is Resign),
            forall|sq: Square|
                out@.contains(sq) <==> exists|k: int|
                    0 <= k < i && picks(#[trigger] actions@[k], sel) && actions@[k].to_sq() == sq,
        decreases actions@.len() - i,
    {
        let a = actions[i];
        let hit = match sel {
            Selection::Empty => false,
            Selection::BoardPiece(from) => match a.from_sq() {
                Some(f) => f == from,
                None => false,
            },
            Selection::HandPiece(kind) => match a {
                Action::Drop { kind: k, .. } => k == kind,
                _ => false,
            },
        };
        assert(hit == picks(a, sel));
        let ghost before = out@;
        if hit {
            out.push(a.to_sq());
        }
        proof {
            assert forall|sq: Square| out@.contains(sq) <==> exists|k: int|
                0 <= k < i + 1 && picks(#[trigger] actions@[k], sel) && actions@[k].to_sq() == sq by {
                if out@.contains(sq) {
                    if before.contains(sq) {
                        let k = choose|k: int|
                            0 <= k < i && picks(#[trigger] actions@[k], sel) && actions@[k].to_sq()
                                == sq;
                        assert(0 <= k < i + 1);
                    } else {
                        assert(hit);
                        assert(out@ == before.push(a.to_sq()));
                        assert(out@.last() == sq) by {
                            let j = choose|j: int| 0 <= j < out@.len() && out@[j] == sq;
                            if j < before.len() {
                                assert(before[j] == sq);
                                assert(before.contains(sq));
                            }
                        }
                        assert(picks(actions@[i as int], sel) && actions@[i as int].to_sq() == sq);
                    }
                }
                if exists|k: int|
                    0 <= k < i + 1 && picks(#[trigger] actions@[k], sel) && actions@[k].to_sq()
                        == sq {
                    let k = choose|k: int|
                        0 <= k < i + 1 && picks(#[trigger] actions@[k], sel) && actions@[k].to_sq()
                            == sq;
                    if k < i {
                        assert(before.contains(sq));
                        let j = choose|j: int| 0 <= j < before.len() && before[j] == sq;
                        assert(out@[j] == sq);
                    } else {
                        assert(hit);
                        assert(out@[out@.len() - 1] == sq);
                    }
                }
            }
        }
        i += 1;
    }
    out
}

fn has_square(v: &Vec<Square>, sq: Square) -> (b: bool)
    ensures
        b == v@.contains(sq),
{
    let mut i: usize = 0;
    while i < v.len()
        invariant
            i <= v@.len(),
            forall|k: int| 0 <= k < i ==> v@[k] != sq,
        decreases v@.len() - i,
    {
        if v[i] == sq {
            assert(v@[i as int] == sq);
            return true;
        }
        i += 1;
    }
    false
}

fn text3(a: &str, b: &str, c: &str) -> (s: String)
    ensures
        s@ == a@ + b@ + c@,
{
    let mut s = String::new();
    push_str(&mut s, a);
    push_str(&mut s, b);
    push_str(&mut s, c);
    assert(s@ =~= a@ + b@ + c@);
    s
}

impl App {
    /// The desk can go on (see `desk_wf`).
    pub open spec fn wf(&self) -> bool {
        desk_wf(self@)
    }

    /// A fresh desk (see `is_fresh`).
    pub fn new() -> (a: Self)
        ensures
            is_fresh(a@),
            a.wf(),
            a.click_areas.is_blank(),
    {
        let a = App {
            kifu: Kifu::new(Position::initial()),
            phase: Phase::SenteInput,
            sente_action: None,
            gote_action: None,
            cursor_file: 5,
            cursor_rank: 9,
            focus: FocusArea::Board,
            hand_cursor: 0,
            selection: Selection::Empty,
            highlights: Vec::new(),
            last_resolution: Vec::new(),
            message: string_of_str("'?'キーでヘルプを表示"),
            show_help: false,
            show_sfen: false,
            sfen_text: String::new(),
            show_all_moves: false,
            all_moves_text: Vec::new(),
            input_mode: InputMode::Normal,
            input_buffer: String::new(),
            click_areas: ClickAreas::default(),
        };
        proof {
            assert(a@.highlights =~= Set::<Square>::empty());
            assert(a@.last_resolution =~= Seq::<Seq<char>>::empty());
            assert(a@.all_moves_text =~= Seq::<Seq<char>>::empty());
            assert(cur(a@) == a.kifu.initial_position);
            assert(a.kifu.initial_position.has_room());
        }
        a
    }

    /// The position on the desk.
    pub fn current_pos(&self) -> (p: Position)
        requires
            self.wf(),
        ensures
            p == cur(self@),
    {
        self.kifu.current()
    }

    /// The camp whose action is being entered, if any.
    pub fn current_side(&self) -> (s: Option<Side>)
        ensures
            s == side_of(self.phase),
    {
        match self.phase {
            Phase::SenteInput => Some(Side::Sente),
            Phase::GoteInput => Some(Side::Gote),
            _ => None,
        }
    }

    /// The square under the cursor.
    pub fn cursor_sq(&self) -> (sq: Square)
        requires
            self.wf(),
        ensures
            sq == Square::spec_new(self.cursor_file as int, self.cursor_rank as int),
            sq.wf(),
    {
        Square::new(self.cursor_file, self.cursor_rank)
    }

    /// Moves the cursor by a number of files and ranks, staying on the board.
    pub fn move_cursor(&mut self, df: i8, dr: i8)
        requires
            old(self).cursor_file + df <= 127,
            old(self).cursor_rank + dr <= 127,
            old(self).cursor_file <= 127,
            old(self).cursor_rank <= 127,
        ensures
            final(self)@ == (AppView {
                cursor_file: clamp9(old(self).cursor_file + df) as u8,
                cursor_rank: clamp9(old(self).cursor_rank + dr) as u8,
                ..old(self)@
            }),
    {
        let f = clamp_i8(self.cursor_file as i8 + df);
        let r = clamp_i8(self.cursor_rank as i8 + dr);
        self.cursor_file = f;
        self.cursor_rank = r;
    }

    /// Drops the selection and its highlights; the cursor keys act on the board.
    pub fn clear_selection(&mut self)
        ensures
            final(self)@ == cleared(old(self)@),
            final(self).kifu == old(self).kifu,
            final(self).click_areas == old(self).click_areas,
    {
        self.selection = Selection::Empty;
        self.highlights = Vec::new();
        self.focus = FocusArea::Board;
        assert(self@.highlights =~= Set::<Square>::empty());
    }

    fn update_highlights(&mut self)
        requires
            old(self).wf(),
        ensures
            final(self)@ == highlighted(old(self)@),
            final(self).kifu == old(self).kifu,
            final(self).click_areas == old(self).click_areas,
    {
        let side = match self.current_side() {
            Some(s) => s,
            None => {
                self.highlights = Vec::new();
                assert(self@.highlights =~= highlight_set(old(self)@));
                return ;
            },
        };
        let pos = self.current_pos();
        let actions = legal_actions(&pos, side);
        proof {
            assert forall|k: int| 0 <= k < actions@.len() implies !(#[trigger] actions@[k] is Resign) by {
                assert(actions@.contains(actions@[k]));
            }
        }
        let out = targets(&actions, self.selection);
        proof {
            let sel = self.selection;
            assert forall|sq: Square| #[trigger] out@.contains(sq) == reaches(pos, side, sel, sq) by {
                if out@.contains(sq) {
                    let k = choose|k: int|
                        0 <= k < actions@.len() && picks(#[trigger] actions@[k], sel)
                            && actions@[k].to_sq() == sq;
                    assert(actions@.contains(actions@[k]));
                    assert(is_legal(pos, side, actions@[k]));
                }
                if reaches(pos, side, sel, sq) {
                    match sel {
                        Selection::BoardPiece(from) => {
                            let m0 = Action::Move { from, to: sq, promote: false };
                            let m1 = Action::Move { from, to: sq, promote: true };
                            let m = if is_legal(pos, side, m0) { m0 } else { m1 };
                            assert(actions@.contains(m));
                            let k = choose|k: int| 0 <= k < actions@.len() && actions@[k] == m;
                            assert(picks(actions@[k], sel) && actions@[k].to_sq() == sq);
                        },
                        Selection::HandPiece(kind) => {
                            let d = Action::Drop { kind, to: sq };
                            assert(actions@.contains(d));
                            let k = choose|k: int| 0 <= k < actions@.len() && actions@[k] == d;
                            assert(picks(actions@[k], sel) && actions@[k].to_sq() == sq);
                        },
                        Selection::Empty => {},
                    }
                }
            }
        }
        self.highlights = out;
        assert(self@.highlights =~= highlight_set(old(self)@));
    }

    fn apply_action(&mut self, action: Action, side: Side)
        requires
            action.wf(),
        ensures
            final(self)@ == after_action(old(self)@, action, side),
            final(self).kifu == old(self).kifu,
            final(self).click_areas == old(self).click_areas,
    {
        self.clear_selection();
        let u = action.to_usi();
        match side {
            Side::Sente => {
                self.sente_action = Some(action);
                self.phase = Phase::GoteInput;
                self.cursor_file = 5;
                self.cursor_rank = 1;
                self.message = text3("先手: ", u.as_str(), " 確定。後手の着手を入力してください");
            },
            Side::Gote => {
                self.gote_action = Some(action);
                self.phase = Phase::ResolveReady;
                self.message = text3("後手: ", u.as_str(), " 確定。[Enter]で解決");
            },
        }
    }

    fn confirm_move(&mut self, from: Square, to: Square, side: Side)
        requires
            old(self).wf(),
            from.wf(),
            to.wf(),
        ensures
            final(self)@ == after_confirm_move(old(self)@, from, to, side),
            final(self).kifu == old(self).kifu,
            final(self).click_areas == old(self).click_areas,
    {
        let pos = self.current_pos();
        let actions = legal_actions(&pos, side);
        let can_promote = contains_action(&actions, Action::Move { from, to, promote: true });
        let can_stay = contains_action(&actions, Action::Move { from, to, promote: false });
        if can_promote && can_stay {
            self.clear_selection();
            self.phase = Phase::PromotionChoice { from, to, side };
            self.message = string_of_str("[y]/[p]成る  [n]成らない  [Esc]キャンセル");
        } else {
            self.apply_action(Action::Move { from, to, promote: can_promote }, side);
        }
    }

    fn pick_board_piece(&mut self, sq: Square, kind: PieceKind, long: bool)
        requires
            old(self).wf(),
            sq.wf(),
        ensures
            final(self)@ == pick_board_piece(
                old(self)@,
                sq,
                if long {
                    kind_name(kind) + "を選択 — 移動先を選んでください（Escでキャンセル）"@
                } else {
                    kind_name(kind) + "を選択"@
                },
            ),
            final(self).kifu == old(self).kifu,
            final(self).click_areas == old(self).click_areas,
    {
        self.selection = Selection::BoardPiece(sq);
        self.update_highlights();
        self.message = if long {
            text3(piece_kind_ja(kind), "を選択 — 移動先を選んでください（Escでキャンセル）", "")
        } else {
            text3(piece_kind_ja(kind), "を選択", "")
        };
        proof {
            reveal_strlit("");
        }
    }

    /// Presses a square while `side` enters its action (see `after_board_press`).
    pub fn on_board_press(&mut self, sq: Square, side: Side)
        requires
            old(self).wf(),
            sq.wf(),
        ensures
            final(self)@ == after_board_press(old(self)@, sq, side),
            final(self).kifu == old(self).kifu,
            final(self).click_areas == old(self).click_areas,
    {
        let pos = self.current_pos();
        match self.selection {
            Selection::Empty => match pos.board.get(sq) {
                Some(piece) => {
                    if piece.side == side {
                        self.pick_board_piece(sq, piece.kind, true);
                    } else {
                        self.message = string_of_str("自分の駒を選んでください");
                    }
                },
                None => {
                    self.message = string_of_str("その位置に駒がありません");
                },
            },
            Selection::BoardPiece(from) => {
                if sq == from {
                    self.clear_selection();
                    return ;
                }
                if has_square(&self.highlights, sq) {
                    self.confirm_move(from, sq, side);
                } else {
                    match pos.board.get(sq) {
                        Some(piece) => {
                            if piece.side == side {
                                self.pick_board_piece(sq, piece.kind, false);
                            } else {
                                self.message = string_of_str("合法手ではありません");
                            }
                        },
                        None => {
                            self.message = string_of_str("合法手ではありません");
                        },
                    }
                }
            },
            Selection::HandPiece(kind) => {
                if has_square(&self.highlights, sq) {
                    self.apply_action(Action::Drop { kind, to: sq }, side);
                } else {
                    self.message = string_of_str("その位置には打てません");
                }
            },
        }
    }
}

fn held(h: &Hand) -> (v: Vec<PieceKind>)
    ensures
        v@ == hand_list(*h),
{
    let kinds = Hand::kinds();
    let mut v: Vec<PieceKind> = Vec::new();
    let mut i: usize = 0;
    while i < 7
        invariant
            i <= 7,
            forall|j: int| 0 <= j < 7 ==> #[trigger] kinds@[j] == slot_kind(j),
            v@ == held_kinds(*h, i as int),
        decreases 7 - i,
    {
        if h.has(kinds[i]) {
            v.push(kinds[i]);
        }
        i += 1;
    }
    v
}

impl App {
    /// Answers the promotion question (see `after_promotion`).
    pub fn apply_promotion(&mut self, promote: bool)
        requires
            old(self).wf(),
        ensures
            final(self)@ == after_promotion(old(self)@, promote),
            final(self).wf(),
            final(self).click_areas == old(self).click_areas,
    {
        match self.phase {
            Phase::PromotionChoice { from, to, side } => {
                self.apply_action(Action::Move { from, to, promote }, side);
            },
            _ => {},
        }
    }

    /// Withdraws the promotion question (see `after_cancel_promotion`).
    pub fn cancel_promotion(&mut self)
        requires
            old(self).wf(),
        ensures
            final(self)@ == after_cancel_promotion(old(self)@),
            final(self).wf(),
            final(self).click_areas == old(self).click_areas,
    {
        match self.phase {
            Phase::PromotionChoice { side, .. } => {
                self.phase = match side {
                    Side::Sente => Phase::SenteInput,
                    Side::Gote => Phase::GoteInput,
                };
                self.message = string_of_str("キャンセルしました");
            },
            _ => {},
        }
    }

    fn confirm_hand_selection(&mut self)
        requires
            old(self).wf(),
        ensures
            final(self)@ == after_confirm_hand(old(self)@),
            final(self).wf(),
            final(self).click_areas == old(self).click_areas,
    {
        match self.selection {
            Selection::HandPiece(kind) => {
                self.focus = FocusArea::Board;
                self.message = text3(
                    piece_kind_ja(kind),
                    "を持っています — 打ち先のマスを選んでください",
                    "",
                );
                proof {
                    reveal_strlit("");
                }
            },
            _ => {},
        }
    }

    /// Moves the hand cursor among the kinds held (see `after_move_hand_cursor`).
    pub fn move_hand_cursor(&mut self, dir: i8)
        requires
            old(self).wf(),
            old(self).hand_cursor + dir <= 127,
        ensures
            final(self)@ == after_move_hand_cursor(old(self)@, dir as int),
            final(self).wf(),
            final(self).click_areas == old(self).click_areas,
    {
        let side = match self.current_side() {
            Some(s) => s,
            None => {
                return ;
            },
        };
        let pos = self.current_pos();
        let pieces = held(pos.hand(side));
        if pieces.len() == 0 {
            return ;
        }
        assert(pieces@.len() <= 7) by {
            lemma_held_len(pos.spec_hand(side), 7);
        }
        let len = pieces.len() as i16;
        let sum: i16 = self.hand_cursor as i16 + dir as i16;
        let t: i16 = sum + 128 * len;
        let hc = (t % len) as usize;
        proof {
            vstd::arithmetic::div_mod::lemma_mod_multiples_vanish(128, sum as int, len as int);
            assert((len as int) * 128 + (sum as int) == t as int) by (nonlinear_arith)
                requires
                    t == sum + 128 * len,
            ;
        }
        let kind = pieces[hc];
        self.hand_cursor = hc;
        self.selection = Selection::HandPiece(kind);
        proof {
            lemma_held_base(pos.spec_hand(side), 7);
        }
        self.update_highlights();
        self.message = text3("駒台: ", piece_kind_ja(kind), "選択中 — ←→で変更、Enterで確定");
    }

    /// Moves the cursor keys to the hand or back (see `after_toggle_hand_focus`).
    pub fn toggle_hand_focus(&mut self)
        requires
            old(self).wf(),
        ensures
            final(self)@ == after_toggle_hand_focus(old(self)@),
            final(self).wf(),
            final(self).click_areas == old(self).click_areas,
    {
        let side = match self.current_side() {
            Some(s) => s,
            None => {
                return ;
            },
        };
        if self.focus == FocusArea::Hand {
            self.focus = FocusArea::Board;
            self.clear_selection();
            return ;
        }
        let pos = self.current_pos();
        let pieces = held(pos.hand(side));
        if pieces.len() == 0 {
            self.message = string_of_str("持ち駒がありません");
            return ;
        }
        self.focus = FocusArea::Hand;
        self.hand_cursor = 0;
        let kind = pieces[0];
        self.selection = Selection::HandPiece(kind);
        proof {
            lemma_held_base(pos.spec_hand(side), 7);
        }
        self.update_highlights();
        self.message = text3(
            "駒台: ",
            piece_kind_ja(kind),
            "選択中 — ←→で変更、Enterで確定、Escでキャンセル",
        );
    }

    /// Picks a kind in hand by its number key (see `after_select_hand_direct`).
    pub fn select_hand_piece_direct(&mut self, kind: PieceKind)
        requires
            old(self).wf(),
        ensures
            final(self)@ == after_select_hand_direct(old(self)@, kind),
            final(self).wf(),
            final(self).click_areas == old(self).click_areas,
    {
        let side = match self.current_side() {
            Some(s) => s,
            None => {
                return ;
            },
        };
        let pos = self.current_pos();
        if !pos.hand(side).has(kind) {
            self.message = text3(piece_kind_ja(kind), "は持ち駒にありません", "");
            proof {
                reveal_strlit("");
            }
            return ;
        }
        self.focus = FocusArea::Hand;
        self.selection = Selection::HandPiece(kind);
        self.update_highlights();
        self.message = text3(piece_kind_ja(kind), "打ち — 移動先を選んでください", "");
        proof {
            reveal_strlit("");
        }
        self.focus = FocusArea::Board;
    }
}

impl App {
    fn end_with(&mut self, line: &str, kind: GameOverKind)
        ensures
            final(self)@ == (AppView {
                last_resolution: old(self)@.last_resolution.push(line@),
                phase: Phase::GameOver(kind),
                ..old(self)@
            }),
            final(self).kifu == old(self).kifu,
            final(self).click_areas == old(self).click_areas,
    {
        self.last_resolution.push(string_of_str(line));
        self.phase = Phase::GameOver(kind);
        assert(self@.last_resolution =~= old(self)@.last_resolution.push(line@));
    }

    /// Resolves the entered turn (see `after_resolve`).
    pub fn resolve_turn(&mut self)
        requires
            old(self).wf(),
        ensures
            final(self)@ == after_resolve(old(self)@),
            final(self).wf(),
            final(self).click_areas == old(self).click_areas,
    {
        let sente = match self.sente_action {
            Some(a) => a,
            None => {
                return ;
            },
        };
        let gote = match self.gote_action {
            Some(a) => a,
            None => {
                return ;
            },
        };
        let pos = self.current_pos();
        if !can_resolve(&pos, sente, gote) {
            self.message = string_of_str("この組手は解決できません");
            return ;
        }
        let res = resolve(&pos, sente, gote);
        if !hands_have_room(&res.next) {
            self.message = string_of_str("この組手は解決できません");
            return ;
        }
        self.last_resolution = build_resolution_text(&pos, sente, gote, &res.event);
        let ply = Ply { sente, gote };
        proof {
            lemma_push_keeps_wf(self.kifu, ply);
            lemma_push_replay(self.kifu, ply, self.kifu.plies@.len() as int);
        }
        self.kifu.push(ply);
        self.sente_action = None;
        self.gote_action = None;
        self.show_all_moves = false;
        assert(cur(self@) == res.next);
        match check_king_death(&res.event) {
            Some(GameEnd::SenteLoses) => {
                self.end_with(
                    "→ 後手の勝ち（先手玉が取られた）",
                    GameOverKind::GoteWins(WinReason::KingDied),
                );
                return ;
            },
            Some(GameEnd::GoteLoses) => {
                self.end_with(
                    "→ 先手の勝ち（後手玉が取られた）",
                    GameOverKind::SenteWins(WinReason::KingDied),
                );
                return ;
            },
            Some(GameEnd::Draw) => {
                self.end_with(
                    "→ 引き分け（両玉が取られた）",
                    GameOverKind::Draw(DrawReason::BothKingDied),
                );
                return ;
            },
            None => {},
        }
        if check_sennichite(&self.kifu) {
            self.end_with("→ 千日手（引き分け）", GameOverKind::Draw(DrawReason::Sennichite));
            return ;
        }
        let next_pos = self.kifu.current();
        match check_status(&next_pos) {
            GameStatus::SenteLoses => {
                self.end_with(
                    "→ 後手の勝ち（先手着手不能）",
                    GameOverKind::GoteWins(WinReason::Checkmate),
                );
                return ;
            },
            GameStatus::GoteLoses => {
                self.end_with(
                    "→ 先手の勝ち（後手着手不能）",
                    GameOverKind::SenteWins(WinReason::Checkmate),
                );
                return ;
            },
            GameStatus::Draw => {
                self.end_with(
                    "→ 引き分け（両者着手不能）",
                    GameOverKind::Draw(DrawReason::BothCheckmate),
                );
                return ;
            },
            GameStatus::Ongoing => {},
        }
        self.phase = Phase::SenteInput;
        self.cursor_file = 5;
        self.cursor_rank = 9;
        self.message = String::new();
    }

    /// Enter (see `after_enter`).
    pub fn on_enter(&mut self)
        requires
            old(self).wf(),
        ensures
            final(self)@ == after_enter(old(self)@),
            final(self).wf(),
            final(self).click_areas == old(self).click_areas,
    {
        match self.phase {
            Phase::SenteInput | Phase::GoteInput => {
                let side = match self.phase {
                    Phase::SenteInput => Side::Sente,
                    _ => Side::Gote,
                };
                match self.focus {
                    FocusArea::Hand => self.confirm_hand_selection(),
                    FocusArea::Board => {
                        let sq = self.cursor_sq();
                        self.on_board_press(sq, side);
                    },
                }
            },
            Phase::ResolveReady => self.resolve_turn(),
            Phase::PromotionChoice { .. } => self.apply_promotion(true),
            Phase::GameOver(_) => {},
        }
    }

    /// Escape (see `after_escape`).
    pub fn on_escape(&mut self)
        requires
            old(self).wf(),
        ensures
            final(self)@ == after_escape(old(self)@),
            final(self).wf(),
            final(self).click_areas == old(self).click_areas,
    {
        match self.phase {
            Phase::PromotionChoice { .. } => {
                self.cancel_promotion();
            },
            Phase::SenteInput | Phase::GoteInput => {
                if self.selection != Selection::Empty {
                    self.clear_selection();
                    self.message = string_of_str("選択解除");
                }
            },
            Phase::ResolveReady => {
                self.gote_action = None;
                self.phase = Phase::GoteInput;
                self.message = string_of_str("後手の着手をリセット");
            },
            _ => {},
        }
    }

    /// Undo (see `after_undo`).
    pub fn undo(&mut self)
        requires
            old(self).wf(),
        ensures
            final(self)@ == after_undo(old(self)@),
            final(self).wf(),
            final(self).click_areas == old(self).click_areas,
    {
        if self.sente_action.is_some() || self.phase == Phase::GoteInput || self.phase
            == Phase::ResolveReady {
            self.sente_action = None;
            self.gote_action = None;
            self.phase = Phase::SenteInput;
            self.clear_selection();
            self.cursor_file = 5;
            self.cursor_rank = 9;
            self.message = string_of_str("入力をリセットしました");
            return ;
        }
        if self.kifu.plies.len() == 0 {
            self.message = string_of_str("取り消せる手がありません");
            return ;
        }
        proof {
            lemma_drop_last_replays(self.kifu.initial_position, self.kifu.plies@);
        }
        self.kifu.undo();
        self.phase = Phase::SenteInput;
        self.sente_action = None;
        self.gote_action = None;
        self.clear_selection();
        self.cursor_file = 5;
        self.cursor_rank = 9;
        self.message = string_of_str("1ターン戻しました");
    }

    /// Resignation of the camp entering its action (see `after_resign`).
    pub fn resign(&mut self)
        requires
            old(self).wf(),
        ensures
            final(self)@ == after_resign(old(self)@),
            final(self).wf(),
            final(self).click_areas == old(self).click_areas,
    {
        match self.phase {
            Phase::SenteInput => {
                self.phase = Phase::GameOver(GameOverKind::GoteWins(WinReason::Resign));
                self.message = string_of_str("先手投了");
            },
            Phase::GoteInput => {
                self.phase = Phase::GameOver(GameOverKind::SenteWins(WinReason::Resign));
                self.message = string_of_str("後手投了");
            },
            _ => {
                self.message = string_of_str("現在投了できません");
            },
        }
    }

    /// Shows or hides the SFEN of the position (see `after_toggle_sfen`).
    pub fn toggle_sfen(&mut self)
        requires
            old(self).wf(),
        ensures
            final(self)@ == after_toggle_sfen(old(self)@),
            final(self).wf(),
            final(self).click_areas == old(self).click_areas,
    {
        if self.show_sfen {
            self.show_sfen = false;
        } else {
            let pos = self.current_pos();
            self.sfen_text = position_to_sfen(&pos);
            self.show_sfen = true;
        }
    }

    /// Lists the legal actions, or hides the list (see `toggles_all_moves`).
    pub fn toggle_all_moves(&mut self)
        requires
            old(self).wf(),
        ensures
            toggles_all_moves(old(self)@, final(self)@),
            final(self).wf(),
            final(self).click_areas == old(self).click_areas,
    {
        if self.show_all_moves {
            self.show_all_moves = false;
            self.all_moves_text = Vec::new();
            assert(self@.all_moves_text =~= Seq::<Seq<char>>::empty());
            return ;
        }
        let pos = self.current_pos();
        let side = match self.current_side() {
            Some(s) => s,
            None => Side::Sente,
        };
        let actions = legal_actions(&pos, side);
        let mut texts: Vec<String> = Vec::new();
        let mut i: usize = 0;
        while i < actions.len()
            invariant
                i <= actions@.len(),
                forall|k: int| 0 <= k < actions@.len() ==> (#[trigger] actions@[k]).wf(),
                texts@.len() == i,
                forall|k: int| 0 <= k < i ==> (#[trigger] texts@[k])@ == usi_action(actions@[k]),
            decreases actions@.len() - i,
        {
            let t = actions[i].to_usi();
            texts.push(t);
            i += 1;
        }
        assert(texts_of(texts@) =~= actions@.map_values(|a: Action| usi_action(a)));
        self.all_moves_text = texts;
        let mut m = String::new();
        match side {
            Side::Sente => push_str(&mut m, "先手"),
            Side::Gote => push_str(&mut m, "後手"),
        }
        push_str(&mut m, " の合法手: ");
        push_count(&mut m, actions.len());
        push_str(&mut m, "手");
        self.message = m;
        self.show_all_moves = true;
        proof {
            let w = self@;
            let v = old(self)@;
            assert(forall|a: Action| #[trigger] actions@.contains(a) <==> is_legal(cur(v), side, a));
            assert(w == AppView {
                all_moves_text: actions@.map_values(|a: Action| usi_action(a)),
                message: (if side == Side::Sente {
                    "先手"@
                } else {
                    "後手"@
                }) + " の合法手: "@ + decimal(actions@.len()) + "手"@,
                show_all_moves: true,
                ..v
            });
        }
    }

    /// Starts a new game on a fresh desk.
    pub fn new_game(&mut self)
        ensures
            is_fresh(final(self)@),
            final(self).wf(),
            final(self).click_areas.is_blank(),
    {
        *self = App::new();
    }

    /// The text of the record, to be saved.
    pub fn record_text(&self) -> (s: String)
        requires
            self.wf(),
        ensures
            s@ == kifu_text(self@.initial, self@.plies),
    {
        proof {
            let init = self.kifu.initial_position;
            let plies = self.kifu.plies@;
            assert forall|i: int| 0 <= i < plies.len() implies (#[trigger] plies[i]).sente.wf()
                && plies[i].gote.wf() by {
                assert(step_ok(init, plies, i));
            }
            if plies.len() > 0 {
                lemma_replay_counts_turns(init, plies, plies.len() - 1);
                assert(step_ok(init, plies, plies.len() - 1));
            }
        }
        kifu_to_string(&self.kifu)
    }

    /// Reports that the record was saved to `path`.
    pub fn record_saved(&mut self, path: &str)
        ensures
            final(self)@ == (AppView { message: "棋譜を "@ + path@ + " に保存しました"@, ..old(self)@ }),
            final(self).kifu == old(self).kifu,
            final(self).click_areas == old(self).click_areas,
    {
        self.message = text3("棋譜を ", path, " に保存しました");
    }

    /// Reports that saving failed, with the reason.
    pub fn record_save_failed(&mut self, reason: &str)
        ensures
            final(self)@ == (AppView { message: "保存エラー: "@ + reason@, ..old(self)@ }),
            final(self).kifu == old(self).kifu,
            final(self).click_areas == old(self).click_areas,
    {
        self.message = text3("保存エラー: ", reason, "");
        proof {
            reveal_strlit("");
        }
    }

    /// Reports that reading a record failed, with the reason.
    pub fn record_load_failed(&mut self, reason: &str)
        ensures
            final(self)@ == (AppView { message: "読み込みエラー: "@ + reason@, ..old(self)@ }),
            final(self).kifu == old(self).kifu,
            final(self).click_areas == old(self).click_areas,
    {
        self.message = text3("読み込みエラー: ", reason, "");
        proof {
            reveal_strlit("");
        }
    }

    /// Replaces the game by the record read from `path` (see `after_load`).
    pub fn load_text(&mut self, content: &str, path: &str)
        requires
            old(self).wf(),
        ensures
            final(self)@ == after_load(old(self)@, content@, path@),
            final(self).wf(),
            final(self).click_areas == old(self).click_areas,
    {
        match kifu_from_string(content) {
            None => {
                self.message = string_of_str("棋譜のパースに失敗しました");
            },
            Some(loaded) => {
                if !loaded.is_replayable() {
                    self.message = string_of_str("棋譜を再生できません");
                    return ;
                }
                let c = loaded.current();
                if !hands_have_room(&c) {
                    self.message = string_of_str("棋譜を再生できません");
                    return ;
                }
                self.kifu = loaded;
                self.phase = Phase::SenteInput;
                self.sente_action = None;
                self.gote_action = None;
                self.clear_selection();
                self.cursor_file = 5;
                self.cursor_rank = 9;
                self.last_resolution = Vec::new();
                self.message = text3(path, " を読み込みました", "");
                proof {
                    reveal_strlit("");
                    assert(self@.last_resolution =~= Seq::<Seq<char>>::empty());
                }
            },
        }
    }
}

/// Pressing the picked piece again puts it down.
pub proof fn lemma_press_again_deselects(v: AppView, sq: Square, side: Side)
    requires
        v.selection == Selection::BoardPiece(sq),
    ensures
        after_board_press(v, sq, side) == cleared(v),
{
}

/// `u` right after a resolved turn takes that turn back, whether the game
/// went on or ended with it: the record is as before the turn.
pub proof fn lemma_undo_after_resolve(v: AppView)
    requires
        desk_wf(v),
        v.sente_action is Some,
        v.gote_action is Some,
        resolvable(cur(v), v.sente_action->0, v.gote_action->0),
        spec_resolve(cur(v), v.sente_action->0, v.gote_action->0).next.has_room(),
    ensures
        after_undo(after_resolve(v)).plies == v.plies,
        after_undo(after_resolve(v)).initial == v.initial,
{
    let ply = Ply { sente: v.sente_action->0, gote: v.gote_action->0 };
    assert(v.plies.push(ply).drop_last() =~= v.plies);
}

/// The kinds held are base kinds, at most one per slot.
pub proof fn lemma_held_base(h: Hand, n: int)
    requires
        0 <= n <= 7,
    ensures
        forall|j: int| 0 <= j < held_kinds(h, n).len() ==> !(#[trigger] held_kinds(h, n)[j]).is_promoted(),
    decreases n,
{
    if n > 0 {
        lemma_held_base(h, n - 1);
        let k = slot_kind(n - 1);
        assert(!k.is_promoted());
        let prev = held_kinds(h, n - 1);
        assert forall|j: int| 0 <= j < held_kinds(h, n).len() implies !(#[trigger] held_kinds(
            h,
            n,
        )[j]).is_promoted() by {
            if j < prev.len() {
                assert(held_kinds(h, n)[j] == prev[j]);
            }
        }
    }
}

pub proof fn lemma_held_len(h: Hand, n: int)
    requires
        0 <= n,
    ensures
        held_kinds(h, n).len() <= n,
    decreases n,
{
    if n > 0 {
        lemma_held_len(h, n - 1);
    }
}

/// A file or rank moved by a step, kept within 1 to 9.
pub open spec fn clamp9(x: int) -> int {
    if x < 1 {
        1
    } else if x > 9 {
        9
    } else {
        x
    }
}

fn clamp_i8(x: i8) -> (r: u8)
    ensures
        r == clamp9(x as int),
{
    if x < 1 {
        1
    } else if x > 9 {
        9
    } else {
        x as u8
    }
}

fn contains_action(v: &Vec<Action>, a: Action) -> (b: bool)
    ensures
        b == v@.contains(a),
{
    let mut i: usize = 0;
    while i < v.len()
        invariant
            i <= v.len(),
            forall|j: int| 0 <= j < i ==> v@[j] != a,
        decreases v.len() - i,
    {
        if v[i] == a {
            assert(v@[i as int] == a);
            return true;
        }
        i += 1;
    }
    false
}

} // verus!
