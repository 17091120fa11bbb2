//! What the desk's screen shows, as values: where the buttons and the hand
//! pieces are (for mouse clicks), the look of each board cell, and the texts
//! of the panels. The caller lays the screen out and draws; the rectangles
//! it laid out come in as arguments.
use vstd::prelude::*;

use crate::board::{slot_kind, Hand};
use crate::desk::state::{cur, side_of, App, AppView, Area, ClickAreas};
use crate::desk::{
    game_over_line, game_over_text, kind_name, piece_kind_ja, FocusArea, InputMode, Phase,
    Selection,
};
use crate::portal::{centered, centered_rect};
use crate::text::{decimal, push_char, push_count, push_decimal, push_str, string_of_str};
use crate::types::{usi_action, Piece, PieceKind, Side, Square};

verus! {

// ---------------------------------------------------------------------------
// Click areas
// ---------------------------------------------------------------------------

/// The width of a hand item: 4 cells with a count above one, else 3.
pub open spec fn item_width(n: nat) -> int {
    if n > 1 {
        4
    } else {
        3
    }
}

/// The rectangles of the hand items from slot `i` on, the first at column
/// `x` of row `y`: one per kind held, in slot order, each as wide as its text.
pub open spec fn rects_from(h: Hand, x: int, y: u16, i: int) -> Seq<(Area, PieceKind)>
    decreases 7 - i,
{
    if i < 0 || i >= 7 {
        Seq::empty()
    } else {
        let k = slot_kind(i);
        let n = h.spec_count(k);
        if n == 0 {
            rects_from(h, x, y, i + 1)
        } else {
            seq![(Area { x: x as u16, y, width: item_width(n) as u16, height: 1 }, k)] + rects_from(
                h,
                x + item_width(n),
                y,
                i + 1,
            )
        }
    }
}

/// The rectangles of the hand items of a hand line whose label starts at
/// column `x` (the label takes 10 cells).
pub open spec fn hand_rects(h: Hand, x: u16, y: u16) -> Seq<(Area, PieceKind)> {
    rects_from(h, x + 10, y, 0)
}

/// The rectangles of the hand items (see `hand_rects`).
pub fn hand_piece_rects(hand: &Hand, base_x: u16, base_y: u16) -> (v: Vec<(Area, PieceKind)>)
    requires
        base_x + 38 <= u16::MAX,
    ensures
        v@ == hand_rects(*hand, base_x, base_y),
{
    let kinds = Hand::kinds();
    let mut x: u16 = base_x + 10;
    let mut v: Vec<(Area, PieceKind)> = Vec::new();
    let mut i: usize = 0;
    while i < 7
        invariant
            i <= 7,
            forall|j: int| 0 <= j < 7 ==> #[trigger] kinds@[j] == slot_kind(j),
            x <= base_x + 10 + 4 * i,
            base_x + 38 <= u16::MAX,
            v@ + rects_from(*hand, x as int, base_y, i as int) == hand_rects(*hand, base_x, base_y),
        decreases 7 - i,
    {
        let kind = kinds[i];
        let n = hand.count(kind);
        if n > 0 {
            let w: u16 = if n > 1 {
                4
            } else {
                3
            };
            let ghost before = v@;
            v.push((Area { x, y: base_y, width: w, height: 1 }, kind));
            proof {
                assert(before + rects_from(*hand, x as int, base_y, i as int) =~= v@ + rects_from(
                    *hand,
                    x + w,
                    base_y,
                    i + 1,
                ));
            }
            x = x + w;
        }
        i += 1;
    }
    assert(rects_from(*hand, x as int, base_y, 7) == Seq::<(Area, PieceKind)>::empty());
    assert(v@ =~= v@ + Seq::<(Area, PieceKind)>::empty());
    v
}

/// `a - b`, or 0 when `b` is larger.
pub open spec fn sat_sub(a: u16, b: u16) -> u16 {
    if a >= b {
        (a - b) as u16
    } else {
        0
    }
}

/// The lesser of two widths.
pub open spec fn min16(a: u16, b: u16) -> u16 {
    if a <= b {
        a
    } else {
        b
    }
}

/// The promotion dialog: 38 cells wide (at most the screen less 4), 5 high,
/// in the middle.
pub open spec fn promotion_popup(screen: Area) -> Area {
    centered(min16(38, sat_sub(screen.width, 4)), 5, screen)
}

/// The end-of-game dialog: 44 cells wide (at most the screen less 4), 8
/// high, in the middle.
pub open spec fn game_over_popup(screen: Area) -> Area {
    centered(min16(44, sat_sub(screen.width, 4)), 8, screen)
}

/// The click areas as values.
pub struct ClickView {
    pub promote_yes: Option<Area>,
    pub promote_no: Option<Area>,
    pub resolve: Option<Area>,
    pub gameover_undo: Option<Area>,
    pub gameover_new: Option<Area>,
    pub gameover_quit: Option<Area>,
    pub sente_hand: Seq<(Area, PieceKind)>,
    pub gote_hand: Seq<(Area, PieceKind)>,
}

/// The click areas as values.
pub open spec fn click_view(c: ClickAreas) -> ClickView {
    ClickView {
        promote_yes: c.promote_yes,
        promote_no: c.promote_no,
        resolve: c.resolve,
        gameover_undo: c.gameover_undo,
        gameover_new: c.gameover_new,
        gameover_quit: c.gameover_quit,
        sente_hand: c.sente_hand@,
        gote_hand: c.gote_hand@,
    }
}

/// Where clicks land on a screen laid out as `screen`, with the status row
/// `status` and the board panel `board`: the whole status row resolves the
/// turn when both actions are in; in the promotion dialog the left half of
/// the button row promotes and the right half does not; in the end-of-game
/// dialog the rows under the result take back, start anew and quit; and the
/// hand items of both lines (gote's on the first row of the panel, sente's
/// eleven rows below) pick a kind.
pub open spec fn clicks_of(v: AppView, screen: Area, status: Area, board: Area) -> ClickView {
    let pp = promotion_popup(screen);
    let pix = (pp.x + 1) as u16;
    let piw = sat_sub(pp.width, 2);
    let half = piw / 2;
    let by = (pp.y + 2) as u16;
    let gp = game_over_popup(screen);
    let gix = (gp.x + 1) as u16;
    let giy = gp.y + 1;
    let giw = sat_sub(gp.width, 2);
    let promo = v.phase is PromotionChoice;
    let over = v.phase is GameOver;
    let pos = cur(v);
    ClickView {
        resolve: if v.phase == Phase::ResolveReady {
            Some(status)
        } else {
            None
        },
        promote_yes: if promo {
            Some(Area { x: pix, y: by, width: half, height: 1 })
        } else {
            None
        },
        promote_no: if promo {
            Some(Area { x: (pix + half) as u16, y: by, width: (piw - half) as u16, height: 1 })
        } else {
            None
        },
        gameover_undo: if over {
            Some(Area { x: gix, y: (giy + 3) as u16, width: giw, height: 1 })
        } else {
            None
        },
        gameover_new: if over {
            Some(Area { x: gix, y: (giy + 4) as u16, width: giw, height: 1 })
        } else {
            None
        },
        gameover_quit: if over {
            Some(Area { x: gix, y: (giy + 5) as u16, width: giw, height: 1 })
        } else {
            None
        },
        gote_hand: hand_rects(pos.hand_gote, (board.x + 1) as u16, (board.y + 1) as u16),
        sente_hand: hand_rects(pos.hand_sente, (board.x + 1) as u16, (board.y + 12) as u16),
    }
}

fn sat(a: u16, b: u16) -> (r: u16)
    ensures
        r == sat_sub(a, b),
{
    a.saturating_sub(b)
}

/// Where clicks land on the screen (see `clicks_of`).
pub fn click_areas_for(app: &App, screen: Area, status: Area, board: Area) -> (c: ClickAreas)
    requires
        app.wf(),
        screen.x + screen.width + 8 <= u16::MAX,
        screen.y + screen.height + 8 <= u16::MAX,
        board.x + 40 <= u16::MAX,
        board.y + 12 <= u16::MAX,
    ensures
        click_view(c) == clicks_of(app@, screen, status, board),
{
    let mut c = ClickAreas {
        promote_yes: None,
        promote_no: None,
        resolve: None,
        gameover_undo: None,
        gameover_new: None,
        gameover_quit: None,
        sente_hand: Vec::new(),
        gote_hand: Vec::new(),
    };
    if matches!(app.phase, Phase::ResolveReady) {
        c.resolve = Some(status);
    }
    if matches!(app.phase, Phase::PromotionChoice { .. }) {
        let pw = if 38 <= sat(screen.width, 4) {
            38
        } else {
            sat(screen.width, 4)
        };
        let pp = centered_rect(pw, 5, screen);
        let ix = pp.x + 1;
        let iy = pp.y + 1;
        let iw = sat(pp.width, 2);
        let btn_y = iy + 1;
        let half = iw / 2;
        c.promote_yes = Some(Area { x: ix, y: btn_y, width: half, height: 1 });
        c.promote_no = Some(Area { x: ix + half, y: btn_y, width: iw - half, height: 1 });
    }
    if matches!(app.phase, Phase::GameOver(_)) {
        let pw = if 44 <= sat(screen.width, 4) {
            44
        } else {
            sat(screen.width, 4)
        };
        let pp = centered_rect(pw, 8, screen);
        let ix = pp.x + 1;
        let iy = pp.y + 1;
        let iw = sat(pp.width, 2);
        c.gameover_undo = Some(Area { x: ix, y: iy + 3, width: iw, height: 1 });
        c.gameover_new = Some(Area { x: ix, y: iy + 4, width: iw, height: 1 });
        c.gameover_quit = Some(Area { x: ix, y: iy + 5, width: iw, height: 1 });
    }
    let pos = app.current_pos();
    let bix = board.x + 1;
    let biy = board.y + 1;
    c.gote_hand = hand_piece_rects(&pos.hand_gote, bix, biy);
    c.sente_hand = hand_piece_rects(&pos.hand_sente, bix, biy + 11);
    c
}

// ---------------------------------------------------------------------------
// The board
// ---------------------------------------------------------------------------

/// How a board cell stands out, first match first: the square of the piece
/// picked up; a target under the cursor; a target; the cursor; nothing.
#[derive(Debug, Clone, Copy, PartialEq, Eq, Structural)]
pub enum CellLook {
    Picked,
    TargetUnderCursor,
    Target,
    Cursor,
    Plain,
}

/// How a cell stands out (see `CellLook`).
pub open spec fn look_of(is_cursor: bool, is_from: bool, is_highlight: bool) -> CellLook {
    if is_from {
        CellLook::Picked
    } else if is_highlight && is_cursor {
        CellLook::TargetUnderCursor
    } else if is_highlight {
        CellLook::Target
    } else if is_cursor {
        CellLook::Cursor
    } else {
        CellLook::Plain
    }
}

/// How a cell stands out (see `look_of`).
pub fn cell_style(is_cursor: bool, is_from: bool, is_highlight: bool) -> (l: CellLook)
    ensures
        l == look_of(is_cursor, is_from, is_highlight),
{
    if is_from {
        CellLook::Picked
    } else if is_highlight && is_cursor {
        CellLook::TargetUnderCursor
    } else if is_highlight {
        CellLook::Target
    } else if is_cursor {
        CellLook::Cursor
    } else {
        CellLook::Plain
    }
}

/// How square `sq` of the desk stands out: under the cursor, the square of
/// the piece picked up, or a highlighted target.
pub open spec fn square_look(v: AppView, sq: Square) -> CellLook {
    look_of(
        v.cursor_file == sq.sfile() && v.cursor_rank == sq.srank(),
        v.selection == Selection::BoardPiece(sq),
        v.highlights.contains(sq),
    )
}

fn has_square(v: &Vec<Square>, sq: Square) -> (b: bool)
    ensures
        b == v@.contains(sq),
{
    let mut i: usize = 0;
    while i < v.len()
        invariant
            i <= v@.len(),
            forall|j: int| 0 <= j < i ==> v@[j] != sq,
        decreases v.len() - i,
    {
        if v[i] == sq {
            assert(v@[i as int] == sq);
            return true;
        }
        i += 1;
    }
    false
}

/// How square `sq` of the desk stands out (see `square_look`).
pub fn board_cell_look(app: &App, sq: Square) -> (l: CellLook)
    requires
        sq.wf(),
    ensures
        l == square_look(app@, sq),
{
    let is_cursor = app.cursor_file == sq.file() && app.cursor_rank == sq.rank();
    let is_from = match app.selection {
        Selection::BoardPiece(s) => s == sq,
        _ => false,
    };
    let is_highlight = has_square(&app.highlights, sq);
    cell_style(is_cursor, is_from, is_highlight)
}

/// The text of a board cell: ` . ` when empty, else a space (sente) or `v`
/// (gote) before the name of the piece.
pub open spec fn cell_text_of(p: Option<Piece>) -> Seq<char> {
    match p {
        None => " . "@,
        Some(p) => seq![if p.side == Side::Sente { ' ' } else { 'v' }] + kind_name(p.kind),
    }
}

/// The text of a board cell (see `cell_text_of`).
pub fn cell_text(p: Option<Piece>) -> (s: String)
    ensures
        s@ == cell_text_of(p),
{
    match p {
        None => string_of_str(" . "),
        Some(p) => {
            let mut s = String::new();
            push_char(&mut s, if p.side == Side::Sente { ' ' } else { 'v' });
            push_str(&mut s, piece_kind_ja(p.kind));
            s
        },
    }
}

// ---------------------------------------------------------------------------
// Hand lines
// ---------------------------------------------------------------------------

/// The label of a hand line.
pub open spec fn hand_label_text(side: Side) -> Seq<char> {
    match side {
        Side::Sente => "先手持駒: "@,
        Side::Gote => "後手持駒: "@,
    }
}

/// The label of a hand line (see `hand_label_text`).
pub fn hand_label(side: Side) -> (s: &'static str)
    ensures
        s@ == hand_label_text(side),
{
    match side {
        Side::Sente => "先手持駒: ",
        Side::Gote => "後手持駒: ",
    }
}

/// The text of a hand item: the name, the count when above one, a space.
pub open spec fn item_text(kind: PieceKind, n: nat) -> Seq<char> {
    kind_name(kind) + (if n > 1 {
        decimal(n)
    } else {
        Seq::empty()
    }) + seq![' ']
}

/// The items of a hand line from slot `i` on: one per kind held.
pub open spec fn items_from(h: Hand, i: int) -> Seq<(Seq<char>, PieceKind)>
    decreases 7 - i,
{
    if i < 0 || i >= 7 {
        Seq::empty()
    } else {
        let k = slot_kind(i);
        let n = h.spec_count(k);
        if n == 0 {
            items_from(h, i + 1)
        } else {
            seq![(item_text(k, n), k)] + items_from(h, i + 1)
        }
    }
}

/// The items of a hand line, each with its kind (see `items_from`); the
/// caller shows `なし` when there is none.
pub fn hand_items(hand: &Hand) -> (v: Vec<(String, PieceKind)>)
    ensures
        v@.len() == items_from(*hand, 0).len(),
        forall|j: int|
            0 <= j < v@.len() ==> (#[trigger] v@[j]).0@ == items_from(*hand, 0)[j].0 && v@[j].1
                == items_from(*hand, 0)[j].1,
{
    let kinds = Hand::kinds();
    let mut v: Vec<(String, PieceKind)> = Vec::new();
    let ghost mut done: Seq<(Seq<char>, PieceKind)> = Seq::empty();
    let mut i: usize = 0;
    while i < 7
        invariant
            i <= 7,
            forall|j: int| 0 <= j < 7 ==> #[trigger] kinds@[j] == slot_kind(j),
            done + items_from(*hand, i as int) == items_from(*hand, 0),
            v@.len() == done.len(),
            forall|j: int| 0 <= j < v@.len() ==> (#[trigger] v@[j]).0@ == done[j].0 && v@[j].1 == done[j].1,
        decreases 7 - i,
    {
        let kind = kinds[i];
        let n = hand.count(kind);
        if n > 0 {
            let mut t = string_of_str(piece_kind_ja(kind));
            if n > 1 {
                push_decimal(&mut t, n as u32);
            }
            push_char(&mut t, ' ');
            proof {
                assert(t@ =~= item_text(kind, n as nat));
                assert(done.push((item_text(kind, n as nat), kind)) + items_from(*hand, i + 1)
                    =~= done + items_from(*hand, i as int));
                done = done.push((item_text(kind, n as nat), kind));
            }
            v.push((t, kind));
        }
        i += 1;
    }
    assert(done =~= done + items_from(*hand, 7));
    v
}

/// The item of `kind` on `side`'s hand line is picked: that camp is
/// entering its action and picked the kind in hand.
pub open spec fn item_picked(v: AppView, side: Side, kind: PieceKind) -> bool {
    side_of(v.phase) == Some(side) && v.selection == Selection::HandPiece(kind)
}

/// Whether the item of `kind` on `side`'s hand line is picked (see `item_picked`).
pub fn hand_item_selected(app: &App, side: Side, kind: PieceKind) -> (b: bool)
    ensures
        b == item_picked(app@, side, kind),
{
    app.current_side() == Some(side) && app.selection == Selection::HandPiece(kind)
}

/// Whether `side`'s hand line carries the mark of the hand's focus: that
/// camp is entering and the focus is on the hand.
pub fn hand_focus_mark(app: &App, side: Side) -> (b: bool)
    ensures
        b == (side_of(app@.phase) == Some(side) && app@.focus == FocusArea::Hand),
{
    app.current_side() == Some(side) && app.focus == FocusArea::Hand
}

// ---------------------------------------------------------------------------
// Status, pending actions, message
// ---------------------------------------------------------------------------

/// The status line for a phase.
pub open spec fn status_line(p: Phase) -> Seq<char> {
    match p {
        Phase::SenteInput => "先手 入力中"@,
        Phase::GoteInput => "後手 入力中"@,
        Phase::PromotionChoice { side, .. } => (match side {
            Side::Sente => "先手"@,
            Side::Gote => "後手"@,
        }) + " 成り選択中"@,
        Phase::ResolveReady => "▶ 両着手を同時解決 — Enter またはクリック"@,
        Phase::GameOver(kind) => "対局終了: "@ + game_over_line(kind),
    }
}

/// The status line for a phase (see `status_line`).
pub fn status_text(p: &Phase) -> (s: String)
    ensures
        s@ == status_line(*p),
{
    match p {
        Phase::SenteInput => string_of_str("先手 入力中"),
        Phase::GoteInput => string_of_str("後手 入力中"),
        Phase::PromotionChoice { side, .. } => {
            let mut s = string_of_str(
                match side {
                    Side::Sente => "先手",
                    Side::Gote => "後手",
                },
            );
            push_str(&mut s, " 成り選択中");
            s
        },
        Phase::ResolveReady => string_of_str("▶ 両着手を同時解決 — Enter またはクリック"),
        Phase::GameOver(kind) => {
            let mut s = string_of_str("対局終了: ");
            push_str(&mut s, game_over_text(kind));
            s
        },
    }
}

/// An action entered, or `未入力`.
pub open spec fn pending_text(a: Option<crate::types::Action>) -> Seq<char> {
    match a {
        Some(x) => usi_action(x),
        None => "未入力"@,
    }
}

/// The line under the actions: the cursor square and the keys, or the keys
/// of the hand while the hand has the focus.
pub open spec fn cursor_line(v: AppView) -> Seq<char> {
    match v.focus {
        FocusArea::Board => "カーソル: "@ + decimal(v.cursor_file as nat) + seq![
            (96 + v.cursor_rank) as char,
        ] + "  (↑↓←→で移動、Enter/Spaceで選択)"@,
        FocusArea::Hand => "駒台選択中 (←→で駒種切替、Enter確定、Esc中止)"@,
    }
}

fn action_text(a: &Option<crate::types::Action>) -> (s: String)
    requires
        a matches Some(x) ==> x.wf(),
    ensures
        s@ == pending_text(*a),
{
    match a {
        Some(x) => x.to_usi(),
        None => string_of_str("未入力"),
    }
}

/// The texts of the pending actions: sente's, gote's, and the line under
/// them (see `pending_text` and `cursor_line`).
pub fn pending_texts(app: &App) -> (r: (String, String, String))
    requires
        app.wf(),
    ensures
        r.0@ == pending_text(app@.sente_action),
        r.1@ == pending_text(app@.gote_action),
        r.2@ == cursor_line(app@),
{
    let s = action_text(&app.sente_action);
    let g = action_text(&app.gote_action);
    let line = match app.focus {
        FocusArea::Board => {
            let mut t = string_of_str("カーソル: ");
            push_decimal(&mut t, app.cursor_file as u32);
            push_char(&mut t, (96u8 + app.cursor_rank) as char);
            push_str(&mut t, "  (↑↓←→で移動、Enter/Spaceで選択)");
            t
        },
        FocusArea::Hand => string_of_str("駒台選択中 (←→で駒種切替、Enter確定、Esc中止)"),
    };
    (s, g, line)
}

/// The message line: while a path is typed, its prompt, the path and a
/// cursor mark; otherwise the desk's message.
pub open spec fn message_line(v: AppView) -> Seq<char> {
    match v.input_mode {
        InputMode::Normal => v.message,
        InputMode::SavePath => "保存先パス: "@ + v.input_buffer + seq!['_'],
        InputMode::LoadPath => "読み込みパス: "@ + v.input_buffer + seq!['_'],
    }
}

/// The message line (see `message_line`), and whether a path is being typed.
pub fn message_text(app: &App) -> (r: (String, bool))
    ensures
        r.0@ == message_line(app@),
        r.1 == (app@.input_mode != InputMode::Normal),
{
    match app.input_mode {
        InputMode::Normal => (string_of_str(app.message.as_str()), false),
        InputMode::SavePath => {
            let mut t = string_of_str("保存先パス: ");
            push_str(&mut t, app.input_buffer.as_str());
            push_char(&mut t, '_');
            (t, true)
        },
        InputMode::LoadPath => {
            let mut t = string_of_str("読み込みパス: ");
            push_str(&mut t, app.input_buffer.as_str());
            push_char(&mut t, '_');
            (t, true)
        },
    }
}

// ---------------------------------------------------------------------------
// The information panel
// ---------------------------------------------------------------------------

/// How a line of the information panel stands out.
#[derive(Debug, Clone, Copy, PartialEq, Eq, Structural)]
pub enum InfoLook {
    Heading,
    Bold,
    Plain,
}

/// `s` cut into pieces of `w` characters (the last one shorter); none when
/// `s` is empty.
pub open spec fn pieces(s: Seq<char>, w: nat) -> Seq<Seq<char>>
    decreases s.len(),
{
    if s.len() == 0 || w == 0 {
        Seq::empty()
    } else if s.len() <= w {
        seq![s]
    } else {
        seq![s.take(w as int)] + pieces(s.skip(w as int), w)
    }
}

/// Words joined by single spaces.
pub open spec fn spaced(ws: Seq<Seq<char>>) -> Seq<char>
    decreases ws.len(),
{
    if ws.len() == 0 {
        Seq::empty()
    } else if ws.len() == 1 {
        ws[0]
    } else {
        spaced(ws.drop_last()) + seq![' '] + ws.last()
    }
}

/// Words in rows of `cols`, each row joined by spaces.
pub open spec fn rows_of(ws: Seq<Seq<char>>, cols: nat) -> Seq<Seq<char>>
    decreases ws.len(),
{
    if ws.len() == 0 || cols == 0 {
        Seq::empty()
    } else if ws.len() <= cols {
        seq![spaced(ws)]
    } else {
        seq![spaced(ws.take(cols as int))] + rows_of(ws.skip(cols as int), cols)
    }
}

/// Plain lines.
pub open spec fn plain(ls: Seq<Seq<char>>) -> Seq<(Seq<char>, InfoLook)> {
    ls.map_values(|l: Seq<char>| (l, InfoLook::Plain))
}

/// The heading of the list of legal actions: the camp listed (the one
/// entering, else sente) and how many actions there are.
pub open spec fn moves_heading(v: AppView) -> Seq<char> {
    (match side_of(v.phase) {
        Some(Side::Gote) => "後手"@,
        _ => "先手"@,
    }) + " 合法手 ("@ + decimal(v.all_moves_text.len()) + "手):"@
}

/// The lines of the information panel of inner width `width`: the last
/// resolution under its heading; the SFEN, cut to the width less one (whole
/// when that is zero); the legal actions, as many per row as six-cell columns
/// fit in the width less one (at least one); each block followed by an
/// empty line.
pub open spec fn info_view(v: AppView, width: u16) -> Seq<(Seq<char>, InfoLook)> {
    let w = sat_sub(width, 1) as nat;
    let cols = if w / 6 > 0 {
        w / 6
    } else {
        1
    };
    let last = if v.last_resolution.len() > 0 {
        seq![("◀ 直前の解決 ▶"@, InfoLook::Heading)] + plain(v.last_resolution) + seq![
            (Seq::<char>::empty(), InfoLook::Plain),
        ]
    } else {
        Seq::empty()
    };
    let sfen = if v.show_sfen {
        seq![("SFEN:"@, InfoLook::Bold)] + plain(
            if w > 0 {
                pieces(v.sfen_text, w)
            } else {
                seq![v.sfen_text]
            },
        ) + seq![(Seq::<char>::empty(), InfoLook::Plain)]
    } else {
        Seq::empty()
    };
    let moves = if v.show_all_moves {
        seq![(moves_heading(v), InfoLook::Bold)] + plain(rows_of(v.all_moves_text, cols)) + seq![
            (Seq::<char>::empty(), InfoLook::Plain),
        ]
    } else {
        Seq::empty()
    };
    last + sfen + moves
}

proof fn lemma_pieces_step(s: Seq<char>, w: nat)
    requires
        w > 0,
        s.len() > w,
    ensures
        pieces(s, w) == seq![s.take(w as int)] + pieces(s.skip(w as int), w),
{
}

/// The SFEN text cut into pieces of `w` characters (see `pieces`).
fn sfen_pieces(s: &String, w: usize) -> (v: Vec<String>)
    requires
        w > 0,
    ensures
        v@.len() == pieces(s@, w as nat).len(),
        forall|j: int| 0 <= j < v@.len() ==> (#[trigger] v@[j])@ == pieces(s@, w as nat)[j],
{
    let all = crate::text::chars_of(s.as_str());
    let mut v: Vec<String> = Vec::new();
    let ghost mut done: Seq<Seq<char>> = Seq::empty();
    let mut at: usize = 0;
    assert(all@.skip(0) =~= all@);
    assert(done + pieces(all@, w as nat) =~= pieces(all@, w as nat));
    while at < all.len()
        invariant
            at <= all@.len(),
            w > 0,
            all@ == s@,
            done + pieces(all@.skip(at as int), w as nat) == pieces(all@, w as nat),
            v@.len() == done.len(),
            forall|j: int| 0 <= j < v@.len() ==> (#[trigger] v@[j])@ == done[j],
        decreases all.len() - at,
    {
        let ghost rest = all@.skip(at as int);
        let end = if all.len() - at <= w {
            all.len()
        } else {
            at + w
        };
        let piece = crate::text::sub_vec(&all, at, end);
        proof {
            if rest.len() <= w {
                assert(piece@ =~= rest);
                assert(all@.skip(end as int) =~= Seq::<char>::empty());
                assert(done.push(piece@) + pieces(all@.skip(end as int), w as nat) =~= done + pieces(
                    rest,
                    w as nat,
                ));
            } else {
                lemma_pieces_step(rest, w as nat);
                assert(piece@ =~= rest.take(w as int));
                assert(rest.skip(w as int) =~= all@.skip(end as int));
                assert(done.push(piece@) + pieces(all@.skip(end as int), w as nat) =~= done + pieces(
                    rest,
                    w as nat,
                ));
            }
            done = done.push(piece@);
        }
        v.push(crate::text::string_of(&piece));
        at = end;
    }
    proof {
        assert(all@.skip(at as int) =~= Seq::<char>::empty());
        assert(done + pieces(Seq::<char>::empty(), w as nat) =~= done);
    }
    v
}

fn spaced_text(ws: &Vec<String>, from: usize, to: usize) -> (t: String)
    requires
        from < to <= ws@.len(),
    ensures
        t@ == spaced(crate::desk::texts_of(ws@).subrange(from as int, to as int)),
{
    let ghost all = crate::desk::texts_of(ws@);
    let mut t = string_of_str(ws[from].as_str());
    let mut i: usize = from + 1;
    proof {
        assert(all.subrange(from as int, (from + 1) as int) =~= seq![ws@[from as int]@]);
    }
    while i < to
        invariant
            from < i <= to <= ws@.len(),
            all == crate::desk::texts_of(ws@),
            t@ == spaced(all.subrange(from as int, i as int)),
        decreases to - i,
    {
        push_char(&mut t, ' ');
        push_str(&mut t, ws[i].as_str());
        proof {
            let sub = all.subrange(from as int, (i + 1) as int);
            assert(sub.drop_last() =~= all.subrange(from as int, i as int));
            assert(sub.last() == ws@[i as int]@);
        }
        i += 1;
    }
    t
}

proof fn lemma_rows_step(ws: Seq<Seq<char>>, cols: nat)
    requires
        cols > 0,
        ws.len() > cols,
    ensures
        rows_of(ws, cols) == seq![spaced(ws.take(cols as int))] + rows_of(ws.skip(cols as int), cols),
{
}

/// The words in rows of `cols` (see `rows_of`).
fn move_rows(ws: &Vec<String>, cols: usize) -> (v: Vec<String>)
    requires
        cols > 0,
    ensures
        v@.len() == rows_of(crate::desk::texts_of(ws@), cols as nat).len(),
        forall|j: int|
            0 <= j < v@.len() ==> (#[trigger] v@[j])@ == rows_of(crate::desk::texts_of(ws@), cols as nat)[j],
{
    let ghost all = crate::desk::texts_of(ws@);
    let mut v: Vec<String> = Vec::new();
    let ghost mut done: Seq<Seq<char>> = Seq::empty();
    let mut at: usize = 0;
    assert(all.skip(0) =~= all);
    assert(done + rows_of(all, cols as nat) =~= rows_of(all, cols as nat));
    while at < ws.len()
        invariant
            at <= ws@.len(),
            cols > 0,
            all == crate::desk::texts_of(ws@),
            done + rows_of(all.skip(at as int), cols as nat) == rows_of(all, cols as nat),
            v@.len() == done.len(),
            forall|j: int| 0 <= j < v@.len() ==> (#[trigger] v@[j])@ == done[j],
        decreases ws.len() - at,
    {
        let ghost rest = all.skip(at as int);
        let end = if ws.len() - at <= cols {
            ws.len()
        } else {
            at + cols
        };
        let row = spaced_text(ws, at, end);
        proof {
            if rest.len() <= cols {
                assert(all.subrange(at as int, end as int) =~= rest);
                assert(all.skip(end as int) =~= Seq::<Seq<char>>::empty());
            } else {
                lemma_rows_step(rest, cols as nat);
                assert(all.subrange(at as int, end as int) =~= rest.take(cols as int));
                assert(rest.skip(cols as int) =~= all.skip(end as int));
            }
            assert(done.push(row@) + rows_of(all.skip(end as int), cols as nat) =~= done + rows_of(
                rest,
                cols as nat,
            ));
            done = done.push(row@);
        }
        v.push(row);
        at = end;
    }
    proof {
        assert(all.skip(at as int) =~= Seq::<Seq<char>>::empty());
        assert(done + rows_of(Seq::<Seq<char>>::empty(), cols as nat) =~= done);
    }
    v
}

fn push_lines(
    out: &mut Vec<(String, InfoLook)>,
    ls: Vec<String>,
    g: Ghost<Seq<(Seq<char>, InfoLook)>>,
    gl: Ghost<Seq<Seq<char>>>,
)
    requires
        old(out)@.len() == g@.len(),
        forall|j: int| 0 <= j < old(out)@.len() ==> (#[trigger] old(out)@[j]).0@ == g@[j].0 && old(out)@[j].1 == g@[j].1,
        ls@.len() == gl@.len(),
        forall|j: int| 0 <= j < ls@.len() ==> (#[trigger] ls@[j])@ == gl@[j],
    ensures
        final(out)@.len() == (g@ + plain(gl@)).len(),
        forall|j: int|
            0 <= j < final(out)@.len() ==> (#[trigger] final(out)@[j]).0@ == (g@ + plain(gl@))[j].0
                && final(out)@[j].1 == (g@ + plain(gl@))[j].1,
{
    let mut i: usize = 0;
    while i < ls.len()
        invariant
            i <= ls@.len(),
            ls@.len() == gl@.len(),
            forall|j: int| 0 <= j < ls@.len() ==> (#[trigger] ls@[j])@ == gl@[j],
            out@.len() == (g@ + plain(gl@.take(i as int))).len(),
            forall|j: int|
                0 <= j < out@.len() ==> (#[trigger] out@[j]).0@ == (g@ + plain(gl@.take(i as int)))[j].0
                    && out@[j].1 == (g@ + plain(gl@.take(i as int)))[j].1,
        decreases ls.len() - i,
    {
        let t = string_of_str(ls[i].as_str());
        proof {
            assert(g@ + plain(gl@.take(i + 1)) =~= (g@ + plain(gl@.take(i as int))).push((gl@[i as int], InfoLook::Plain)));
        }
        out.push((t, InfoLook::Plain));
        i += 1;
    }
    assert(gl@.take(gl@.len() as int) =~= gl@);
}

fn push_line(out: &mut Vec<(String, InfoLook)>, t: String, look: InfoLook, g: Ghost<Seq<(Seq<char>, InfoLook)>>)
    requires
        old(out)@.len() == g@.len(),
        forall|j: int| 0 <= j < old(out)@.len() ==> (#[trigger] old(out)@[j]).0@ == g@[j].0 && old(out)@[j].1 == g@[j].1,
    ensures
        final(out)@.len() == g@.len() + 1,
        forall|j: int|
            0 <= j < final(out)@.len() ==> (#[trigger] final(out)@[j]).0@ == g@.push((t@, look))[j].0
                && final(out)@[j].1 == g@.push((t@, look))[j].1,
{
    out.push((t, look));
}

/// The lines of the information panel (see `info_view`), and the turn
/// number of the position, shown after them.
pub fn info_lines(app: &App, width: u16) -> (r: (Vec<(String, InfoLook)>, u32))
    requires
        app.wf(),
    ensures
        r.0@.len() == info_view(app@, width).len(),
        forall|j: int|
            0 <= j < r.0@.len() ==> (#[trigger] r.0@[j]).0@ == info_view(app@, width)[j].0 && r.0@[j].1
                == info_view(app@, width)[j].1,
        r.1 == cur(app@).move_number,
{
    let ghost v = app@;
    let mut out: Vec<(String, InfoLook)> = Vec::new();
    let ghost mut g: Seq<(Seq<char>, InfoLook)> = Seq::empty();
    let w = app_width(width);
    let ghost last = if v.last_resolution.len() > 0 {
        seq![("◀ 直前の解決 ▶"@, InfoLook::Heading)] + plain(v.last_resolution) + seq![
            (Seq::<char>::empty(), InfoLook::Plain),
        ]
    } else {
        Seq::empty()
    };
    if app.last_resolution.len() > 0 {
        push_line(&mut out, string_of_str("◀ 直前の解決 ▶"), InfoLook::Heading, Ghost(g));
        proof { g = g.push(("◀ 直前の解決 ▶"@, InfoLook::Heading)); }
        let mut i: usize = 0;
        while i < app.last_resolution.len()
            invariant
                i <= app.last_resolution@.len(),
                v == app@,
                out@.len() == g.len(),
                forall|j: int| 0 <= j < out@.len() ==> (#[trigger] out@[j]).0@ == g[j].0 && out@[j].1 == g[j].1,
                g == seq![("◀ 直前の解決 ▶"@, InfoLook::Heading)] + plain(v.last_resolution.take(i as int)),
            decreases app.last_resolution.len() - i,
        {
            let t = string_of_str(app.last_resolution[i].as_str());
            proof {
                assert(app.last_resolution@[i as int]@ == v.last_resolution[i as int]);
            }
            push_line(&mut out, t, InfoLook::Plain, Ghost(g));
            proof {
                assert(plain(v.last_resolution.take(i + 1)) =~= plain(v.last_resolution.take(i as int)).push(
                    (v.last_resolution[i as int], InfoLook::Plain),
                ));
                g = g.push((v.last_resolution[i as int], InfoLook::Plain));
            }
            i += 1;
        }
        push_line(&mut out, String::new(), InfoLook::Plain, Ghost(g));
        proof {
            assert(v.last_resolution.take(v.last_resolution.len() as int) =~= v.last_resolution);
            g = g.push((Seq::<char>::empty(), InfoLook::Plain));
            assert(g =~= last);
        }
    }
    assert(g =~= last);
    let ghost sfen = if v.show_sfen {
        seq![("SFEN:"@, InfoLook::Bold)] + plain(
            if w > 0 {
                pieces(v.sfen_text, w as nat)
            } else {
                seq![v.sfen_text]
            },
        ) + seq![(Seq::<char>::empty(), InfoLook::Plain)]
    } else {
        Seq::empty()
    };
    if app.show_sfen {
        push_line(&mut out, string_of_str("SFEN:"), InfoLook::Bold, Ghost(g));
        proof { g = g.push(("SFEN:"@, InfoLook::Bold)); }
        if w > 0 {
            let ps = sfen_pieces(&app.sfen_text, w);
            push_lines(&mut out, ps, Ghost(g), Ghost(pieces(v.sfen_text, w as nat)));
            proof { g = g + plain(pieces(v.sfen_text, w as nat)); }
        } else {
            let mut one: Vec<String> = Vec::new();
            one.push(string_of_str(app.sfen_text.as_str()));
            let ghost single = seq![v.sfen_text];
            push_lines(&mut out, one, Ghost(g), Ghost(single));
            proof { g = g + plain(seq![v.sfen_text]); }
        }
        push_line(&mut out, String::new(), InfoLook::Plain, Ghost(g));
        proof {
            g = g.push((Seq::<char>::empty(), InfoLook::Plain));
            assert(g =~= last + sfen);
        }
    }
    assert(g =~= last + sfen);
    let cols: usize = if w / 6 > 0 {
        w / 6
    } else {
        1
    };
    let ghost moves = if v.show_all_moves {
        seq![(moves_heading(v), InfoLook::Bold)] + plain(rows_of(v.all_moves_text, cols as nat)) + seq![
            (Seq::<char>::empty(), InfoLook::Plain),
        ]
    } else {
        Seq::empty()
    };
    if app.show_all_moves {
        let mut h = string_of_str(
            match app.current_side() {
                Some(Side::Gote) => "後手",
                _ => "先手",
            },
        );
        push_str(&mut h, " 合法手 (");
        push_count(&mut h, app.all_moves_text.len());
        push_str(&mut h, "手):");
        proof {
            assert(h@ =~= moves_heading(v));
        }
        push_line(&mut out, h, InfoLook::Bold, Ghost(g));
        proof { g = g.push((moves_heading(v), InfoLook::Bold)); }
        let rows = move_rows(&app.all_moves_text, cols);
        push_lines(&mut out, rows, Ghost(g), Ghost(rows_of(v.all_moves_text, cols as nat)));
        proof { g = g + plain(rows_of(v.all_moves_text, cols as nat)); }
        push_line(&mut out, String::new(), InfoLook::Plain, Ghost(g));
        proof {
            g = g.push((Seq::<char>::empty(), InfoLook::Plain));
        }
    }
    assert(g =~= last + sfen + moves);
    let pos = app.current_pos();
    (out, pos.move_number)
}

fn app_width(width: u16) -> (w: usize)
    ensures
        w == sat_sub(width, 1),
{
    width.saturating_sub(1) as usize
}

} // verus!
