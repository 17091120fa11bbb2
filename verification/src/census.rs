//! Counting the pieces of a position: across a turn, no piece other than a
//! king appears or disappears; it only moves between the board and the hands.
use vstd::prelude::*;

use crate::board::{group_board, Board, Hand, Position};
use crate::kifu::{replayable, step_ok, Kifu};
use crate::movegen::{is_legal, lemma_kings_never_meet, lemma_move_target, lone_king, pseudo_legal};
use crate::resolve::{
    captured, clash_result, consume_drop, gain, gain_capture, independent_result, is_swap,
    king_wins_result, landing_piece, moving_piece, resolvable, spec_resolve, vacate,
    ResolutionEvent,
};
use crate::types::{group_square, Action, Piece, PieceKind, Side, Square};

verus! {

broadcast use {group_square, group_board};

/// 1 for a cell that holds a king (when `king`) or a piece other than a king
/// (when not), else 0.
pub open spec fn cell_weight(c: Option<Piece>, king: bool) -> int {
    match c {
        Some(p) => if (p.kind == PieceKind::King) == king {
            1
        } else {
            0
        },
        None => 0,
    }
}

/// The number of cells that hold a king (when `king`) or another piece.
pub open spec fn count_cells(s: Seq<Option<Piece>>, king: bool) -> int
    decreases s.len(),
{
    if s.len() == 0 {
        0
    } else {
        count_cells(s.drop_last(), king) + cell_weight(s.last(), king)
    }
}

/// The pieces held in a hand.
pub open spec fn hand_total(h: Hand) -> int {
    let c = h.counts();
    c[0] + c[1] + c[2] + c[3] + c[4] + c[5] + c[6]
}

/// The pieces of a position other than the kings: on the board and in both hands.
pub open spec fn piece_total(p: Position) -> int {
    count_cells(p.board.cells(), false) + hand_total(p.hand_sente) + hand_total(p.hand_gote)
}

/// The kings on the board of a position.
pub open spec fn king_total(p: Position) -> int {
    count_cells(p.board.cells(), true)
}

/// The kings that a turn's event says were taken.
pub open spec fn deaths(e: ResolutionEvent) -> int {
    match e {
        ResolutionEvent::BothDied => 2,
        ResolutionEvent::SenteDied | ResolutionEvent::GoteDied => 1,
        _ => 0,
    }
}

proof fn lemma_count_update(s: Seq<Option<Piece>>, i: int, v: Option<Piece>, king: bool)
    requires
        0 <= i < s.len(),
    ensures
        count_cells(s.update(i, v), king) + cell_weight(s[i], king) == count_cells(s, king)
            + cell_weight(v, king),
    decreases s.len(),
{
    let t = s.update(i, v);
    if i == s.len() - 1 {
        assert(t.drop_last() =~= s.drop_last());
    } else {
        assert(t.drop_last() =~= s.drop_last().update(i, v));
        lemma_count_update(s.drop_last(), i, v, king);
    }
}

/// Changing one cell changes each count by the weights of the old and new contents.
proof fn lemma_with_cell(b: Board, sq: Square, v: Option<Piece>)
    requires
        sq.wf(),
    ensures
        count_cells(b.with_cell(sq, v).cells(), false) == count_cells(b.cells(), false)
            - cell_weight(b.at(sq), false) + cell_weight(v, false),
        count_cells(b.with_cell(sq, v).cells(), true) == count_cells(b.cells(), true)
            - cell_weight(b.at(sq), true) + cell_weight(v, true),
        b.with_cell(sq, v).at(sq) == v,
        forall|o: Square| o.wf() && o != sq ==> #[trigger] b.with_cell(sq, v).at(o) == b.at(o),
{
    lemma_count_update(b.cells(), sq.idx(), v, false);
    lemma_count_update(b.cells(), sq.idx(), v, true);
    assert forall|o: Square| o.wf() && o != sq implies #[trigger] b.with_cell(sq, v).at(o) == b.at(
        o,
    ) by {
        assert(o.idx() != sq.idx());
    }
}

/// A captured piece goes to a hand unpromoted, as one piece more.
proof fn lemma_gain(p: Position, side: Side, kind: PieceKind)
    requires
        kind != PieceKind::King,
        p.spec_hand(side).has_room(),
    ensures
        hand_total(gain(p, side, kind).spec_hand(side)) == hand_total(p.spec_hand(side)) + 1,
        gain(p, side, kind).spec_hand(side.opposite()) == p.spec_hand(side.opposite()),
        gain(p, side, kind).board == p.board,
        forall|k: PieceKind| #[trigger] gain(p, side, kind).spec_hand(side).spec_count(k)
            >= p.spec_hand(side).spec_count(k),
{
    let h = p.spec_hand(side);
    let u = kind.unpromoted();
    assert(crate::board::is_hand_kind(u));
    let c = h.counts();
    let slot = crate::board::hand_slot(u)->0;
    assert(c[slot] < 255);
    let c2 = h.spec_add(u).counts();
    assert(c2 == c.update(slot, (c[slot] + 1) as u8));
}

/// A dropped piece leaves its hand, as one piece less.
proof fn lemma_consume(p: Position, a: Action, side: Side)
    requires
        a matches Action::Drop { kind, .. } ==> crate::board::is_hand_kind(kind)
            && p.spec_hand(side).spec_count(kind) > 0,
    ensures
        hand_total(consume_drop(p, a, side).spec_hand(side)) == hand_total(p.spec_hand(side)) - (
        if a is Drop {
            1int
        } else {
            0
        }),
        consume_drop(p, a, side).spec_hand(side.opposite()) == p.spec_hand(side.opposite()),
        consume_drop(p, a, side).board == p.board,
{
    if let Action::Drop { kind, .. } = a {
        let h = p.spec_hand(side);
        let c = h.counts();
        let slot = crate::board::hand_slot(kind)->0;
        let c2 = h.spec_remove(kind).counts();
        assert(c2 == c.update(slot, (c[slot] - 1) as u8));
    }
}

/// The facts of a legal action that the count needs: a move starts from a
/// piece of the mover and ends off the mover's pieces; a drop lands on an
/// empty square from a hand that holds the kind.
proof fn lemma_action_facts(pos: Position, side: Side, a: Action)
    requires
        pseudo_legal(pos, side, a),
    ensures
        a.wf(),
        !(a is Resign),
        a matches Action::Move { from, to, .. } ==> pos.board.at(from) matches Some(p) && p.side
            == side && !(pos.board.at(to) matches Some(q) && q.side == side) && from != to,
        a matches Action::Drop { kind, to } ==> pos.board.at(to) is None
            && crate::board::is_hand_kind(kind) && pos.spec_hand(side).spec_count(kind) > 0
            && kind != PieceKind::King,
        cell_weight(Some(moving_piece(pos, a, side)), false) + cell_weight(
            Some(moving_piece(pos, a, side)),
            true,
        ) == 1,
        cell_weight(Some(landing_piece(pos, a, side)), false) == cell_weight(
            Some(moving_piece(pos, a, side)),
            false,
        ),
        cell_weight(Some(landing_piece(pos, a, side)), true) == cell_weight(
            Some(moving_piece(pos, a, side)),
            true,
        ),
        moving_piece(pos, a, side).side == side,
{
    if let Action::Move { from, to, promote } = a {
        lemma_move_target(pos, side, from, to, promote);
    }
}

/// Emptying the origin of a move takes the moving piece off the board.
proof fn lemma_vacate(p: Position, a: Action, side: Side)
    requires
        a.wf(),
        a matches Action::Move { from, .. } ==> p.board.at(from) == Some(moving_piece(p, a, side)),
    ensures
        vacate(p, a).hand_sente == p.hand_sente,
        vacate(p, a).hand_gote == p.hand_gote,
        vacate(p, a).move_number == p.move_number,
        count_cells(vacate(p, a).board.cells(), false) == count_cells(p.board.cells(), false) - (
        if a is Move {
            cell_weight(Some(moving_piece(p, a, side)), false)
        } else {
            0
        }),
        count_cells(vacate(p, a).board.cells(), true) == count_cells(p.board.cells(), true) - (
        if a is Move {
            cell_weight(Some(moving_piece(p, a, side)), true)
        } else {
            0
        }),
        forall|o: Square| o.wf() && !(a matches Action::Move { from, .. } && from == o)
            ==> #[trigger] vacate(p, a).board.at(o) == p.board.at(o),
        a matches Action::Move { from, .. } ==> vacate(p, a).board.at(from) is None,
{
    if let Action::Move { from, .. } = a {
        lemma_with_cell(p.board, from, None);
    }
}

/// Independent resolution keeps the pieces other than kings, and takes off
/// the board exactly the kings that were captured.
#[verifier::spinoff_prover]
#[verifier::rlimit(50)]
proof fn lemma_independent_census(pos: Position, s: Action, g: Action)
    requires
        pseudo_legal(pos, Side::Sente, s),
        pseudo_legal(pos, Side::Gote, g),
        pos.has_room(),
        s.to_sq() != g.to_sq(),
        !is_swap(s, g),
    ensures
        piece_total(independent_result(pos, s, g).next) == piece_total(pos),
        king_total(independent_result(pos, s, g).next) == king_total(pos) - deaths(
            independent_result(pos, s, g).event,
        ),
{
    lemma_action_facts(pos, Side::Sente, s);
    lemma_action_facts(pos, Side::Gote, g);
    let ms = moving_piece(pos, s, Side::Sente);
    let mg = moving_piece(pos, g, Side::Gote);
    let ts = s.to_sq();
    let tg = g.to_sq();
    let sc = captured(pos, s, g, Side::Sente);
    let gc = captured(pos, g, s, Side::Gote);
    let q1 = vacate(pos, s);
    lemma_vacate(pos, s, Side::Sente);
    if let Action::Move { from: fg, .. } = g {
        if let Action::Move { from: fs, .. } = s {
            assert(fs != fg);
        }
        assert(q1.board.at(fg) == pos.board.at(fg));
    }
    assert(moving_piece(q1, g, Side::Gote) == mg);
    let p1 = vacate(q1, g);
    lemma_vacate(q1, g, Side::Gote);
    // what each destination held once the origins are empty
    assert(cell_weight(p1.board.at(ts), false) == cell_weight(sc, false)
        && cell_weight(p1.board.at(ts), true) == cell_weight(sc, true)) by {
        if let Action::Move { from: fg, .. } = g {
            if fg == ts {
            } else {
                if let Action::Move { from: fs, .. } = s {
                    assert(fs != ts);
                }
            }
        }
    }
    assert(cell_weight(p1.board.at(tg), false) == cell_weight(gc, false)
        && cell_weight(p1.board.at(tg), true) == cell_weight(gc, true)) by {
        if let Action::Move { from: fs, .. } = s {
            if fs == tg {
            } else {
                if let Action::Move { from: fg, .. } = g {
                    assert(fg != tg);
                }
            }
        }
    }
    let p2 = gain_capture(p1, Side::Sente, sc);
    if let Some(c) = sc {
        if c.kind != PieceKind::King {
            lemma_gain(p1, Side::Sente, c.kind);
        }
    }
    let p3 = gain_capture(p2, Side::Gote, gc);
    if let Some(c) = gc {
        if c.kind != PieceKind::King {
            lemma_gain(p2, Side::Gote, c.kind);
        }
    }
    let p35 = consume_drop(p3, s, Side::Sente);
    lemma_consume(p3, s, Side::Sente);
    let p4 = consume_drop(p35, g, Side::Gote);
    lemma_consume(p35, g, Side::Gote);
    assert(p4.board == p1.board);
    let b1 = p4.board.with_cell(ts, Some(landing_piece(pos, s, Side::Sente)));
    lemma_with_cell(p4.board, ts, Some(landing_piece(pos, s, Side::Sente)));
    lemma_with_cell(b1, tg, Some(landing_piece(pos, g, Side::Gote)));
    assert(b1.at(tg) == p1.board.at(tg));
}

/// When both pieces meet on one square or swap squares, no other piece stands
/// on the destinations once the origins are emptied.
proof fn lemma_meeting_squares(pos: Position, s: Action, g: Action)
    requires
        pseudo_legal(pos, Side::Sente, s),
        pseudo_legal(pos, Side::Gote, g),
        s.to_sq() == g.to_sq() || is_swap(s, g),
    ensures
        vacate(vacate(pos, s), g).board.at(s.to_sq()) is None,
        vacate(vacate(pos, s), g).board.at(g.to_sq()) is None,
{
    lemma_action_facts(pos, Side::Sente, s);
    lemma_action_facts(pos, Side::Gote, g);
    let q1 = vacate(pos, s);
    lemma_vacate(pos, s, Side::Sente);
    lemma_vacate(q1, g, Side::Gote);
    let ts = s.to_sq();
    let tg = g.to_sq();
    if let Action::Move { from: fs, .. } = s {
        assert(fs != ts);
        if let Action::Move { from: fg, .. } = g {
            assert(fs != fg);
            assert(fg != tg);
        }
    }
    if let Action::Move { from: fg, .. } = g {
        assert(fg != tg);
    }
}

/// A clash takes both moving pieces off the board and gives each, unless a
/// king, to the other camp's hand.
proof fn lemma_clash_census(pos: Position, s: Action, g: Action)
    requires
        pseudo_legal(pos, Side::Sente, s),
        pseudo_legal(pos, Side::Gote, g),
        pos.has_room(),
        s.to_sq() == g.to_sq() || is_swap(s, g),
    ensures
        piece_total(clash_result(pos, s, g).next) == piece_total(pos),
        king_total(clash_result(pos, s, g).next) == king_total(pos) - deaths(
            clash_result(pos, s, g).event,
        ),
{
    lemma_action_facts(pos, Side::Sente, s);
    lemma_action_facts(pos, Side::Gote, g);
    lemma_meeting_squares(pos, s, g);
    let sp = moving_piece(pos, s, Side::Sente);
    let gp = moving_piece(pos, g, Side::Gote);
    let ts = s.to_sq();
    let tg = g.to_sq();
    let q1 = vacate(pos, s);
    lemma_vacate(pos, s, Side::Sente);
    if let Action::Move { from: fg, .. } = g {
        if let Action::Move { from: fs, .. } = s {
            assert(fs != fg);
        }
        assert(q1.board.at(fg) == pos.board.at(fg));
    }
    assert(moving_piece(q1, g, Side::Gote) == gp);
    let p1 = vacate(q1, g);
    lemma_vacate(q1, g, Side::Gote);
    let p2 = if gp.kind != PieceKind::King { gain(p1, Side::Sente, gp.kind) } else { p1 };
    if gp.kind != PieceKind::King {
        lemma_gain(p1, Side::Sente, gp.kind);
    }
    let p3 = if sp.kind != PieceKind::King { gain(p2, Side::Gote, sp.kind) } else { p2 };
    if sp.kind != PieceKind::King {
        lemma_gain(p2, Side::Gote, sp.kind);
    }
    let p35 = consume_drop(p3, s, Side::Sente);
    lemma_consume(p3, s, Side::Sente);
    let p4 = consume_drop(p35, g, Side::Gote);
    lemma_consume(p35, g, Side::Gote);
    assert(p4.board == p1.board);
    let b1 = p4.board.with_cell(ts, None);
    lemma_with_cell(p4.board, ts, None);
    if ts != tg {
        lemma_with_cell(b1, tg, None);
        assert(b1.at(tg) == p1.board.at(tg));
    }
}

/// A king that wins a collision stays on the board and takes the other
/// piece into hand.
proof fn lemma_king_wins_census(pos: Position, ka: Action, ea: Action, ks: Side)
    requires
        pseudo_legal(pos, ks, ka),
        pseudo_legal(pos, ks.opposite(), ea),
        pos.has_room(),
        ka.to_sq() == ea.to_sq() || is_swap(ka, ea) || is_swap(ea, ka),
        moving_piece(pos, ka, ks).kind == PieceKind::King,
        moving_piece(pos, ea, ks.opposite()).kind != PieceKind::King,
    ensures
        piece_total(king_wins_result(pos, ka, ea, ks).next) == piece_total(pos),
        king_total(king_wins_result(pos, ka, ea, ks).next) == king_total(pos) - deaths(
            king_wins_result(pos, ka, ea, ks).event,
        ),
{
    let es = ks.opposite();
    lemma_action_facts(pos, ks, ka);
    lemma_action_facts(pos, es, ea);
    if ks == Side::Sente {
        lemma_meeting_squares(pos, ka, ea);
    } else {
        lemma_meeting_squares(pos, ea, ka);
        assert(vacate(vacate(pos, ka), ea) == vacate(vacate(pos, ea), ka)) by {
            if let (Action::Move { from: fk, .. }, Action::Move { from: fe, .. }) = (ka, ea) {
                assert(fk != fe);
                let b1 = pos.board.with_cell(fk, None).with_cell(fe, None);
                let b2 = pos.board.with_cell(fe, None).with_cell(fk, None);
                assert(b1.cells() =~= b2.cells());
            }
        }
    }
    let kp = moving_piece(pos, ka, ks);
    let ep = moving_piece(pos, ea, es);
    let kt = ka.to_sq();
    let q1 = vacate(pos, ka);
    lemma_vacate(pos, ka, ks);
    if let Action::Move { from: fe, .. } = ea {
        if let Action::Move { from: fk, .. } = ka {
            assert(fk != fe);
        }
        assert(q1.board.at(fe) == pos.board.at(fe));
    }
    assert(moving_piece(q1, ea, es) == ep);
    let p1 = vacate(q1, ea);
    lemma_vacate(q1, ea, es);
    let p2 = consume_drop(p1, ea, es);
    lemma_consume(p1, ea, es);
    let p3 = gain(p2, ks, ep.kind);
    lemma_gain(p2, ks, ep.kind);
    lemma_with_cell(p3.board, kt, Some(kp));
}

/// A turn of two legal actions (with room in the hands, a turn number below
/// the largest, and at most one sente king) keeps every piece other than a king: a
/// captured piece only moves from the board to a hand, a dropped one from a
/// hand to the board, and a clash hands each piece to the other camp. The
/// kings on the board fall by the kings that the turn's event names as taken,
/// and the turn number grows by one.
pub proof fn lemma_pieces_conserved(pos: Position, sente: Action, gote: Action)
    requires
        is_legal(pos, Side::Sente, sente),
        is_legal(pos, Side::Gote, gote),
        lone_king(pos, Side::Sente),
        pos.has_room(),
        pos.move_number < u32::MAX,
    ensures
        piece_total(spec_resolve(pos, sente, gote).next) == piece_total(pos),
        king_total(spec_resolve(pos, sente, gote).next) == king_total(pos) - deaths(
            spec_resolve(pos, sente, gote).event,
        ),
        spec_resolve(pos, sente, gote).next.move_number == pos.move_number + 1,
{
    lemma_legal_resolvable(pos, sente, gote);
    let sk = moving_piece(pos, sente, Side::Sente).kind == PieceKind::King;
    let gk = moving_piece(pos, gote, Side::Gote).kind == PieceKind::King;
    if sente.to_sq() == gote.to_sq() {
        if sk {
            lemma_king_wins_census(pos, sente, gote, Side::Sente);
        } else if gk {
            lemma_king_wins_census(pos, gote, sente, Side::Gote);
        } else {
            lemma_clash_census(pos, sente, gote);
        }
    } else if is_swap(sente, gote) {
        if sk && gk {
            lemma_clash_census(pos, sente, gote);
        } else if sk {
            lemma_king_wins_census(pos, sente, gote, Side::Sente);
        } else if gk {
            lemma_king_wins_census(pos, gote, sente, Side::Gote);
        } else {
            lemma_clash_census(pos, sente, gote);
        }
    } else {
        lemma_independent_census(pos, sente, gote);
    }
}

/// Two legal actions can always be resolved together, given room in the
/// hands, a turn number below the largest, and at most one sente king: the
/// kings never land on one square.
pub proof fn lemma_legal_resolvable(pos: Position, sente: Action, gote: Action)
    requires
        is_legal(pos, Side::Sente, sente),
        is_legal(pos, Side::Gote, gote),
        lone_king(pos, Side::Sente),
        pos.has_room(),
        pos.move_number < u32::MAX,
    ensures
        resolvable(pos, sente, gote),
{
    lemma_action_facts(pos, Side::Sente, sente);
    lemma_action_facts(pos, Side::Gote, gote);
    if sente.to_sq() == gote.to_sq() && moving_piece(pos, sente, Side::Sente).kind == PieceKind::King
        && moving_piece(pos, gote, Side::Gote).kind == PieceKind::King {
        if let (Action::Move { from: fs, to: t, promote: ps }, Action::Move { from: fg, promote: pg, .. }) = (
            sente,
            gote,
        ) {
            lemma_kings_never_meet(pos, fs, fg, t, ps, pg);
        }
    }
}

/// Every turn of the record is legal for both camps on the position before
/// it, with room in the hands, a turn number below the largest, and at most
/// one sente king.
pub open spec fn legal_play(k: Kifu) -> bool {
    forall|i: int|
        0 <= i < k.plies@.len() ==> {
            let p = #[trigger] k.position_at(i);
            &&& is_legal(p, Side::Sente, k.plies@[i].sente)
            &&& is_legal(p, Side::Gote, k.plies@[i].gote)
            &&& lone_king(p, Side::Sente)
            &&& p.has_room()
            &&& p.move_number < u32::MAX
        }
}

/// A record of legal play can be replayed turn by turn.
pub proof fn lemma_legal_play_replays(k: Kifu)
    requires
        legal_play(k),
    ensures
        k.wf(),
{
    assert forall|i: int| 0 <= i < k.plies@.len() implies #[trigger] step_ok(
        k.initial_position,
        k.plies@,
        i,
    ) by {
        let p = k.position_at(i);
        lemma_legal_resolvable(p, k.plies@[i].sente, k.plies@[i].gote);
    }
}

/// The count of `k` in a hand after one piece of `add` came in (if any)
/// and one piece of `take` went out (if any).
proof fn lemma_hand_moves(h: Hand, add: Option<PieceKind>, take: Option<PieceKind>, k: PieceKind)
    requires
        add matches Some(u) ==> crate::board::is_hand_kind(u) && h.spec_count(u) < 255,
        crate::board::is_hand_kind(k),
        take matches Some(t) ==> crate::board::is_hand_kind(t) && h.spec_count(t) > 0,
    ensures
        ({
            let h1 = match add {
                Some(u) => h.spec_add(u),
                None => h,
            };
            let h2 = match take {
                Some(t) => h1.spec_remove(t),
                None => h1,
            };
            h2.spec_count(k) == h.spec_count(k) + (if add == Some(k) {
                1int
            } else {
                0
            }) - (if take == Some(k) {
                1int
            } else {
                0
            })
        }),
{
    if let Some(u) = add {
        let h1 = h.spec_add(u);
        if let Some(t) = take {
            assert(h1.spec_count(t) >= h.spec_count(t));
        }
    }
}

/// A clash without kings — both pieces on one square, or swapping squares —
/// empties the squares the two pieces came from and went to, takes a dropped
/// piece out of its owner's hand, and gives each camp the other camp's
/// piece, unpromoted; nothing else on the board changes.
pub proof fn lemma_clash_exchanges(pos: Position, s: Action, g: Action)
    requires
        pseudo_legal(pos, Side::Sente, s),
        pseudo_legal(pos, Side::Gote, g),
        pos.has_room(),
        s.to_sq() == g.to_sq() || is_swap(s, g),
        moving_piece(pos, s, Side::Sente).kind != PieceKind::King,
        moving_piece(pos, g, Side::Gote).kind != PieceKind::King,
    ensures
        ({
            let r = spec_resolve(pos, s, g);
            let sp = moving_piece(pos, s, Side::Sente);
            let gp = moving_piece(pos, g, Side::Gote);
            &&& r.event == ResolutionEvent::Clash { sente_piece: sp.kind, gote_piece: gp.kind }
            &&& r.next.board.at(s.to_sq()) is None
            &&& r.next.board.at(g.to_sq()) is None
            &&& (s matches Action::Move { from, .. } ==> r.next.board.at(from) is None)
            &&& (g matches Action::Move { from, .. } ==> r.next.board.at(from) is None)
            &&& forall|o: Square|
                o.wf() && o != s.to_sq() && o != g.to_sq() && s.from_sq() != Some(o)
                    && g.from_sq() != Some(o) ==> #[trigger] r.next.board.at(o) == pos.board.at(o)
            &&& forall|k: PieceKind|
                crate::board::is_hand_kind(k) ==> #[trigger] r.next.hand_sente.spec_count(k)
                    == pos.hand_sente.spec_count(k) + (if gp.kind.unpromoted() == k {
                    1int
                } else {
                    0
                }) - (if s is Drop && s->kind == k {
                    1int
                } else {
                    0
                })
            &&& forall|k: PieceKind|
                crate::board::is_hand_kind(k) ==> #[trigger] r.next.hand_gote.spec_count(k)
                    == pos.hand_gote.spec_count(k) + (if sp.kind.unpromoted() == k {
                    1int
                } else {
                    0
                }) - (if g is Drop && g->kind == k {
                    1int
                } else {
                    0
                })
        }),
{
    lemma_action_facts(pos, Side::Sente, s);
    lemma_action_facts(pos, Side::Gote, g);
    lemma_meeting_squares(pos, s, g);
    let r = spec_resolve(pos, s, g);
    let sp = moving_piece(pos, s, Side::Sente);
    let gp = moving_piece(pos, g, Side::Gote);
    assert(r == clash_result(pos, s, g));
    let ts = s.to_sq();
    let tg = g.to_sq();
    let q1 = vacate(pos, s);
    lemma_vacate(pos, s, Side::Sente);
    if let Action::Move { from: fg, .. } = g {
        if let Action::Move { from: fs, .. } = s {
            assert(fs != fg);
        }
        assert(q1.board.at(fg) == pos.board.at(fg));
    }
    assert(moving_piece(q1, g, Side::Gote) == gp);
    let p1 = vacate(q1, g);
    lemma_vacate(q1, g, Side::Gote);
    let p2 = gain(p1, Side::Sente, gp.kind);
    let p3 = gain(p2, Side::Gote, sp.kind);
    let p35 = consume_drop(p3, s, Side::Sente);
    let p4 = consume_drop(p35, g, Side::Gote);
    assert(p4.board == p1.board);
    let b1 = p4.board.with_cell(ts, None);
    lemma_with_cell(p4.board, ts, None);
    if ts != tg {
        lemma_with_cell(b1, tg, None);
    }
    let us = gp.kind.unpromoted();
    let ug = sp.kind.unpromoted();
    assert(crate::board::is_hand_kind(us) && crate::board::is_hand_kind(ug));
    let take_s: Option<PieceKind> = if s is Drop { Some(s->kind) } else { None };
    let take_g: Option<PieceKind> = if g is Drop { Some(g->kind) } else { None };
    assert forall|k: PieceKind| crate::board::is_hand_kind(k) implies #[trigger] r.next.hand_sente.spec_count(k)
        == pos.hand_sente.spec_count(k) + (if us == k { 1int } else { 0 }) - (if s is Drop && s->kind == k {
        1int
    } else {
        0
    }) by {
        lemma_hand_moves(pos.hand_sente, Some(us), take_s, k);
    }
    assert forall|k: PieceKind| crate::board::is_hand_kind(k) implies #[trigger] r.next.hand_gote.spec_count(k)
        == pos.hand_gote.spec_count(k) + (if ug == k { 1int } else { 0 }) - (if g is Drop && g->kind == k {
        1int
    } else {
        0
    }) by {
        lemma_hand_moves(pos.hand_gote, Some(ug), take_g, k);
    }
    assert forall|o: Square|
        o.wf() && o != ts && o != tg && s.from_sq() != Some(o) && g.from_sq() != Some(o) implies
        #[trigger] r.next.board.at(o) == pos.board.at(o) by {
        assert(p1.board.at(o) == pos.board.at(o));
    }
}

/// The piece that an action of `side` puts on its destination: the moved
/// piece, promoted when the move says so, or a piece of the dropped kind.
pub open spec fn arrives(pos: Position, a: Action, side: Side) -> Piece {
    match a {
        Action::Move { from, promote, .. } => if promote {
            Piece { kind: pos.board.at(from)->0.kind.promoted(), side }
        } else {
            pos.board.at(from)->0
        },
        Action::Drop { kind, .. } => Piece { kind, side },
        Action::Resign => Piece { kind: PieceKind::King, side },
    }
}

/// Two actions on different squares that do not swap: each piece lands on
/// its destination; a piece standing there that does not move away is
/// taken, into the taker's hand unpromoted unless it is a king, whose camp
/// then loses it; a dropped piece leaves its owner's hand; the origins are
/// emptied; nothing else on the board changes.
#[verifier::spinoff_prover]
#[verifier::rlimit(50)]
pub proof fn lemma_independent_exchanges(pos: Position, s: Action, g: Action)
    requires
        pseudo_legal(pos, Side::Sente, s),
        pseudo_legal(pos, Side::Gote, g),
        pos.has_room(),
        s.to_sq() != g.to_sq(),
        !is_swap(s, g),
    ensures
        ({
            let r = spec_resolve(pos, s, g);
            let ts = s.to_sq();
            let tg = g.to_sq();
            let s_takes = g.from_sq() != Some(ts) && pos.board.at(ts) is Some;
            let g_takes = s.from_sq() != Some(tg) && pos.board.at(tg) is Some;
            let sv = pos.board.at(ts)->0;
            let gv = pos.board.at(tg)->0;
            &&& r.next.board.at(ts) == Some(arrives(pos, s, Side::Sente))
            &&& r.next.board.at(tg) == Some(arrives(pos, g, Side::Gote))
            &&& (s matches Action::Move { from, .. } ==> (from != tg ==> r.next.board.at(from) is None))
            &&& (g matches Action::Move { from, .. } ==> (from != ts ==> r.next.board.at(from) is None))
            &&& forall|o: Square|
                o.wf() && o != ts && o != tg && s.from_sq() != Some(o) && g.from_sq() != Some(o)
                    ==> #[trigger] r.next.board.at(o) == pos.board.at(o)
            &&& s_takes ==> sv.side == Side::Gote
            &&& g_takes ==> gv.side == Side::Sente
            &&& forall|k: PieceKind|
                crate::board::is_hand_kind(k) ==> #[trigger] r.next.hand_sente.spec_count(k)
                    == pos.hand_sente.spec_count(k) + (if s_takes && sv.kind != PieceKind::King
                    && sv.kind.unpromoted() == k {
                    1int
                } else {
                    0
                }) - (if s is Drop && s->kind == k {
                    1int
                } else {
                    0
                })
            &&& forall|k: PieceKind|
                crate::board::is_hand_kind(k) ==> #[trigger] r.next.hand_gote.spec_count(k)
                    == pos.hand_gote.spec_count(k) + (if g_takes && gv.kind != PieceKind::King
                    && gv.kind.unpromoted() == k {
                    1int
                } else {
                    0
                }) - (if g is Drop && g->kind == k {
                    1int
                } else {
                    0
                })
            &&& (r.event is SenteDied || r.event is BothDied) <==> (g_takes && gv.kind
                == PieceKind::King)
            &&& (r.event is GoteDied || r.event is BothDied) <==> (s_takes && sv.kind
                == PieceKind::King)
        }),
{
    lemma_action_facts(pos, Side::Sente, s);
    lemma_action_facts(pos, Side::Gote, g);
    let r = spec_resolve(pos, s, g);
    assert(r == independent_result(pos, s, g));
    let ts = s.to_sq();
    let tg = g.to_sq();
    let sc = captured(pos, s, g, Side::Sente);
    let gc = captured(pos, g, s, Side::Gote);
    let s_takes = g.from_sq() != Some(ts) && pos.board.at(ts) is Some;
    let g_takes = s.from_sq() != Some(tg) && pos.board.at(tg) is Some;
    assert(s_takes ==> sc == pos.board.at(ts));
    assert(!s_takes ==> sc is None);
    assert(g_takes ==> gc == pos.board.at(tg));
    assert(!g_takes ==> gc is None);
    assert(arrives(pos, s, Side::Sente) == landing_piece(pos, s, Side::Sente));
    assert(arrives(pos, g, Side::Gote) == landing_piece(pos, g, Side::Gote));
    let q1 = vacate(pos, s);
    lemma_vacate(pos, s, Side::Sente);
    if let Action::Move { from: fg, .. } = g {
        if let Action::Move { from: fs, .. } = s {
            assert(fs != fg);
        }
        assert(q1.board.at(fg) == pos.board.at(fg));
    }
    let p1 = vacate(q1, g);
    lemma_vacate(q1, g, Side::Gote);
    let p2 = gain_capture(p1, Side::Sente, sc);
    let p3 = gain_capture(p2, Side::Gote, gc);
    let p35 = consume_drop(p3, s, Side::Sente);
    let p4 = consume_drop(p35, g, Side::Gote);
    assert(p4.board == p1.board);
    let b1 = p4.board.with_cell(ts, Some(landing_piece(pos, s, Side::Sente)));
    lemma_with_cell(p4.board, ts, Some(landing_piece(pos, s, Side::Sente)));
    lemma_with_cell(b1, tg, Some(landing_piece(pos, g, Side::Gote)));
    let add_s: Option<PieceKind> = match sc {
        Some(c) => if c.kind != PieceKind::King { Some(c.kind.unpromoted()) } else { None },
        None => None,
    };
    let add_g: Option<PieceKind> = match gc {
        Some(c) => if c.kind != PieceKind::King { Some(c.kind.unpromoted()) } else { None },
        None => None,
    };
    let take_s: Option<PieceKind> = if s is Drop { Some(s->kind) } else { None };
    let take_g: Option<PieceKind> = if g is Drop { Some(g->kind) } else { None };
    assert forall|k: PieceKind| crate::board::is_hand_kind(k) implies #[trigger] r.next.hand_sente.spec_count(k)
        == pos.hand_sente.spec_count(k) + (if add_s == Some(k) { 1int } else { 0 }) - (if take_s == Some(k) {
        1int
    } else {
        0
    }) by {
        lemma_hand_moves(pos.hand_sente, add_s, take_s, k);
    }
    assert forall|k: PieceKind| crate::board::is_hand_kind(k) implies #[trigger] r.next.hand_gote.spec_count(k)
        == pos.hand_gote.spec_count(k) + (if add_g == Some(k) { 1int } else { 0 }) - (if take_g == Some(k) {
        1int
    } else {
        0
    }) by {
        lemma_hand_moves(pos.hand_gote, add_g, take_g, k);
    }
    assert forall|o: Square|
        o.wf() && o != ts && o != tg && s.from_sq() != Some(o) && g.from_sq() != Some(o) implies
        #[trigger] r.next.board.at(o) == pos.board.at(o) by {
        assert(p1.board.at(o) == pos.board.at(o));
    }
    if let Action::Move { from: fs, .. } = s {
        if fs != tg {
            assert(p1.board.at(fs) is None);
        }
    }
    if let Action::Move { from: fg, .. } = g {
        if fg != ts {
            assert(p1.board.at(fg) is None);
        }
    }
}

} // verus!
