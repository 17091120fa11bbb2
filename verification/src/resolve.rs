//! Simultaneous resolution of one turn: both actions land at once, then the
//! conflicts on the destination squares are settled.
use vstd::prelude::*;

use crate::board::{group_board, is_hand_kind, Hand, Position};
use crate::types::{group_square, Action, Piece, PieceKind, Side};

verus! {

broadcast use {group_square, group_board};

/// The result of resolving one turn.
#[derive(Debug, Clone, Copy)]
pub struct Resolution {
    pub next: Position,
    pub event: ResolutionEvent,
}

/// The main event of a turn.
#[derive(Debug, Clone, Copy, PartialEq, Eq, Structural)]
pub enum ResolutionEvent {
    /// Ordinary resolution (captures, escapes, moves to empty squares).
    Normal { sente_capture: Option<PieceKind>, gote_capture: Option<PieceKind> },
    /// Both pieces met on one square, or swapped squares: they are exchanged.
    Clash { sente_piece: PieceKind, gote_piece: PieceKind },
    /// The sente king was taken.
    SenteDied,
    /// The gote king was taken.
    GoteDied,
    /// Both kings were taken at once (a draw).
    BothDied,
}

/// The piece that an action moves: the piece on the origin of a move, or a
/// piece of the dropped kind.
pub open spec fn moving_piece(pos: Position, a: Action, side: Side) -> Piece {
    match a {
        Action::Move { from, .. } => pos.board.at(from)->0,
        Action::Drop { kind, .. } => Piece { kind, side },
        Action::Resign => Piece { kind: PieceKind::King, side },
    }
}

/// An action of `side` can be carried out on `pos`: a move starts from an
/// occupied square and promotes only a promotable piece; a drop takes a kind
/// that the hand holds.
pub open spec fn action_applicable(pos: Position, a: Action, side: Side) -> bool {
    &&& a.wf()
    &&& match a {
        Action::Move { from, promote, .. } => {
            &&& pos.board.at(from) is Some
            &&& promote ==> pos.board.at(from)->0.kind.can_promote()
        },
        Action::Drop { kind, .. } => is_hand_kind(kind) && pos.spec_hand(side).spec_count(kind)
            > 0,
        Action::Resign => false,
    }
}

/// The turn can be resolved: both actions apply, the hands have room for a
/// capture, the turn number can grow, and the two kings do not land on one square.
pub open spec fn resolvable(pos: Position, sente: Action, gote: Action) -> bool {
    &&& action_applicable(pos, sente, Side::Sente)
    &&& action_applicable(pos, gote, Side::Gote)
    &&& pos.has_room()
    &&& pos.move_number < u32::MAX
    &&& !(sente.to_sq() == gote.to_sq() && moving_piece(pos, sente, Side::Sente).kind
        == PieceKind::King && moving_piece(pos, gote, Side::Gote).kind == PieceKind::King)
}

/// `pos` with the origin of a move emptied (a drop or a resignation leaves it).
pub open spec fn vacate(pos: Position, a: Action) -> Position {
    match a {
        Action::Move { from, .. } => Position { board: pos.board.with_cell(from, None), ..pos },
        _ => pos,
    }
}

/// `pos` with one piece of a dropped kind taken from the dropper's hand.
pub open spec fn consume_drop(pos: Position, a: Action, side: Side) -> Position {
    match a {
        Action::Drop { kind, .. } => pos.with_hand(side, pos.spec_hand(side).spec_remove(kind)),
        _ => pos,
    }
}

/// `pos` with a captured piece of `kind` added, unpromoted, to the hand of `side`.
pub open spec fn gain(pos: Position, side: Side, kind: PieceKind) -> Position {
    pos.with_hand(side, pos.spec_hand(side).spec_add(kind.unpromoted()))
}

pub open spec fn bump(pos: Position) -> Position {
    Position { move_number: (pos.move_number + 1) as u32, ..pos }
}

/// A clash (4.3 / 4.4): both moving pieces leave the board; each camp takes the
/// other's piece, unpromoted (a king is not taken in hand: it is dead).
pub open spec fn clash_result(pos: Position, sente: Action, gote: Action) -> Resolution {
    let sp = moving_piece(pos, sente, Side::Sente);
    let gp = moving_piece(pos, gote, Side::Gote);
    let p1 = vacate(vacate(pos, sente), gote);
    let p2 = if gp.kind != PieceKind::King { gain(p1, Side::Sente, gp.kind) } else { p1 };
    let p3 = if sp.kind != PieceKind::King { gain(p2, Side::Gote, sp.kind) } else { p2 };
    let p4 = consume_drop(consume_drop(p3, sente, Side::Sente), gote, Side::Gote);
    let b1 = p4.board.with_cell(sente.to_sq(), None);
    let b2 = if sente.to_sq() != gote.to_sq() { b1.with_cell(gote.to_sq(), None) } else { b1 };
    let next = bump(Position { board: b2, ..p4 });
    let event = if sp.kind == PieceKind::King && gp.kind == PieceKind::King {
        ResolutionEvent::BothDied
    } else if sp.kind == PieceKind::King {
        ResolutionEvent::SenteDied
    } else if gp.kind == PieceKind::King {
        ResolutionEvent::GoteDied
    } else {
        ResolutionEvent::Clash { sente_piece: sp.kind, gote_piece: gp.kind }
    };
    Resolution { next, event }
}

/// The king wins a collision (4.7): it takes the enemy piece into hand and
/// stands on its destination.
pub open spec fn king_wins_result(
    pos: Position,
    king_act: Action,
    enemy_act: Action,
    king_side: Side,
) -> Resolution {
    let enemy_side = king_side.opposite();
    let ep = moving_piece(pos, enemy_act, enemy_side);
    let kp = moving_piece(pos, king_act, king_side);
    let p1 = vacate(vacate(pos, king_act), enemy_act);
    let p2 = consume_drop(p1, enemy_act, enemy_side);
    let p3 = gain(p2, king_side, ep.kind);
    let next = bump(Position { board: p3.board.with_cell(king_act.to_sq(), Some(kp)), ..p3 });
    let event = match king_side {
        Side::Sente => ResolutionEvent::Normal { sente_capture: Some(ep.kind), gote_capture: None },
        Side::Gote => ResolutionEvent::Normal { sente_capture: None, gote_capture: Some(ep.kind) },
    };
    Resolution { next, event }
}

/// The piece that a camp captures in independent resolution: an enemy piece
/// that stays on the destination (one that moves away escapes, 4.2).
pub open spec fn captured(pos: Position, mover: Action, other: Action, side: Side) -> Option<
    Piece,
> {
    let t = mover.to_sq();
    if other.from_sq() == Some(t) {
        None
    } else {
        match pos.board.at(t) {
            Some(p) => if p.side == side.opposite() { Some(p) } else { None },
            None => None,
        }
    }
}

/// The piece that lands on the destination, promoted if the move says so.
pub open spec fn landing_piece(pos: Position, a: Action, side: Side) -> Piece {
    let p = moving_piece(pos, a, side);
    match a {
        Action::Move { promote: true, .. } => Piece { kind: p.kind.promoted(), side: p.side },
        _ => p,
    }
}

/// Independent resolution: captures and escapes are judged on the position
/// before the turn, then every change is applied at once.
pub open spec fn independent_result(pos: Position, sente: Action, gote: Action) -> Resolution {
    let sc = captured(pos, sente, gote, Side::Sente);
    let gc = captured(pos, gote, sente, Side::Gote);
    let p1 = vacate(vacate(pos, sente), gote);
    let p2 = gain_capture(p1, Side::Sente, sc);
    let p3 = gain_capture(p2, Side::Gote, gc);
    let p4 = consume_drop(consume_drop(p3, sente, Side::Sente), gote, Side::Gote);
    let b1 = p4.board.with_cell(sente.to_sq(), Some(landing_piece(pos, sente, Side::Sente)));
    let b2 = b1.with_cell(gote.to_sq(), Some(landing_piece(pos, gote, Side::Gote)));
    let next = bump(Position { board: b2, ..p4 });
    let sente_died = gc matches Some(c) && c.kind == PieceKind::King;
    let gote_died = sc matches Some(c) && c.kind == PieceKind::King;
    let event = if sente_died && gote_died {
        ResolutionEvent::BothDied
    } else if sente_died {
        ResolutionEvent::SenteDied
    } else if gote_died {
        ResolutionEvent::GoteDied
    } else {
        ResolutionEvent::Normal {
            sente_capture: match sc {
                Some(c) => Some(c.kind),
                None => None,
            },
            gote_capture: match gc {
                Some(c) => Some(c.kind),
                None => None,
            },
        }
    };
    Resolution { next, event }
}

/// The two moves swap squares (4.4).
pub open spec fn is_swap(sente: Action, gote: Action) -> bool {
    match (sente, gote) {
        (Action::Move { from: fs, to: ts, .. }, Action::Move { from: fg, to: tg, .. }) => ts == fg
            && tg == fs,
        _ => false,
    }
}

/// The rule of simultaneous resolution.
/// - Same destination (4.3): the pieces clash, unless exactly one is a king,
///   which then wins (4.7).
/// - Swap (4.4): the pieces clash; if exactly one is a king it wins (4.7); two
///   kings cancel out and clash.
/// - Otherwise each action is applied independently (4.1, 4.2, 4.6).
pub open spec fn spec_resolve(pos: Position, sente: Action, gote: Action) -> Resolution {
    let sk = moving_piece(pos, sente, Side::Sente).kind == PieceKind::King;
    let gk = moving_piece(pos, gote, Side::Gote).kind == PieceKind::King;
    if sente.to_sq() == gote.to_sq() {
        if sk {
            king_wins_result(pos, sente, gote, Side::Sente)
        } else if gk {
            king_wins_result(pos, gote, sente, Side::Gote)
        } else {
            clash_result(pos, sente, gote)
        }
    } else if is_swap(sente, gote) {
        if sk && gk {
            clash_result(pos, sente, gote)
        } else if sk {
            king_wins_result(pos, sente, gote, Side::Sente)
        } else if gk {
            king_wins_result(pos, gote, sente, Side::Gote)
        } else {
            clash_result(pos, sente, gote)
        }
    } else {
        independent_result(pos, sente, gote)
    }
}

fn hand_has_room(h: &Hand) -> (b: bool)
    ensures
        b == h.has_room(),
{
    let kinds = Hand::kinds();
    let mut i: usize = 0;
    while i < 7
        invariant
            i <= 7,
            forall|j: int| 0 <= j < 7 ==> #[trigger] kinds@[j] == crate::board::slot_kind(j),
            forall|j: int| 0 <= j < i ==> #[trigger] h.counts()[j] < 255,
        decreases 7 - i,
    {
        if h.count(kinds[i]) >= 255 {
            return false;
        }
        i += 1;
    }
    true
}

/// Whether both hands of the position can take one more piece of every kind.
pub fn hands_have_room(pos: &Position) -> (b: bool)
    ensures
        b == pos.has_room(),
{
    hand_has_room(&pos.hand_sente) && hand_has_room(&pos.hand_gote)
}

/// Whether an action of `side` can be carried out on `pos` (see `action_applicable`).
pub fn is_applicable(pos: &Position, a: Action, side: Side) -> (b: bool)
    ensures
        b == action_applicable(*pos, a, side),
{
    match a {
        Action::Move { from, to, promote } => {
            if !(from.index() < 81 && to.index() < 81) {
                return false;
            }
            match pos.board.get(from) {
                Some(p) => !promote || p.kind.can_promote(),
                None => false,
            }
        },
        Action::Drop { kind, to } => {
            if to.index() >= 81 || kind.is_promoted() {
                return false;
            }
            match kind {
                PieceKind::King => false,
                _ => pos.hand(side).count(kind) > 0,
            }
        },
        Action::Resign => false,
    }
}

/// Whether `resolve` accepts the turn (see `resolvable`).
pub fn can_resolve(pos: &Position, sente: Action, gote: Action) -> (b: bool)
    ensures
        b == resolvable(*pos, sente, gote),
{
    if !is_applicable(pos, sente, Side::Sente) || !is_applicable(pos, gote, Side::Gote) {
        return false;
    }
    if !hand_has_room(&pos.hand_sente) || !hand_has_room(&pos.hand_gote) {
        return false;
    }
    if pos.move_number == u32::MAX {
        return false;
    }
    let sp = get_moving_piece(pos, sente, Side::Sente);
    let gp = get_moving_piece(pos, gote, Side::Gote);
    !(sente.to_sq() == gote.to_sq() && sp.kind == PieceKind::King && gp.kind == PieceKind::King)
}

/// Resolves a turn in which both actions are already known to apply, and
/// returns the next position with the main event.
pub fn resolve(pos: &Position, sente: Action, gote: Action) -> (r: Resolution)
    requires
        resolvable(*pos, sente, gote),
    ensures
        r == spec_resolve(*pos, sente, gote),
{
    let ts = sente.to_sq();
    let tg = gote.to_sq();
    let sente_piece = get_moving_piece(pos, sente, Side::Sente);
    let gote_piece = get_moving_piece(pos, gote, Side::Gote);
    let sk = sente_piece.kind == PieceKind::King;
    let gk = gote_piece.kind == PieceKind::King;
    if ts == tg {
        return if sk {
            resolve_king_wins(pos, sente, gote, Side::Sente)
        } else if gk {
            resolve_king_wins(pos, gote, sente, Side::Gote)
        } else {
            resolve_clash(pos, sente, gote)
        };
    }
    if let (Some(fs), Some(fg)) = (sente.from_sq(), gote.from_sq()) {
        if ts == fg && tg == fs {
            return if sk && gk {
                resolve_clash(pos, sente, gote)
            } else if sk {
                resolve_king_wins(pos, sente, gote, Side::Sente)
            } else if gk {
                resolve_king_wins(pos, gote, sente, Side::Gote)
            } else {
                resolve_clash(pos, sente, gote)
            };
        }
    }
    resolve_independent(pos, sente, gote)
}

fn gain_piece(next: &mut Position, side: Side, kind: PieceKind)
    requires
        kind != PieceKind::King,
        old(next).spec_hand(side).spec_count(kind.unpromoted()) < 255,
    ensures
        *final(next) == gain(*old(next), side, kind),
{
    match side {
        Side::Sente => next.hand_sente.add(kind.unpromoted()),
        Side::Gote => next.hand_gote.add(kind.unpromoted()),
    }
}

fn consume(next: &mut Position, a: Action, side: Side)
    requires
        a is Drop ==> is_hand_kind(a->kind) && old(next).spec_hand(side).spec_count(a->kind) > 0,
    ensures
        *final(next) == consume_drop(*old(next), a, side),
{
    if let Action::Drop { kind, .. } = a {
        match side {
            Side::Sente => next.hand_sente.remove(kind),
            Side::Gote => next.hand_gote.remove(kind),
        }
    }
}

fn vacate_origin(next: &mut Position, a: Action)
    requires
        a.wf(),
    ensures
        *final(next) == vacate(*old(next), a),
{
    if let Action::Move { from, .. } = a {
        next.board.set(from, None);
    }
}

/// A clash (4.3 / 4.4).
fn resolve_clash(pos: &Position, sente: Action, gote: Action) -> (r: Resolution)
    requires
        resolvable(*pos, sente, gote),
        !(moving_piece(*pos, sente, Side::Sente).kind == PieceKind::King && moving_piece(
            *pos,
            gote,
            Side::Gote,
        ).kind != PieceKind::King),
        !(moving_piece(*pos, sente, Side::Sente).kind != PieceKind::King && moving_piece(
            *pos,
            gote,
            Side::Gote,
        ).kind == PieceKind::King),
    ensures
        r == clash_result(*pos, sente, gote),
{
    let mut next = *pos;
    let ts = sente.to_sq();
    let tg = gote.to_sq();
    vacate_origin(&mut next, sente);
    vacate_origin(&mut next, gote);
    let sente_piece = get_moving_piece(pos, sente, Side::Sente);
    let gote_piece = get_moving_piece(pos, gote, Side::Gote);
    if gote_piece.kind != PieceKind::King {
        gain_piece(&mut next, Side::Sente, gote_piece.kind);
    }
    if sente_piece.kind != PieceKind::King {
        gain_piece(&mut next, Side::Gote, sente_piece.kind);
    }
    consume(&mut next, sente, Side::Sente);
    consume(&mut next, gote, Side::Gote);
    next.board.set(ts, None);
    if ts != tg {
        next.board.set(tg, None);
    }
    next.move_number += 1;
    let sd = sente_piece.kind == PieceKind::King;
    let gd = gote_piece.kind == PieceKind::King;
    let event = if sd && gd {
        ResolutionEvent::BothDied
    } else if sd {
        ResolutionEvent::SenteDied
    } else if gd {
        ResolutionEvent::GoteDied
    } else {
        ResolutionEvent::Clash { sente_piece: sente_piece.kind, gote_piece: gote_piece.kind }
    };
    Resolution { next, event }
}

/// The king wins (4.7): it takes the enemy piece and stands on its destination.
fn resolve_king_wins(pos: &Position, king_act: Action, enemy_act: Action, king_side: Side) -> (r:
    Resolution)
    requires
        king_side == Side::Sente ==> resolvable(*pos, king_act, enemy_act),
        king_side == Side::Gote ==> resolvable(*pos, enemy_act, king_act),
        moving_piece(*pos, king_act, king_side).kind == PieceKind::King,
        moving_piece(*pos, enemy_act, king_side.opposite()).kind != PieceKind::King,
    ensures
        r == king_wins_result(*pos, king_act, enemy_act, king_side),
{
    let enemy_side = king_side.opposite();
    let enemy_piece = get_moving_piece(pos, enemy_act, enemy_side);
    let king_piece = get_moving_piece(pos, king_act, king_side);
    let mut next = *pos;
    vacate_origin(&mut next, king_act);
    vacate_origin(&mut next, enemy_act);
    consume(&mut next, enemy_act, enemy_side);
    gain_piece(&mut next, king_side, enemy_piece.kind);
    next.board.set(king_act.to_sq(), Some(king_piece));
    next.move_number += 1;
    let event = match king_side {
        Side::Sente => ResolutionEvent::Normal {
            sente_capture: Some(enemy_piece.kind),
            gote_capture: None,
        },
        Side::Gote => ResolutionEvent::Normal {
            sente_capture: None,
            gote_capture: Some(enemy_piece.kind),
        },
    };
    Resolution { next, event }
}

/// `pos` with a captured piece, if any and not a king, added to the hand of `side`.
pub open spec fn gain_capture(pos: Position, side: Side, cap: Option<Piece>) -> Position {
    match cap {
        Some(c) => if c.kind != PieceKind::King { gain(pos, side, c.kind) } else { pos },
        None => pos,
    }
}

fn capture_of(pos: &Position, mover: Action, other: Action, side: Side) -> (r: Option<Piece>)
    requires
        mover.wf(),
        !(mover is Resign),
    ensures
        r == captured(*pos, mover, other, side),
{
    let t = mover.to_sq();
    if other.from_sq() == Some(t) {
        None
    } else {
        match pos.board.get(t) {
            Some(p) => if p.side == side.opposite() { Some(p) } else { None },
            None => None,
        }
    }
}

fn gain_captured(next: &mut Position, side: Side, cap: Option<Piece>)
    requires
        old(next).spec_hand(side).has_room(),
    ensures
        *final(next) == gain_capture(*old(next), side, cap),
{
    if let Some(c) = cap {
        if c.kind != PieceKind::King {
            assert(old(next).spec_hand(side).has_room());
            gain_piece(next, side, c.kind);
        }
    }
}

fn landing(pos: &Position, a: Action, side: Side) -> (p: Piece)
    requires
        action_applicable(*pos, a, side),
    ensures
        p == landing_piece(*pos, a, side),
{
    let mut p = get_moving_piece(pos, a, side);
    if let Action::Move { promote: true, .. } = a {
        p.kind = p.kind.promoted();
    }
    p
}

fn independent_event(sente_cap: Option<Piece>, gote_cap: Option<Piece>) -> (e: ResolutionEvent)
    ensures
        e == ({
            let sente_died = gote_cap matches Some(c) && c.kind == PieceKind::King;
            let gote_died = sente_cap matches Some(c) && c.kind == PieceKind::King;
            if sente_died && gote_died {
                ResolutionEvent::BothDied
            } else if sente_died {
                ResolutionEvent::SenteDied
            } else if gote_died {
                ResolutionEvent::GoteDied
            } else {
                ResolutionEvent::Normal {
                    sente_capture: match sente_cap {
                        Some(c) => Some(c.kind),
                        None => None,
                    },
                    gote_capture: match gote_cap {
                        Some(c) => Some(c.kind),
                        None => None,
                    },
                }
            }
        }),
{
    let sente_king_died = match gote_cap {
        Some(p) => p.kind == PieceKind::King,
        None => false,
    };
    let gote_king_died = match sente_cap {
        Some(p) => p.kind == PieceKind::King,
        None => false,
    };
    if sente_king_died && gote_king_died {
        ResolutionEvent::BothDied
    } else if sente_king_died {
        ResolutionEvent::SenteDied
    } else if gote_king_died {
        ResolutionEvent::GoteDied
    } else {
        ResolutionEvent::Normal {
            sente_capture: match sente_cap {
                Some(p) => Some(p.kind),
                None => None,
            },
            gote_capture: match gote_cap {
                Some(p) => Some(p.kind),
                None => None,
            },
        }
    }
}

/// Independent resolution: captures and escapes judged on the position before
/// the turn, then all changes applied at once.
fn resolve_independent(pos: &Position, sente: Action, gote: Action) -> (r: Resolution)
    requires
        resolvable(*pos, sente, gote),
    ensures
        r == independent_result(*pos, sente, gote),
{
    let sente_cap = capture_of(pos, sente, gote, Side::Sente);
    let gote_cap = capture_of(pos, gote, sente, Side::Gote);
    let mut next = *pos;
    vacate_origin(&mut next, sente);
    vacate_origin(&mut next, gote);
    let ghost p1 = next;
    assert(p1.has_room());
    gain_captured(&mut next, Side::Sente, sente_cap);
    let ghost p2 = next;
    assert(p2.hand_gote == p1.hand_gote);
    gain_captured(&mut next, Side::Gote, gote_cap);
    let ghost p3 = next;
    assert(p3.hand_sente == p2.hand_sente);
    consume(&mut next, sente, Side::Sente);
    consume(&mut next, gote, Side::Gote);
    let sp = landing(pos, sente, Side::Sente);
    let gp = landing(pos, gote, Side::Gote);
    next.board.set(sente.to_sq(), Some(sp));
    next.board.set(gote.to_sq(), Some(gp));
    next.move_number += 1;
    let event = independent_event(sente_cap, gote_cap);
    Resolution { next, event }
}

/// The piece an action moves: the piece on the origin, or a piece of the dropped kind.
fn get_moving_piece(pos: &Position, action: Action, side: Side) -> (p: Piece)
    requires
        action_applicable(*pos, action, side),
    ensures
        p == moving_piece(*pos, action, side),
{
    match action {
        Action::Move { from, .. } => pos.board.get(from).unwrap(),
        Action::Drop { kind, .. } => Piece::new(kind, side),
        Action::Resign => Piece::new(PieceKind::King, side),
    }
}

} // verus!
