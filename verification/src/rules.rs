//! The rules of simultaneous resolution, each stated on its own and proved
//! from `spec_resolve`, the rule that `resolve` follows.
use vstd::prelude::*;

use crate::board::{group_board, Position};
use crate::resolve::{
    is_swap, landing_piece, moving_piece, resolvable, spec_resolve, ResolutionEvent,
};
use crate::kifu::Kifu;
use crate::movegen::{apply_temp, in_check, is_legal, pawn_on_file};
use crate::terminate::{
    is_sennichite, king_death_of, status_of, terminal_of, DrawKind, GameEnd, GameStatus, LossKind,
    Terminal, MAX_TURNS,
};
use crate::types::{group_square, Action, Piece, PieceKind, Side, Square};

verus! {

broadcast use {group_square, group_board};

/// Capture (4.1): a move onto a square whose enemy piece stays takes that
/// piece into hand, unpromoted, whatever the two pieces are worth, and the
/// mover stands on the square.
pub proof fn lemma_capture_any_value(pos: Position, from: Square, to: Square, promote: bool, gote: Action)
    requires
        resolvable(pos, Action::Move { from, to, promote }, gote),
        pos.board.at(to) matches Some(p) && p.side == Side::Gote && p.kind != PieceKind::King,
        gote.from_sq() != Some(to),
        gote.to_sq() != to,
        !is_swap(Action::Move { from, to, promote }, gote),
        gote.to_sq() != from,
    ensures
        ({
            let s = Action::Move { from, to, promote };
            let r = spec_resolve(pos, s, gote);
            let p = pos.board.at(to)->0;
            &&& r.next.hand_sente == pos.hand_sente.spec_add(p.kind.unpromoted())
            &&& r.next.board.at(to) == Some(landing_piece(pos, s, Side::Sente))
            &&& r.event is Normal ==> r.event->sente_capture == Some(p.kind)
            &&& r.event is Normal || r.event is SenteDied
        }),
{
    let s = Action::Move { from, to, promote };
    let r = spec_resolve(pos, s, gote);
    let p = pos.board.at(to)->0;
    assert(r == crate::resolve::independent_result(pos, s, gote));
    assert(crate::resolve::captured(pos, s, gote, Side::Sente) == Some(p));
    lemma_other_square(gote.to_sq(), to);
}

/// Escape (4.2): a piece that moves away from the square a move goes to is
/// not captured; both stand on their destinations.
pub proof fn lemma_escape(pos: Position, sente: Action, from: Square, to: Square, promote: bool)
    requires
        resolvable(pos, sente, Action::Move { from, to, promote }),
        sente matches Action::Move { .. },
        sente.to_sq() == from,
        to != from,
        sente.from_sq() != Some(to),
    ensures
        ({
            let g = Action::Move { from, to, promote };
            let r = spec_resolve(pos, sente, g);
            &&& r.next.hand_sente == pos.hand_sente
            &&& r.next.board.at(from) == Some(landing_piece(pos, sente, Side::Sente))
            &&& r.next.board.at(to) == Some(landing_piece(pos, g, Side::Gote))
            &&& r.event is Normal ==> r.event->sente_capture is None
        }),
{
    let g = Action::Move { from, to, promote };
    let r = spec_resolve(pos, sente, g);
    assert(r == crate::resolve::independent_result(pos, sente, g));
    assert(crate::resolve::captured(pos, sente, g, Side::Sente) is None);
    lemma_other_square(to, from);
}

/// Clash (4.3, 4.4): two moves onto one square, or two moves that swap
/// squares, with no king among the two pieces: both leave the board, and each
/// camp takes the other's piece into hand, unpromoted.
pub proof fn lemma_clash(pos: Position, sente: Action, gote: Action)
    requires
        resolvable(pos, sente, gote),
        sente matches Action::Move { .. },
        gote matches Action::Move { .. },
        sente.to_sq() == gote.to_sq() || is_swap(sente, gote),
        moving_piece(pos, sente, Side::Sente).kind != PieceKind::King,
        moving_piece(pos, gote, Side::Gote).kind != PieceKind::King,
    ensures
        ({
            let r = spec_resolve(pos, sente, gote);
            let sp = moving_piece(pos, sente, Side::Sente);
            let gp = moving_piece(pos, gote, Side::Gote);
            &&& r.event == ResolutionEvent::Clash { sente_piece: sp.kind, gote_piece: gp.kind }
            &&& r.next.board.at(sente.to_sq()) is None
            &&& r.next.board.at(gote.to_sq()) is None
            &&& r.next.hand_sente == pos.hand_sente.spec_add(gp.kind.unpromoted())
            &&& r.next.hand_gote == pos.hand_gote.spec_add(sp.kind.unpromoted())
        }),
{
}

/// Path non-interference (4.6): only destinations are judged. Two actions
/// with different destinations that do not swap squares both land, each
/// piece on its own destination, whatever square of a slider's path the
/// other piece lands on or leaves.
pub proof fn lemma_paths_pass(pos: Position, sente: Action, gote: Action)
    requires
        resolvable(pos, sente, gote),
        !(sente is Resign),
        !(gote is Resign),
        sente.to_sq() != gote.to_sq(),
        !is_swap(sente, gote),
    ensures
        ({
            let r = spec_resolve(pos, sente, gote);
            &&& r.next.board.at(sente.to_sq()) == Some(landing_piece(pos, sente, Side::Sente))
            &&& r.next.board.at(gote.to_sq()) == Some(landing_piece(pos, gote, Side::Gote))
        }),
{
    let r = spec_resolve(pos, sente, gote);
    assert(r == crate::resolve::independent_result(pos, sente, gote));
    lemma_other_square(gote.to_sq(), sente.to_sq());
}

/// Sengoku Musou (4.7): when exactly one of two colliding pieces (same square
/// or swap) is a king, the king takes the other piece, moved or dropped, and
/// stands on its destination.
pub proof fn lemma_king_wins_collision(pos: Position, sente: Action, gote: Action, king_side: Side)
    requires
        resolvable(pos, sente, gote),
        sente.to_sq() == gote.to_sq() || is_swap(sente, gote),
        king_side == Side::Sente ==> moving_piece(pos, sente, Side::Sente).kind == PieceKind::King
            && moving_piece(pos, gote, Side::Gote).kind != PieceKind::King,
        king_side == Side::Gote ==> moving_piece(pos, gote, Side::Gote).kind == PieceKind::King
            && moving_piece(pos, sente, Side::Sente).kind != PieceKind::King,
    ensures
        ({
            let r = spec_resolve(pos, sente, gote);
            let (ka, ea) = if king_side == Side::Sente {
                (sente, gote)
            } else {
                (gote, sente)
            };
            let ep = moving_piece(pos, ea, king_side.opposite());
            &&& r.next.board.at(ka.to_sq()) == Some(moving_piece(pos, ka, king_side))
            &&& r.event == (if king_side == Side::Sente {
                ResolutionEvent::Normal { sente_capture: Some(ep.kind), gote_capture: None }
            } else {
                ResolutionEvent::Normal { sente_capture: None, gote_capture: Some(ep.kind) }
            })
        }),
{
    let r = spec_resolve(pos, sente, gote);
    if king_side == Side::Sente {
        assert(r == crate::resolve::king_wins_result(pos, sente, gote, Side::Sente));
    } else {
        assert(r == crate::resolve::king_wins_result(pos, gote, sente, Side::Gote));
    }
}

/// Two kings that swap squares cancel each other's exception (4.7): both are
/// taken, and the game is drawn.
pub proof fn lemma_king_swap_draws(pos: Position, sente: Action, gote: Action)
    requires
        resolvable(pos, sente, gote),
        is_swap(sente, gote),
        moving_piece(pos, sente, Side::Sente).kind == PieceKind::King,
        moving_piece(pos, gote, Side::Gote).kind == PieceKind::King,
    ensures
        spec_resolve(pos, sente, gote).event == ResolutionEvent::BothDied,
        king_death_of(spec_resolve(pos, sente, gote).event) == Some(GameEnd::Draw),
        spec_resolve(pos, sente, gote).next.board.at(sente.to_sq()) is None,
        spec_resolve(pos, sente, gote).next.board.at(gote.to_sq()) is None,
{
}

/// King's death (5.2): a king that stays on its square while an enemy move
/// lands there is taken, with or without a check before; when both kings are
/// taken in one turn the game is drawn (5.4).
pub proof fn lemma_staying_king_dies(pos: Position, sente: Action, gote: Action)
    requires
        resolvable(pos, sente, gote),
        sente.to_sq() != gote.to_sq(),
        !is_swap(sente, gote),
        pos.board.at(gote.to_sq()) == Some(Piece { kind: PieceKind::King, side: Side::Sente }),
        sente.from_sq() != Some(gote.to_sq()),
    ensures
        spec_resolve(pos, sente, gote).event == ResolutionEvent::SenteDied || spec_resolve(
            pos,
            sente,
            gote,
        ).event == ResolutionEvent::BothDied,
        king_death_of(spec_resolve(pos, sente, gote).event) is Some,
{
}


/// King safety at commitment: no legal action leaves the own king attacked
/// on the position it produces.
pub proof fn lemma_legal_keeps_king_safe(pos: Position, side: Side, a: Action)
    requires
        is_legal(pos, side, a),
    ensures
        !in_check(apply_temp(pos, side, a), side),
{
}

/// No second pawn: a legal pawn drop goes to a file without an own pawn.
pub proof fn lemma_legal_pawn_drop_file(pos: Position, side: Side, to: Square)
    requires
        is_legal(pos, side, Action::Drop { kind: PieceKind::Pawn, to }),
    ensures
        !pawn_on_file(pos, side, to.sfile()),
{
}

/// Resignation is a declaration, never a board action.
pub proof fn lemma_resign_not_legal(pos: Position, side: Side)
    ensures
        !is_legal(pos, side, Action::Resign),
{
}

/// A king's death in the last turn decides the game before anything else:
/// one king taken loses, both taken is a draw.
pub proof fn lemma_king_death_first(k: Kifu)
    requires
        k.plies@.len() > 0,
        ({
            let n = k.plies@.len() as int;
            let last = k.plies@[n - 1];
            king_death_of(spec_resolve(k.position_at(n - 1), last.sente, last.gote).event) is Some
        }),
    ensures
        ({
            let n = k.plies@.len() as int;
            let last = k.plies@[n - 1];
            match king_death_of(spec_resolve(k.position_at(n - 1), last.sente, last.gote).event) {
                Some(GameEnd::SenteLoses) => terminal_of(k) == Terminal::Loss {
                    loser: Side::Sente,
                    kind: LossKind::KingDeath,
                },
                Some(GameEnd::GoteLoses) => terminal_of(k) == Terminal::Loss {
                    loser: Side::Gote,
                    kind: LossKind::KingDeath,
                },
                _ => terminal_of(k) == Terminal::Draw { kind: DrawKind::BothKingsDied },
            }
        }),
{
}

/// The turn limit: a game of `MAX_TURNS` turns or more that no king's death,
/// mate or repetition has ended is drawn; below it, such a game goes on.
pub proof fn lemma_turn_limit(k: Kifu)
    requires
        k.plies@.len() > 0 ==> ({
            let n = k.plies@.len() as int;
            let last = k.plies@[n - 1];
            king_death_of(spec_resolve(k.position_at(n - 1), last.sente, last.gote).event) is None
        }),
        status_of(k.position_at(k.plies@.len() as int)) == GameStatus::Ongoing,
        !is_sennichite(k),
    ensures
        terminal_of(k) == (if k.plies@.len() >= MAX_TURNS {
            Terminal::Draw { kind: DrawKind::MaxTurns }
        } else {
            Terminal::Ongoing
        }),
{
}

/// Two different squares on the board are two different cells.
proof fn lemma_other_square(a: Square, b: Square)
    requires
        a != b,
    ensures
        a.idx() != b.idx(),
{
    crate::types::lemma_square_idx(a);
    crate::types::lemma_square_idx(b);
}

} // verus!
