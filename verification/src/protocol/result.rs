//! The one place that decides how a game ended: resignation, which is a
//! declaration and not a move, first; then the end that the board shows.
use vstd::prelude::*;

use crate::archive::{Outcome, ResultKind};
use crate::kifu::Kifu;
use crate::resolve::{spec_resolve, ResolutionEvent};
use crate::terminate::{
    evaluate, result_of_terminal, terminal_of, terminal_to_result, DrawKind, LossKind, Terminal,
};
use crate::types::Side;


verus! {

/// The last turn holds a resignation.
pub open spec fn ends_in_resignation(k: Kifu) -> bool {
    k.plies@.len() > 0 && (k.plies@.last().sente is Resign || k.plies@.last().gote is Resign)
}

/// The outcome in which `side` wins.
pub open spec fn win_for(side: Side) -> Outcome {
    match side {
        Side::Sente => Outcome::SenteWins,
        Side::Gote => Outcome::GoteWins,
    }
}

/// The archive result of an end: a loss names the other camp as the winner,
/// under the kind of the loss; every drawn end is a draw; a game that goes on
/// has no result.
pub proof fn lemma_result_names_winner(t: Terminal)
    ensures
        t matches Terminal::Loss { loser, kind } ==> result_of_terminal(t) == Some(
            (
                if kind == LossKind::Mate {
                    ResultKind::Mate
                } else {
                    ResultKind::KingDeath
                },
                win_for(loser.opposite()),
            ),
        ),
        t matches Terminal::Draw { .. } ==> result_of_terminal(t) matches Some((_, o)) && o
            == Outcome::Draw,
        t is Ongoing ==> result_of_terminal(t) is None,
{
}

/// A king taken in the last turn: the camp that lost its king loses the
/// game, both kings taken is a draw; a resigning camp loses, both resigning
/// is a draw.
pub proof fn lemma_game_result_winner(k: Kifu)
    requires
        k.plies@.len() > 0,
    ensures
        ({
            let n = k.plies@.len() as int;
            let last = k.plies@[n - 1];
            let ev = spec_resolve(k.position_at(n - 1), last.sente, last.gote).event;
            &&& !ends_in_resignation(k) && ev == ResolutionEvent::SenteDied ==> game_result_of(k)
                == Some((ResultKind::KingDeath, win_for(Side::Gote)))
            &&& !ends_in_resignation(k) && ev == ResolutionEvent::GoteDied ==> game_result_of(k)
                == Some((ResultKind::KingDeath, win_for(Side::Sente)))
            &&& !ends_in_resignation(k) && ev == ResolutionEvent::BothDied ==> game_result_of(k)
                == Some((ResultKind::SwapDraw, Outcome::Draw))
            &&& last.sente is Resign && !(last.gote is Resign) ==> game_result_of(k) == Some(
                (ResultKind::Resign, win_for(Side::Gote)),
            )
            &&& last.gote is Resign && !(last.sente is Resign) ==> game_result_of(k) == Some(
                (ResultKind::Resign, win_for(Side::Sente)),
            )
        }),
{
    let n = k.plies@.len() as int;
    assert(k.plies@.last() == k.plies@[n - 1]);
    let last = k.plies@[n - 1];
    if crate::terminate::king_death_of(spec_resolve(k.position_at(n - 1), last.sente, last.gote).event) is Some {
        crate::rules::lemma_king_death_first(k);
    }
    assert(k.position_at(n - 1) == crate::kifu::replay_spec(k.initial_position, k.plies@, (n - 1) as nat));
}

/// Mate decides when no king was taken in the last turn and nobody
/// resigned: a camp left without any legal action loses to the other, and
/// both left without one is a draw.
pub proof fn lemma_mate_result(k: Kifu)
    requires
        !ends_in_resignation(k),
        k.plies@.len() > 0 ==> ({
            let n = k.plies@.len() as int;
            let last = k.plies@[n - 1];
            crate::terminate::king_death_of(spec_resolve(k.position_at(n - 1), last.sente, last.gote).event) is None
        }),
    ensures
        ({
            let p = k.position_at(k.plies@.len() as int);
            let s = crate::terminate::has_legal(p, Side::Sente);
            let g = crate::terminate::has_legal(p, Side::Gote);
            &&& !s && g ==> game_result_of(k) == Some((ResultKind::Mate, win_for(Side::Gote)))
            &&& s && !g ==> game_result_of(k) == Some((ResultKind::Mate, win_for(Side::Sente)))
            &&& !s && !g ==> game_result_of(k) == Some((ResultKind::Mate, Outcome::Draw))
        }),
{
    let n = k.plies@.len() as int;
    assert(k.position_at(n) == crate::kifu::replay_spec(k.initial_position, k.plies@, n as nat));
    if n > 0 {
        assert(k.position_at(n - 1) == crate::kifu::replay_spec(k.initial_position, k.plies@, (n - 1) as nat));
    }
}

/// How a game ended: a resignation in the last turn (both resigning is a
/// draw), else the end that the board shows; none while it goes on.
pub open spec fn game_result_of(k: Kifu) -> Option<(ResultKind, Outcome)> {
    if ends_in_resignation(k) {
        let last = k.plies@.last();
        if last.sente is Resign && last.gote is Resign {
            Some((ResultKind::Resign, Outcome::Draw))
        } else if last.sente is Resign {
            Some((ResultKind::Resign, Outcome::GoteWins))
        } else {
            Some((ResultKind::Resign, Outcome::SenteWins))
        }
    } else {
        result_of_terminal(terminal_of(k))
    }
}

/// How the game of a record ended (see `game_result_of`).
pub fn game_result(kifu: &Kifu) -> (r: Option<(ResultKind, Outcome)>)
    requires
        ends_in_resignation(*kifu) || (kifu.wf() && kifu.position_at(
            kifu.plies@.len() as int,
        ).has_room()),
    ensures
        r == game_result_of(*kifu),
{
    let n = kifu.plies.len();
    if n > 0 {
        let last = kifu.plies[n - 1];
        match (last.sente.is_resign(), last.gote.is_resign()) {
            (true, true) => {
                return Some((ResultKind::Resign, Outcome::Draw));
            },
            (true, false) => {
                return Some((ResultKind::Resign, Outcome::GoteWins));
            },
            (false, true) => {
                return Some((ResultKind::Resign, Outcome::SenteWins));
            },
            (false, false) => {},
        }
    }
    let t = evaluate(kifu);
    terminal_to_result(&t)
}

} // verus!
