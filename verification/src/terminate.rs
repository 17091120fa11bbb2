//! The end of a game: definite mate, a king's death, repetition, and the turn limit.
use vstd::prelude::*;

use crate::archive::{Outcome, ResultKind};
use crate::board::{Board, Hand, Position};
use crate::kifu::{replay_spec, step_ok, Kifu};
use crate::movegen::{is_legal, legal_actions};
use crate::resolve::{resolve, spec_resolve, ResolutionEvent};
use crate::types::{Action, Ply, Side};

verus! {

/// The state of a game before the actions of a turn are chosen.
#[derive(Debug, Clone, Copy, PartialEq, Eq, Structural)]
pub enum GameStatus {
    /// Both camps can act.
    Ongoing,
    /// Sente has no legal action: sente loses (definite mate).
    SenteLoses,
    /// Gote has no legal action: gote loses (definite mate).
    GoteLoses,
    /// Neither camp has a legal action: a draw.
    Draw,
}

/// `side` has at least one legal action on `pos`.
pub open spec fn has_legal(pos: Position, side: Side) -> bool {
    exists|a: Action| is_legal(pos, side, a)
}

/// The status of a position, from which camps can still act.
pub open spec fn status_of(pos: Position) -> GameStatus {
    let s = has_legal(pos, Side::Sente);
    let g = has_legal(pos, Side::Gote);
    if s && g {
        GameStatus::Ongoing
    } else if s {
        GameStatus::GoteLoses
    } else if g {
        GameStatus::SenteLoses
    } else {
        GameStatus::Draw
    }
}

fn can_act(pos: &Position, side: Side) -> (b: bool)
    requires
        pos.has_room(),
    ensures
        b == has_legal(*pos, side),
{
    let v = legal_actions(pos, side);
    if v.len() > 0 {
        assert(v@.contains(v@[0]));
        true
    } else {
        assert forall|a: Action| !is_legal(*pos, side, a) by {
            if is_legal(*pos, side, a) {
                assert(v@.contains(a));
            }
        }
        false
    }
}

/// Checks, before the actions of a turn are chosen, whether each camp can act.
pub fn check_status(pos: &Position) -> (s: GameStatus)
    requires
        pos.has_room(),
    ensures
        s == status_of(*pos),
{
    let sente_has_moves = can_act(pos, Side::Sente);
    let gote_has_moves = can_act(pos, Side::Gote);
    if sente_has_moves && gote_has_moves {
        GameStatus::Ongoing
    } else if sente_has_moves {
        GameStatus::GoteLoses
    } else if gote_has_moves {
        GameStatus::SenteLoses
    } else {
        GameStatus::Draw
    }
}

/// How a game ended.
#[derive(Debug, Clone, Copy, PartialEq, Eq, Structural)]
pub enum GameEnd {
    SenteLoses,
    GoteLoses,
    Draw,
}

/// The end that a resolution event brings: a king's death, or none.
pub open spec fn king_death_of(event: ResolutionEvent) -> Option<GameEnd> {
    match event {
        ResolutionEvent::SenteDied => Some(GameEnd::SenteLoses),
        ResolutionEvent::GoteDied => Some(GameEnd::GoteLoses),
        ResolutionEvent::BothDied => Some(GameEnd::Draw),
        _ => None,
    }
}

/// The end of the game that a king's death in the last turn brings (`None`: go on).
pub fn check_king_death(event: &ResolutionEvent) -> (r: Option<GameEnd>)
    ensures
        r == king_death_of(*event),
{
    match event {
        ResolutionEvent::SenteDied => Some(GameEnd::SenteLoses),
        ResolutionEvent::GoteDied => Some(GameEnd::GoteLoses),
        ResolutionEvent::BothDied => Some(GameEnd::Draw),
        _ => None,
    }
}

/// What repetition compares: the board and both hands, not the turn number.
pub open spec fn content_of(p: Position) -> (Board, Hand, Hand) {
    (p.board, p.hand_sente, p.hand_gote)
}

/// How many of the first `n` positions of `h` have the content of `p`.
pub open spec fn count_same(h: Seq<Position>, p: Position, n: int) -> nat
    decreases n,
{
    if n <= 0 {
        0
    } else {
        count_same(h, p, n - 1) + if content_of(h[n - 1]) == content_of(p) {
            1nat
        } else {
            0nat
        }
    }
}

/// Every position of a game played from `init`, from the start to the latest.
pub open spec fn history_of(init: Position, plies: Seq<Ply>) -> Seq<Position> {
    Seq::new((plies.len() + 1) as nat, |j: int| replay_spec(init, plies, j as nat))
}

/// Every position of a record, from the start to the latest.
pub open spec fn history(k: Kifu) -> Seq<Position> {
    history_of(k.initial_position, k.plies@)
}

/// Repetition in a game played from `init`: some content (board and hands)
/// occurs four times.
pub open spec fn sennichite_of(init: Position, plies: Seq<Ply>) -> bool {
    let h = history_of(init, plies);
    exists|j: int| 0 <= j < h.len() && count_same(h, h[j], h.len() as int) >= 4
}

/// Repetition in a record (see `sennichite_of`).
pub open spec fn is_sennichite(k: Kifu) -> bool {
    sennichite_of(k.initial_position, k.plies@)
}

fn same_board(a: &Board, b: &Board) -> (r: bool)
    ensures
        r == (*a == *b),
{
    let mut i: u8 = 0;
    while i < 81
        invariant
            i <= 81,
            forall|j: int| 0 <= j < i ==> a.cells()[j] == b.cells()[j],
        decreases 81 - i,
    {
        let sq = crate::types::Square::from_index(i);
        let same = match (a.get(sq), b.get(sq)) {
            (None, None) => true,
            (Some(p), Some(q)) => p == q,
            _ => false,
        };
        if !same {
            assert(a.cells()[i as int] != b.cells()[i as int]);
            return false;
        }
        i += 1;
    }
    proof {
        crate::board::lemma_board_cells(*a);
        crate::board::lemma_board_cells(*b);
        assert(a.cells() =~= b.cells());
        crate::board::lemma_board_ext(*a, *b);
    }
    true
}

fn same_hand(a: &Hand, b: &Hand) -> (r: bool)
    ensures
        r == (*a == *b),
{
    let kinds = Hand::kinds();
    let mut i: usize = 0;
    while i < 7
        invariant
            i <= 7,
            forall|j: int| 0 <= j < 7 ==> #[trigger] kinds@[j] == crate::board::slot_kind(j),
            forall|j: int| 0 <= j < i ==> a.counts()[j] == b.counts()[j],
        decreases 7 - i,
    {
        if a.count(kinds[i]) != b.count(kinds[i]) {
            return false;
        }
        i += 1;
    }
    proof {
        crate::board::lemma_hand_counts(*a);
        crate::board::lemma_hand_counts(*b);
        assert(a.counts() =~= b.counts());
        crate::board::lemma_hand_ext(*a, *b);
    }
    true
}

fn same_content(a: &Position, b: &Position) -> (r: bool)
    ensures
        r == (content_of(*a) == content_of(*b)),
{
    same_board(&a.board, &b.board) && same_hand(&a.hand_sente, &b.hand_sente) && same_hand(
        &a.hand_gote,
        &b.hand_gote,
    )
}

/// Every position of a record, from the start to the latest.
fn positions(kifu: &Kifu) -> (v: Vec<Position>)
    requires
        kifu.wf(),
    ensures
        v@ == history(*kifu),
{
    let mut v: Vec<Position> = Vec::new();
    let mut pos = kifu.initial_position;
    v.push(pos);
    let mut i: usize = 0;
    while i < kifu.plies.len()
        invariant
            i <= kifu.plies@.len(),
            kifu.wf(),
            pos == replay_spec(kifu.initial_position, kifu.plies@, i as nat),
            v@.len() == i + 1,
            forall|j: int|
                0 <= j <= i ==> #[trigger] v@[j] == replay_spec(
                    kifu.initial_position,
                    kifu.plies@,
                    j as nat,
                ),
        decreases kifu.plies@.len() - i,
    {
        let ply = kifu.plies[i];
        assert(step_ok(kifu.initial_position, kifu.plies@, i as int));
        let res = resolve(&pos, ply.sente, ply.gote);
        pos = res.next;
        v.push(pos);
        i += 1;
    }
    assert(v@ =~= history(*kifu));
    v
}

/// Repetition: the same board and hands (the turn number aside) occur four
/// times in the game. It is a draw.
pub fn check_sennichite(kifu: &Kifu) -> (b: bool)
    requires
        kifu.wf(),
    ensures
        b == is_sennichite(*kifu),
{
    let h = positions(kifu);
    let n = h.len();
    let mut j: usize = 0;
    while j < n
        invariant
            j <= n == h@.len(),
            h@ == history(*kifu),
            forall|m: int| 0 <= m < j ==> count_same(h@, #[trigger] h@[m], n as int) < 4,
        decreases n - j,
    {
        let mut c: usize = 0;
        let mut i: usize = 0;
        while i < n
            invariant
                i <= n == h@.len(),
                j < n,
                c == count_same(h@, h@[j as int], i as int),
                c <= i,
            decreases n - i,
        {
            if same_content(&h[i], &h[j]) {
                c += 1;
            }
            i += 1;
        }
        if c >= 4 {
            return true;
        }
        j += 1;
    }
    false
}

/// The limit on the number of turns: a game that reaches it is drawn.
pub const MAX_TURNS: usize = 500;

/// Whether the record has reached the turn limit.
pub fn check_max_turns(kifu: &Kifu) -> (b: bool)
    ensures
        b == (kifu.plies@.len() >= MAX_TURNS),
{
    kifu.plies.len() >= MAX_TURNS
}

/// An end of the game that the board shows (resignation is not one of them).
#[derive(Debug, Clone, Copy, PartialEq, Eq, Structural)]
pub enum Terminal {
    Ongoing,
    Loss { loser: Side, kind: LossKind },
    Draw { kind: DrawKind },
}

#[derive(Debug, Clone, Copy, PartialEq, Eq, Structural)]
pub enum LossKind {
    Mate,
    KingDeath,
}

#[derive(Debug, Clone, Copy, PartialEq, Eq, Structural)]
pub enum DrawKind {
    MutualMate,
    BothKingsDied,
    Sennichite,
    MaxTurns,
}

/// The end that the board of a record shows, in order: a king's death in the
/// last turn, then definite mate (or neither camp able to act), then
/// repetition, then the turn limit.
pub open spec fn record_terminal(init: Position, plies: Seq<Ply>) -> Terminal {
    let n = plies.len() as int;
    let death = if n > 0 {
        let last = plies[n - 1];
        king_death_of(spec_resolve(replay_spec(init, plies, (n - 1) as nat), last.sente, last.gote).event)
    } else {
        None
    };
    match death {
        Some(GameEnd::SenteLoses) => Terminal::Loss { loser: Side::Sente, kind: LossKind::KingDeath },
        Some(GameEnd::GoteLoses) => Terminal::Loss { loser: Side::Gote, kind: LossKind::KingDeath },
        Some(GameEnd::Draw) => Terminal::Draw { kind: DrawKind::BothKingsDied },
        None => match status_of(replay_spec(init, plies, n as nat)) {
            GameStatus::SenteLoses => Terminal::Loss { loser: Side::Sente, kind: LossKind::Mate },
            GameStatus::GoteLoses => Terminal::Loss { loser: Side::Gote, kind: LossKind::Mate },
            GameStatus::Draw => Terminal::Draw { kind: DrawKind::MutualMate },
            GameStatus::Ongoing => if sennichite_of(init, plies) {
                Terminal::Draw { kind: DrawKind::Sennichite }
            } else if n >= MAX_TURNS {
                Terminal::Draw { kind: DrawKind::MaxTurns }
            } else {
                Terminal::Ongoing
            },
        },
    }
}

/// The end that the board of a record shows (see `record_terminal`).
pub open spec fn terminal_of(k: Kifu) -> Terminal {
    record_terminal(k.initial_position, k.plies@)
}

/// Evaluates the end of the game from its record (see `terminal_of`).
pub fn evaluate(kifu: &Kifu) -> (t: Terminal)
    requires
        kifu.wf(),
        kifu.position_at(kifu.plies@.len() as int).has_room(),
    ensures
        t == terminal_of(*kifu),
{
    let n = kifu.plies.len();
    if n > 0 {
        let last = kifu.plies[n - 1];
        let pre = kifu.replay(n - 1);
        assert(step_ok(kifu.initial_position, kifu.plies@, n - 1));
        let res = resolve(&pre, last.sente, last.gote);
        match check_king_death(&res.event) {
            Some(GameEnd::SenteLoses) => {
                return Terminal::Loss { loser: Side::Sente, kind: LossKind::KingDeath };
            },
            Some(GameEnd::GoteLoses) => {
                return Terminal::Loss { loser: Side::Gote, kind: LossKind::KingDeath };
            },
            Some(GameEnd::Draw) => {
                return Terminal::Draw { kind: DrawKind::BothKingsDied };
            },
            None => {},
        }
    }
    let cur = kifu.current();
    match check_status(&cur) {
        GameStatus::SenteLoses => {
            return Terminal::Loss { loser: Side::Sente, kind: LossKind::Mate };
        },
        GameStatus::GoteLoses => {
            return Terminal::Loss { loser: Side::Gote, kind: LossKind::Mate };
        },
        GameStatus::Draw => {
            return Terminal::Draw { kind: DrawKind::MutualMate };
        },
        GameStatus::Ongoing => {},
    }
    if check_sennichite(kifu) {
        return Terminal::Draw { kind: DrawKind::Sennichite };
    }
    if check_max_turns(kifu) {
        return Terminal::Draw { kind: DrawKind::MaxTurns };
    }
    Terminal::Ongoing
}

/// The archive result of an end that the board shows; none while the game goes on.
pub open spec fn result_of_terminal(t: Terminal) -> Option<(ResultKind, Outcome)> {
    match t {
        Terminal::Ongoing => None,
        Terminal::Loss { loser: Side::Sente, kind: LossKind::Mate } => Some(
            (ResultKind::Mate, Outcome::GoteWins),
        ),
        Terminal::Loss { loser: Side::Gote, kind: LossKind::Mate } => Some(
            (ResultKind::Mate, Outcome::SenteWins),
        ),
        Terminal::Loss { loser: Side::Sente, kind: LossKind::KingDeath } => Some(
            (ResultKind::KingDeath, Outcome::GoteWins),
        ),
        Terminal::Loss { loser: Side::Gote, kind: LossKind::KingDeath } => Some(
            (ResultKind::KingDeath, Outcome::SenteWins),
        ),
        Terminal::Draw { kind: DrawKind::MutualMate } => Some((ResultKind::Mate, Outcome::Draw)),
        Terminal::Draw { kind: DrawKind::BothKingsDied } => Some(
            (ResultKind::SwapDraw, Outcome::Draw),
        ),
        Terminal::Draw { kind: DrawKind::Sennichite } => Some(
            (ResultKind::Sennichite, Outcome::Draw),
        ),
        Terminal::Draw { kind: DrawKind::MaxTurns } => Some((ResultKind::MaxTurns, Outcome::Draw)),
    }
}

/// The archive result of an end that the board shows (see `result_of_terminal`).
pub fn terminal_to_result(t: &Terminal) -> (r: Option<(ResultKind, Outcome)>)
    ensures
        r == result_of_terminal(*t),
{
    match t {
        Terminal::Ongoing => None,
        Terminal::Loss { loser: Side::Sente, kind: LossKind::Mate } => Some(
            (ResultKind::Mate, Outcome::GoteWins),
        ),
        Terminal::Loss { loser: Side::Gote, kind: LossKind::Mate } => Some(
            (ResultKind::Mate, Outcome::SenteWins),
        ),
        Terminal::Loss { loser: Side::Sente, kind: LossKind::KingDeath } => Some(
            (ResultKind::KingDeath, Outcome::GoteWins),
        ),
        Terminal::Loss { loser: Side::Gote, kind: LossKind::KingDeath } => Some(
            (ResultKind::KingDeath, Outcome::SenteWins),
        ),
        Terminal::Draw { kind: DrawKind::MutualMate } => Some((ResultKind::Mate, Outcome::Draw)),
        Terminal::Draw { kind: DrawKind::BothKingsDied } => Some(
            (ResultKind::SwapDraw, Outcome::Draw),
        ),
        Terminal::Draw { kind: DrawKind::Sennichite } => Some(
            (ResultKind::Sennichite, Outcome::Draw),
        ),
        Terminal::Draw { kind: DrawKind::MaxTurns } => Some((ResultKind::MaxTurns, Outcome::Draw)),
    }
}

} // verus!
