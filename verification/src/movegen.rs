//! Legal actions. The legal actions of a camp are exactly the legal moves of
//! traditional shogi with that camp to move, on the position fixed at the
//! start of the turn.
use vstd::prelude::*;

use crate::board::{group_board, is_hand_kind, slot_kind, Hand, Position};
use crate::types::{group_square, Action, Piece, PieceKind, Side, Square};

verus! {

broadcast use {group_square, group_board};

// ---------------------------------------------------------------------------
// Geometry
// ---------------------------------------------------------------------------

pub open spec fn on_board(f: int, r: int) -> bool {
    1 <= f <= 9 && 1 <= r <= 9
}

/// What stands at a file and a rank.
pub open spec fn cell_at(pos: Position, f: int, r: int) -> Option<Piece> {
    pos.board.cells()[(f - 1) * 9 + (r - 1)]
}

/// The square at a file and a rank holds a piece of `side`.
pub open spec fn own_at(pos: Position, f: int, r: int, side: Side) -> bool {
    cell_at(pos, f, r) matches Some(p) && p.side == side
}

/// The "forward" rank step of a camp: sente moves towards rank 1.
pub open spec fn fwd(side: Side) -> int {
    if side == Side::Sente {
        -1
    } else {
        1
    }
}

/// The directions in which a piece moves one step.
pub open spec fn step_dirs(kind: PieceKind, side: Side) -> Seq<(int, int)> {
    let f = fwd(side);
    match kind {
        PieceKind::Pawn => seq![(0, f)],
        PieceKind::Knight => seq![(-1, 2 * f), (1, 2 * f)],
        PieceKind::Silver => seq![(0, f), (-1, f), (1, f), (-1, -f), (1, -f)],
        PieceKind::Gold | PieceKind::ProPawn | PieceKind::ProLance | PieceKind::ProKnight
        | PieceKind::ProSilver => seq![(0, f), (-1, f), (1, f), (-1, 0), (1, 0), (0, -f)],
        PieceKind::Horse => seq![(0, 1), (0, -1), (-1, 0), (1, 0)],
        PieceKind::Dragon => seq![(-1, -1), (1, -1), (-1, 1), (1, 1)],
        PieceKind::King => seq![
            (-1, -1),
            (0, -1),
            (1, -1),
            (-1, 0),
            (1, 0),
            (-1, 1),
            (0, 1),
            (1, 1),
        ],
        _ => Seq::empty(),
    }
}

/// The directions in which a piece slides until it meets a piece.
pub open spec fn slide_dirs(kind: PieceKind, side: Side) -> Seq<(int, int)> {
    match kind {
        PieceKind::Lance => seq![(0, fwd(side))],
        PieceKind::Bishop | PieceKind::Horse => seq![(-1, -1), (1, -1), (-1, 1), (1, 1)],
        PieceKind::Rook | PieceKind::Dragon => seq![(-1, 0), (1, 0), (0, -1), (0, 1)],
        _ => Seq::empty(),
    }
}

/// One step in direction `d` from `from` lands on `to`, which is on the board
/// and holds no piece of `side`.
pub open spec fn step_hits(pos: Position, from: Square, d: (int, int), side: Side, to: Square) -> bool {
    let f = from.sfile() + d.0;
    let r = from.srank() + d.1;
    &&& on_board(f, r)
    &&& to == Square::spec_new(f, r)
    &&& !own_at(pos, f, r, side)
}

/// The squares strictly between `from` and its `k`-th square in direction `d` are empty.
pub open spec fn ray_open(pos: Position, from: Square, d: (int, int), k: int) -> bool {
    forall|j: int|
        1 <= j < k ==> #[trigger] cell_at(pos, from.sfile() + j * d.0, from.srank() + j * d.1)
            is None
}

/// Sliding in direction `d` from `from` reaches `to`.
pub open spec fn slide_hits(pos: Position, from: Square, d: (int, int), side: Side, to: Square) -> bool {
    exists|k: int|
        k >= 1 && #[trigger] step_hits(pos, from, (k * d.0, k * d.1), side, to) && ray_open(
            pos,
            from,
            d,
            k,
        )
}

/// The piece `piece` on `from` attacks `to`.
pub open spec fn attacks(pos: Position, from: Square, piece: Piece, to: Square) -> bool {
    let sd = step_dirs(piece.kind, piece.side);
    let ld = slide_dirs(piece.kind, piece.side);
    ||| exists|i: int| 0 <= i < sd.len() && #[trigger] step_hits(pos, from, sd[i], piece.side, to)
    ||| exists|i: int| 0 <= i < ld.len() && #[trigger] slide_hits(pos, from, ld[i], piece.side, to)
}


/// The square at file `f`, rank `r` is `Square::spec_new(f, r)`, and its cell is `cell_at`.
proof fn lemma_sq_at(pos: Position, f: int, r: int)
    requires
        on_board(f, r),
    ensures
        Square::spec_new(f, r).wf(),
        Square::spec_new(f, r).sfile() == f,
        Square::spec_new(f, r).srank() == r,
        pos.board.at(Square::spec_new(f, r)) == cell_at(pos, f, r),
{
    let i = (f - 1) * 9 + (r - 1);
    assert(0 <= i < 81);
    assert(i / 9 == f - 1);
    assert(i % 9 == r - 1);
}

/// Adds the square one step in direction `(df, dr)` from `from`, if `step_hits`.
fn step_one(pos: &Position, from: Square, df: i8, dr: i8, side: Side, out: &mut Vec<Square>)
    requires
        from.wf(),
        -2 <= df <= 2,
        -2 <= dr <= 2,
    ensures
        forall|to: Square|
            final(out)@.contains(to) <==> (old(out)@.contains(to) || step_hits(
                *pos,
                from,
                (df as int, dr as int),
                side,
                to,
            )),
        forall|k: int| 0 <= k < final(out)@.len() ==> (#[trigger] final(out)@[k]).wf() || (k
            < old(out)@.len() && !old(out)@[k].wf()),
{
    let f = from.file() as i8 + df;
    let r = from.rank() as i8 + dr;
    let ghost old_out = out@;
    if 1 <= f && f <= 9 && 1 <= r && r <= 9 {
        let sq = Square::new(f as u8, r as u8);
        proof {
            lemma_sq_at(*pos, f as int, r as int);
        }
        let own = match pos.board.get(sq) {
            Some(p) => p.side == side,
            None => false,
        };
        if !own {
            out.push(sq);
            proof {
                assert forall|to: Square|
                    out@.contains(to) <==> (old_out.contains(to) || step_hits(
                        *pos,
                        from,
                        (df as int, dr as int),
                        side,
                        to,
                    )) by {
                    if out@.contains(to) && !old_out.contains(to) {
                        let k = choose|k: int| 0 <= k < out@.len() && out@[k] == to;
                        if k < old_out.len() {
                            assert(old_out[k] == out@[k]);
                        }
                    }
                    if old_out.contains(to) {
                        let k = choose|k: int| 0 <= k < old_out.len() && old_out[k] == to;
                        assert(out@[k] == to);
                    }
                    if step_hits(*pos, from, (df as int, dr as int), side, to) {
                        assert(out@[out@.len() - 1] == to);
                    }
                }
            }
        }
    }
}

/// Adds the squares that sliding in direction `(df, dr)` from `from` reaches.
fn slide_one(pos: &Position, from: Square, df: i8, dr: i8, side: Side, out: &mut Vec<Square>)
    requires
        from.wf(),
        -1 <= df <= 1,
        -1 <= dr <= 1,
        df != 0 || dr != 0,
    ensures
        forall|to: Square|
            final(out)@.contains(to) <==> (old(out)@.contains(to) || slide_hits(
                *pos,
                from,
                (df as int, dr as int),
                side,
                to,
            )),
        forall|k: int| 0 <= k < final(out)@.len() ==> (#[trigger] final(out)@[k]).wf() || (k
            < old(out)@.len() && !old(out)@[k].wf()),
{
    let ghost d = (df as int, dr as int);
    let ghost old_out = out@;
    let mut f: i8 = from.file() as i8 + df;
    let mut r: i8 = from.rank() as i8 + dr;
    let ghost mut k: int = 1;
    let ghost mut stop: int = 0;
    loop
        invariant_except_break
            f == from.sfile() + k * df,
            r == from.srank() + k * dr,
            stop == 0,
        invariant
            1 <= k <= 10,
            from.wf(),
            d == (df as int, dr as int),
            -1 <= df <= 1,
            -1 <= dr <= 1,
            df != 0 || dr != 0,
            ray_open(*pos, from, d, k),
            stop != 3 ==> forall|to: Square|
                #[trigger] out@.contains(to) <==> (old_out.contains(to) || exists|j: int|
                    1 <= j < k && #[trigger] step_hits(*pos, from, (j * d.0, j * d.1), side, to)),
            stop == 3 ==> forall|to: Square|
                #[trigger] out@.contains(to) <==> (old_out.contains(to) || exists|j: int|
                    1 <= j < k && #[trigger] step_hits(*pos, from, (j * d.0, j * d.1), side, to))
                    || to == Square::spec_new(from.sfile() + k * df, from.srank() + k * dr),
            forall|i: int| 0 <= i < out@.len() ==> (#[trigger] out@[i]).wf() || (i
                < old_out.len() && !old_out[i].wf()),
            old_out == old(out)@,
        ensures
            stop == 1 || stop == 2 || stop == 3,
            f == from.sfile() + k * df,
            r == from.srank() + k * dr,
            stop == 1 ==> !on_board(from.sfile() + k * df, from.srank() + k * dr),
            stop == 2 ==> on_board(from.sfile() + k * df, from.srank() + k * dr) && own_at(
                *pos,
                from.sfile() + k * df,
                from.srank() + k * dr,
                side,
            ),
            stop == 3 ==> on_board(from.sfile() + k * df, from.srank() + k * dr) && cell_at(
                *pos,
                from.sfile() + k * df,
                from.srank() + k * dr,
            ) is Some && !own_at(*pos, from.sfile() + k * df, from.srank() + k * dr, side) && exists|
                j: int|
                1 <= j <= k && #[trigger] step_hits(
                    *pos,
                    from,
                    (j * d.0, j * d.1),
                    side,
                    Square::spec_new(from.sfile() + k * df, from.srank() + k * dr),
                ),
        decreases 10 - k,
    {
        if !(1 <= f && f <= 9 && 1 <= r && r <= 9) {
            proof {
                stop = 1;
            }
            break;
        }
        let sq = Square::new(f as u8, r as u8);
        proof {
            lemma_sq_at(*pos, f as int, r as int);
            assert(step_hits(*pos, from, (k * d.0, k * d.1), side, sq) <==> !own_at(
                *pos,
                f as int,
                r as int,
                side,
            ));
        }
        let ghost prev = out@;
        assert(forall|to: Square|
            #[trigger] prev.contains(to) <==> (old_out.contains(to) || exists|j: int|
                1 <= j < k && #[trigger] step_hits(*pos, from, (j * d.0, j * d.1), side, to)));
        match pos.board.get(sq) {
            None => {
                out.push(sq);
                proof {
                    assert(step_hits(*pos, from, (k * d.0, k * d.1), side, sq));
                    assert forall|to: Square|
                        #[trigger] out@.contains(to) <==> (old_out.contains(to) || exists|j: int|
                            1 <= j < k + 1 && #[trigger] step_hits(
                                *pos,
                                from,
                                (j * d.0, j * d.1),
                                side,
                                to,
                            )) by {
                        if out@.contains(to) {
                            let i = choose|i: int| 0 <= i < out@.len() && out@[i] == to;
                            if i < prev.len() {
                                assert(prev[i] == to);
                                assert(prev.contains(to));
                            } else {
                                assert(to == sq);
                            }
                        }
                        if old_out.contains(to) || exists|j: int|
                            1 <= j < k + 1 && #[trigger] step_hits(
                                *pos,
                                from,
                                (j * d.0, j * d.1),
                                side,
                                to,
                            ) {
                            if old_out.contains(to) || exists|j: int|
                                1 <= j < k && #[trigger] step_hits(
                                    *pos,
                                    from,
                                    (j * d.0, j * d.1),
                                    side,
                                    to,
                                ) {
                                assert(prev.contains(to));
                                let i = choose|i: int| 0 <= i < prev.len() && prev[i] == to;
                                assert(out@[i] == to);
                            } else {
                                let j = choose|j: int|
                                    1 <= j < k + 1 && #[trigger] step_hits(
                                        *pos,
                                        from,
                                        (j * d.0, j * d.1),
                                        side,
                                        to,
                                    );
                                assert(j == k);
                                assert(to == sq);
                                assert(out@[out@.len() - 1] == to);
                            }
                        }
                    }
                    assert forall|j: int| 1 <= j < k + 1 implies #[trigger] cell_at(
                        *pos,
                        from.sfile() + j * d.0,
                        from.srank() + j * d.1,
                    ) is None by {
                        if j < k {
                            assert(ray_open(*pos, from, d, k));
                        }
                    }
                    lemma_mul_succ(k, df as int);
                    lemma_mul_succ(k, dr as int);
                    k = k + 1;
                }
                f = f + df;
                r = r + dr;
            },
            Some(p) => {
                if p.side == side {
                    proof {
                        stop = 2;
                    }
                    break;
                } else {
                    out.push(sq);
                    proof {
                        stop = 3;
                        assert(step_hits(*pos, from, (k * d.0, k * d.1), side, sq));
                        assert forall|to: Square|
                            #[trigger] out@.contains(to) <==> (old_out.contains(to) || exists|j: int|
                                1 <= j < k && #[trigger] step_hits(
                                    *pos,
                                    from,
                                    (j * d.0, j * d.1),
                                    side,
                                    to,
                                ) || to == sq) by {
                            if out@.contains(to) {
                                let i = choose|i: int| 0 <= i < out@.len() && out@[i] == to;
                                if i < prev.len() {
                                    assert(prev[i] == to);
                                    assert(prev.contains(to));
                                }
                            }
                            if prev.contains(to) {
                                let i = choose|i: int| 0 <= i < prev.len() && prev[i] == to;
                                assert(out@[i] == to);
                            }
                            if to == sq {
                                assert(out@[out@.len() - 1] == to);
                            }
                        }
                    }
                    break;
                }
            },
        }
    }
    proof {
        lemma_slide_exit(*pos, from, df as int, dr as int, side, k, stop, old_out, out@);
    }
}

/// A move that `pseudo_legal` admits ends on a square of the board that holds
/// no piece of the mover.
pub proof fn lemma_move_target(pos: Position, side: Side, from: Square, to: Square, promote: bool)
    requires
        pseudo_legal(pos, side, Action::Move { from, to, promote }),
    ensures
        to.wf(),
        !(pos.board.at(to) matches Some(q) && q.side == side),
{
    let p = pos.board.at(from)->0;
    let sd = step_dirs(p.kind, p.side);
    let ld = slide_dirs(p.kind, p.side);
    let d: (int, int) = if exists|i: int| 0 <= i < sd.len() && #[trigger] step_hits(pos, from, sd[i], p.side, to) {
        let i = choose|i: int| 0 <= i < sd.len() && #[trigger] step_hits(pos, from, sd[i], p.side, to);
        sd[i]
    } else {
        let i = choose|i: int| 0 <= i < ld.len() && #[trigger] slide_hits(pos, from, ld[i], p.side, to);
        let k = choose|k: int|
            k >= 1 && #[trigger] step_hits(pos, from, (k * ld[i].0, k * ld[i].1), p.side, to)
                && ray_open(pos, from, ld[i], k);
        (k * ld[i].0, k * ld[i].1)
    };
    assert(step_hits(pos, from, d, side, to));
    lemma_sq_at(pos, from.sfile() + d.0, from.srank() + d.1);
}

/// The board holds at most one king of `side`.
pub open spec fn lone_king(pos: Position, side: Side) -> bool {
    forall|i: int, j: int| is_king_at(pos, side, i) && is_king_at(pos, side, j) ==> i == j
}

/// Two legal moves never bring both kings onto one square: the king that got
/// there first in its own reckoning would stand next to the other king, in check.
pub proof fn lemma_kings_never_meet(
    pos: Position,
    fs: Square,
    fg: Square,
    t: Square,
    ps: bool,
    pg: bool,
)
    requires
        is_legal(pos, Side::Sente, Action::Move { from: fs, to: t, promote: ps }),
        is_legal(pos, Side::Gote, Action::Move { from: fg, to: t, promote: pg }),
        lone_king(pos, Side::Sente),
    ensures
        !(pos.board.at(fs) == Some(Piece { kind: PieceKind::King, side: Side::Sente })
            && pos.board.at(fg) == Some(Piece { kind: PieceKind::King, side: Side::Gote })),
{
    let sk = Piece { kind: PieceKind::King, side: Side::Sente };
    let gk = Piece { kind: PieceKind::King, side: Side::Gote };
    if pos.board.at(fs) == Some(sk) && pos.board.at(fg) == Some(gk) {
        let s = Action::Move { from: fs, to: t, promote: ps };
        let g = Action::Move { from: fg, to: t, promote: pg };
        lemma_move_target(pos, Side::Sente, fs, t, ps);
        lemma_move_target(pos, Side::Gote, fg, t, pg);
        assert(fs != fg && fs != t && fg != t);
        assert(fs.idx() != fg.idx() && fs.idx() != t.idx() && fg.idx() != t.idx());
        let after = apply_temp(pos, Side::Sente, s);
        let b1 = pos.board.with_cell(fs, None);
        assert(b1.at(t) == pos.board.at(t));
        assert(pos.board.at(t) is None);
        assert(after.board == b1.with_cell(t, Some(sk)));
        assert(after.board.at(t) == Some(sk));
        assert(after.board.at(fg) == Some(gk));
        // the only sente king of `after` stands on `t`
        assert forall|j: int| 0 <= j < t.idx() implies !is_king_at(after, Side::Sente, j) by {
            if is_king_at(after, Side::Sente, j) {
                assert(j != fs.idx());
                assert(after.board.cells()[j] == pos.board.cells()[j]);
                assert(is_king_at(pos, Side::Sente, j));
                assert(is_king_at(pos, Side::Sente, fs.idx()));
            }
        }
        assert(is_king_at(after, Side::Sente, t.idx()));
        lemma_first_king(after, Side::Sente, t.idx());
        assert(Square::at(t.idx()) == t);
        // the gote king still attacks `t`
        let sd = step_dirs(PieceKind::King, Side::Gote);
        let i = choose|i: int| 0 <= i < sd.len() && #[trigger] step_hits(pos, fg, sd[i], Side::Gote, t);
        let f = fg.sfile() + sd[i].0;
        let r = fg.srank() + sd[i].1;
        lemma_sq_at(after, f, r);
        assert(step_hits(after, fg, sd[i], Side::Gote, t));
        assert(attacks(after, fg, gk, t));
        assert(attacker_at(after, Side::Gote, fg, t));
        assert(in_check(after, Side::Sente));
    }
}

/// How many ranks `to` lies ahead of `from` for `side` (negative: behind);
/// sente advances towards rank 1, gote towards rank 9.
pub open spec fn ahead(side: Side, from: Square, to: Square) -> int {
    match side {
        Side::Sente => from.srank() - to.srank(),
        Side::Gote => to.srank() - from.srank(),
    }
}

/// One step in any direction except the two rear diagonals: where a gold goes.
pub open spec fn gold_reach(side: Side, from: Square, to: Square) -> bool {
    let df = to.sfile() - from.sfile();
    let a = ahead(side, from, to);
    &&& -1 <= df <= 1
    &&& -1 <= a <= 1
    &&& !(df == 0 && a == 0)
    &&& !(a == -1 && df != 0)
}

proof fn lemma_square_coords(sq: Square)
    requires
        sq.wf(),
    ensures
        Square::spec_new(sq.sfile(), sq.srank()) == sq,
        on_board(sq.sfile(), sq.srank()),
{
    assert((sq.sfile() - 1) * 9 + (sq.srank() - 1) == sq.idx());
}

/// A gold, and a promoted pawn, lance, knight or silver, of either camp
/// attacks exactly the squares one step away except its two rear diagonals,
/// unless its own camp stands there.
pub proof fn lemma_gold_moves(pos: Position, from: Square, kind: PieceKind, side: Side, to: Square)
    requires
        from.wf(),
        to.wf(),
        kind == PieceKind::Gold || kind == PieceKind::ProPawn || kind == PieceKind::ProLance
            || kind == PieceKind::ProKnight || kind == PieceKind::ProSilver,
    ensures
        attacks(pos, from, Piece { kind, side }, to) <==> gold_reach(side, from, to) && !(
        pos.board.at(to) matches Some(q) && q.side == side),
{
    let sd = step_dirs(kind, side);
    let ld = slide_dirs(kind, side);
    assert(ld.len() == 0);
    lemma_square_coords(to);
    lemma_square_coords(from);
    let own = pos.board.at(to) matches Some(q) && q.side == side;
    if attacks(pos, from, Piece { kind, side }, to) {
        let i = choose|i: int| 0 <= i < sd.len() && #[trigger] step_hits(pos, from, sd[i], side, to);
        let f = from.sfile() + sd[i].0;
        let r = from.srank() + sd[i].1;
        lemma_sq_at(pos, f, r);
        assert(gold_reach(side, from, to) && !own);
    }
    if gold_reach(side, from, to) && !own {
        let d = (to.sfile() - from.sfile(), to.srank() - from.srank());
        lemma_sq_at(pos, to.sfile(), to.srank());
        let i: int = if d == sd[0] {
            0
        } else if d == sd[1] {
            1
        } else if d == sd[2] {
            2
        } else if d == sd[3] {
            3
        } else if d == sd[4] {
            4
        } else {
            5
        };
        assert(sd[i] == d);
        assert(step_hits(pos, from, sd[i], side, to));
    }
}

/// Where a piece that moves by single steps goes: a pawn one square ahead; a
/// knight two ahead and one aside; a silver one step ahead or to a rear
/// diagonal; a gold or promoted minor piece as `gold_reach`; a king one step
/// in any direction.
pub open spec fn step_reach(kind: PieceKind, side: Side, from: Square, to: Square) -> bool {
    let df = to.sfile() - from.sfile();
    let a = ahead(side, from, to);
    match kind {
        PieceKind::Pawn => df == 0 && a == 1,
        PieceKind::Knight => (df == 1 || df == -1) && a == 2,
        PieceKind::Silver => -1 <= df <= 1 && (a == 1 || (a == -1 && df != 0)),
        PieceKind::Gold | PieceKind::ProPawn | PieceKind::ProLance | PieceKind::ProKnight
        | PieceKind::ProSilver => gold_reach(side, from, to),
        PieceKind::King => -1 <= df <= 1 && -1 <= a <= 1 && !(df == 0 && a == 0),
        _ => false,
    }
}

/// A pawn, knight, silver, gold, promoted minor piece or king of either camp
/// attacks exactly the squares of `step_reach` that its own camp does not hold.
pub proof fn lemma_step_moves(pos: Position, from: Square, kind: PieceKind, side: Side, to: Square)
    requires
        from.wf(),
        to.wf(),
        kind != PieceKind::Lance && kind != PieceKind::Bishop && kind != PieceKind::Rook
            && kind != PieceKind::Horse && kind != PieceKind::Dragon,
    ensures
        attacks(pos, from, Piece { kind, side }, to) <==> step_reach(kind, side, from, to) && !(
        pos.board.at(to) matches Some(q) && q.side == side),
{
    let sd = step_dirs(kind, side);
    let ld = slide_dirs(kind, side);
    assert(ld.len() == 0);
    lemma_square_coords(to);
    lemma_square_coords(from);
    let own = pos.board.at(to) matches Some(q) && q.side == side;
    if attacks(pos, from, Piece { kind, side }, to) {
        let i = choose|i: int| 0 <= i < sd.len() && #[trigger] step_hits(pos, from, sd[i], side, to);
        let f = from.sfile() + sd[i].0;
        let r = from.srank() + sd[i].1;
        lemma_sq_at(pos, f, r);
        assert(step_reach(kind, side, from, to) && !own);
    }
    if step_reach(kind, side, from, to) && !own {
        let d = (to.sfile() - from.sfile(), to.srank() - from.srank());
        lemma_sq_at(pos, to.sfile(), to.srank());
        let i: int = if 0 < sd.len() && d == sd[0] {
            0
        } else if 1 < sd.len() && d == sd[1] {
            1
        } else if 2 < sd.len() && d == sd[2] {
            2
        } else if 3 < sd.len() && d == sd[3] {
            3
        } else if 4 < sd.len() && d == sd[4] {
            4
        } else if 5 < sd.len() && d == sd[5] {
            5
        } else if 6 < sd.len() && d == sd[6] {
            6
        } else {
            7
        };
        assert(0 <= i < sd.len() && sd[i] == d);
        assert(step_hits(pos, from, sd[i], side, to));
    }
}

/// The lines a sliding piece keeps to: a rook along its file or rank, a
/// bishop along a diagonal, a lance straight ahead; a dragon adds the
/// diagonal steps and a horse the orthogonal ones.
pub open spec fn slide_line(kind: PieceKind, side: Side, from: Square, to: Square) -> bool {
    let df = to.sfile() - from.sfile();
    let dr = to.srank() - from.srank();
    let orth = (df == 0) != (dr == 0);
    let diag = df != 0 && (df == dr || df == -dr);
    match kind {
        PieceKind::Lance => df == 0 && ahead(side, from, to) >= 1,
        PieceKind::Rook => orth,
        PieceKind::Bishop => diag,
        PieceKind::Dragon => orth || (-1 <= df <= 1 && -1 <= dr <= 1 && diag),
        PieceKind::Horse => diag || (-1 <= df <= 1 && -1 <= dr <= 1 && orth),
        _ => false,
    }
}

/// The squares next to a sliding piece that it always reaches when its own
/// camp does not hold them: a rook's and a dragon's orthogonal neighbours
/// (and a dragon's diagonal ones), a bishop's and a horse's diagonal ones
/// (and a horse's orthogonal ones), the square ahead of a lance.
pub open spec fn slide_near(kind: PieceKind, side: Side, from: Square, to: Square) -> bool {
    let df = to.sfile() - from.sfile();
    let dr = to.srank() - from.srank();
    let orth1 = (df == 0 && (dr == 1 || dr == -1)) || (dr == 0 && (df == 1 || df == -1));
    let diag1 = (df == 1 || df == -1) && (dr == 1 || dr == -1);
    match kind {
        PieceKind::Lance => df == 0 && ahead(side, from, to) == 1,
        PieceKind::Rook => orth1,
        PieceKind::Bishop => diag1,
        PieceKind::Dragon | PieceKind::Horse => orth1 || diag1,
        _ => false,
    }
}

/// A lance, rook, bishop, dragon or horse attacks only along its lines and
/// never a square of its own camp, and always attacks its free neighbours
/// along them.
pub proof fn lemma_slide_moves(pos: Position, from: Square, kind: PieceKind, side: Side, to: Square)
    requires
        from.wf(),
        to.wf(),
        kind == PieceKind::Lance || kind == PieceKind::Bishop || kind == PieceKind::Rook
            || kind == PieceKind::Horse || kind == PieceKind::Dragon,
    ensures
        attacks(pos, from, Piece { kind, side }, to) ==> slide_line(kind, side, from, to) && !(
        pos.board.at(to) matches Some(q) && q.side == side),
        slide_near(kind, side, from, to) && !(pos.board.at(to) matches Some(q) && q.side == side)
            ==> attacks(pos, from, Piece { kind, side }, to),
{
    let sd = step_dirs(kind, side);
    let ld = slide_dirs(kind, side);
    lemma_square_coords(to);
    lemma_square_coords(from);
    let own = pos.board.at(to) matches Some(q) && q.side == side;
    if attacks(pos, from, Piece { kind, side }, to) {
        if exists|i: int| 0 <= i < sd.len() && #[trigger] step_hits(pos, from, sd[i], side, to) {
            let i = choose|i: int| 0 <= i < sd.len() && #[trigger] step_hits(pos, from, sd[i], side, to);
            lemma_sq_at(pos, from.sfile() + sd[i].0, from.srank() + sd[i].1);
        } else {
            let i = choose|i: int| 0 <= i < ld.len() && #[trigger] slide_hits(pos, from, ld[i], side, to);
            let d = ld[i];
            let k = choose|k: int|
                k >= 1 && #[trigger] step_hits(pos, from, (k * d.0, k * d.1), side, to) && ray_open(
                    pos,
                    from,
                    d,
                    k,
                );
            assert(-1 <= d.0 <= 1 && -1 <= d.1 <= 1 && (d.0 != 0 || d.1 != 0));
            assert(k * d.0 == if d.0 == 1 { k } else if d.0 == -1 { -k } else { 0 }) by (nonlinear_arith)
                requires -1 <= d.0 <= 1;
            assert(k * d.1 == if d.1 == 1 { k } else if d.1 == -1 { -k } else { 0 }) by (nonlinear_arith)
                requires -1 <= d.1 <= 1;
            lemma_sq_at(pos, from.sfile() + k * d.0, from.srank() + k * d.1);
        }
        assert(slide_line(kind, side, from, to) && !own);
    }
    if slide_near(kind, side, from, to) && !own {
        let d = (to.sfile() - from.sfile(), to.srank() - from.srank());
        lemma_sq_at(pos, to.sfile(), to.srank());
        if 0 < ld.len() && d == ld[0] || 1 < ld.len() && d == ld[1] || 2 < ld.len() && d == ld[2]
            || 3 < ld.len() && d == ld[3] {
            let i: int = if 0 < ld.len() && d == ld[0] {
                0
            } else if 1 < ld.len() && d == ld[1] {
                1
            } else if 2 < ld.len() && d == ld[2] {
                2
            } else {
                3
            };
            assert(step_hits(pos, from, (1 * d.0, 1 * d.1), side, to));
            assert(ray_open(pos, from, d, 1));
            assert(slide_hits(pos, from, ld[i], side, to));
        } else {
            let i: int = if 0 < sd.len() && d == sd[0] {
                0
            } else if 1 < sd.len() && d == sd[1] {
                1
            } else if 2 < sd.len() && d == sd[2] {
                2
            } else {
                3
            };
            assert(0 <= i < sd.len() && sd[i] == d);
            assert(step_hits(pos, from, sd[i], side, to));
        }
    }
}

/// The integer view of a list of directions.
pub open spec fn dirs_view(dirs: Seq<(i8, i8)>) -> Seq<(int, int)> {
    dirs.map_values(|d: (i8, i8)| (d.0 as int, d.1 as int))
}

/// Some direction of `dirs` reaches `to` by one step (or by sliding).
pub open spec fn hits_via(
    pos: Position,
    from: Square,
    dirs: Seq<(int, int)>,
    slide: bool,
    side: Side,
    to: Square,
) -> bool {
    if slide {
        exists|i: int| 0 <= i < dirs.len() && #[trigger] slide_hits(pos, from, dirs[i], side, to)
    } else {
        exists|i: int| 0 <= i < dirs.len() && #[trigger] step_hits(pos, from, dirs[i], side, to)
    }
}

/// Adds the squares reached from `from` in the given directions.
fn add_dirs(
    pos: &Position,
    from: Square,
    dirs: &[(i8, i8)],
    slide: bool,
    side: Side,
    out: &mut Vec<Square>,
)
    requires
        from.wf(),
        forall|i: int|
            0 <= i < dirs@.len() ==> -2 <= (#[trigger] dirs@[i]).0 <= 2 && -2 <= dirs@[i].1 <= 2,
        slide ==> forall|i: int|
            0 <= i < dirs@.len() ==> -1 <= (#[trigger] dirs@[i]).0 <= 1 && -1 <= dirs@[i].1 <= 1
                && (dirs@[i].0 != 0 || dirs@[i].1 != 0),
    ensures
        forall|to: Square|
            #[trigger] final(out)@.contains(to) <==> (old(out)@.contains(to) || hits_via(
                *pos,
                from,
                dirs_view(dirs@),
                slide,
                side,
                to,
            )),
        forall|k: int| 0 <= k < final(out)@.len() ==> (#[trigger] final(out)@[k]).wf() || (k
            < old(out)@.len() && !old(out)@[k].wf()),
{
    let ghost dv = dirs_view(dirs@);
    let ghost start = out@;
    let mut i: usize = 0;
    while i < dirs.len()
        invariant
            i <= dirs.len(),
            from.wf(),
            dv == dirs_view(dirs@),
            forall|j: int|
                0 <= j < dirs@.len() ==> -2 <= (#[trigger] dirs@[j]).0 <= 2 && -2 <= dirs@[j].1
                    <= 2,
            slide ==> forall|j: int|
                0 <= j < dirs@.len() ==> -1 <= (#[trigger] dirs@[j]).0 <= 1 && -1 <= dirs@[j].1
                    <= 1 && (dirs@[j].0 != 0 || dirs@[j].1 != 0),
            forall|to: Square|
                #[trigger] out@.contains(to) <==> (start.contains(to) || hits_via(
                    *pos,
                    from,
                    dv.take(i as int),
                    slide,
                    side,
                    to,
                )),
            forall|k: int| 0 <= k < out@.len() ==> (#[trigger] out@[k]).wf() || (k < start.len()
                && !start[k].wf()),
            start == old(out)@,
        decreases dirs.len() - i,
    {
        let (df, dr) = dirs[i];
        let ghost prev = out@;
        if slide {
            slide_one(pos, from, df, dr, side, out);
        } else {
            step_one(pos, from, df, dr, side, out);
        }
        proof {
            assert(dv[i as int] == (df as int, dr as int));
            let t1 = dv.take(i as int);
            let t2 = dv.take(i + 1);
            assert forall|to: Square|
                #[trigger] out@.contains(to) <==> (start.contains(to) || hits_via(
                    *pos,
                    from,
                    t2,
                    slide,
                    side,
                    to,
                )) by {
                assert(prev.contains(to) <==> (start.contains(to) || hits_via(
                    *pos,
                    from,
                    t1,
                    slide,
                    side,
                    to,
                )));
                if slide {
                    if hits_via(*pos, from, t2, slide, side, to) {
                        let j = choose|j: int|
                            0 <= j < t2.len() && #[trigger] slide_hits(*pos, from, t2[j], side, to);
                        if j < i {
                            assert(t1[j] == t2[j]);
                        }
                    }
                    if hits_via(*pos, from, t1, slide, side, to) {
                        let j = choose|j: int|
                            0 <= j < t1.len() && #[trigger] slide_hits(*pos, from, t1[j], side, to);
                        assert(t1[j] == t2[j]);
                    }
                    if slide_hits(*pos, from, (df as int, dr as int), side, to) {
                        assert(t2[i as int] == (df as int, dr as int));
                    }
                } else {
                    if hits_via(*pos, from, t2, slide, side, to) {
                        let j = choose|j: int|
                            0 <= j < t2.len() && #[trigger] step_hits(*pos, from, t2[j], side, to);
                        if j < i {
                            assert(t1[j] == t2[j]);
                        }
                    }
                    if hits_via(*pos, from, t1, slide, side, to) {
                        let j = choose|j: int|
                            0 <= j < t1.len() && #[trigger] step_hits(*pos, from, t1[j], side, to);
                        assert(t1[j] == t2[j]);
                    }
                    if step_hits(*pos, from, (df as int, dr as int), side, to) {
                        assert(t2[i as int] == (df as int, dr as int));
                    }
                }
            }
        }
        i += 1;
    }
    assert(dv.take(dirs.len() as int) == dv);
}

/// The squares that `piece` on `sq` attacks (before any legality filter).
pub fn piece_attacks(pos: &Position, sq: Square, piece: Piece) -> (v: Vec<Square>)
    requires
        sq.wf(),
    ensures
        forall|to: Square| #[trigger] v@.contains(to) <==> attacks(*pos, sq, piece, to),
        forall|k: int| 0 <= k < v@.len() ==> (#[trigger] v@[k]).wf(),
        v@.no_duplicates(),
{
    let side = piece.side;
    let f: i8 = if side == Side::Sente { -1 } else { 1 };
    let b: i8 = -f;
    let f2: i8 = 2 * f;
    let steps: Vec<(i8, i8)> = match piece.kind {
        PieceKind::Pawn => vec![(0, f)],
        PieceKind::Knight => vec![(-1, f2), (1, f2)],
        PieceKind::Silver => vec![(0, f), (-1, f), (1, f), (-1, b), (1, b)],
        PieceKind::Gold | PieceKind::ProPawn | PieceKind::ProLance | PieceKind::ProKnight
        | PieceKind::ProSilver => vec![(0, f), (-1, f), (1, f), (-1, 0), (1, 0), (0, b)],
        PieceKind::Horse => vec![(0, 1), (0, -1), (-1, 0), (1, 0)],
        PieceKind::Dragon => vec![(-1, -1), (1, -1), (-1, 1), (1, 1)],
        PieceKind::King => vec![(-1, -1), (0, -1), (1, -1), (-1, 0), (1, 0), (-1, 1), (0, 1), (1, 1)],
        _ => Vec::new(),
    };
    let slides: Vec<(i8, i8)> = match piece.kind {
        PieceKind::Lance => vec![(0, f)],
        PieceKind::Bishop | PieceKind::Horse => vec![(-1, -1), (1, -1), (-1, 1), (1, 1)],
        PieceKind::Rook | PieceKind::Dragon => vec![(-1, 0), (1, 0), (0, -1), (0, 1)],
        _ => Vec::new(),
    };
    proof {
        assert(fwd(side) == f);
        assert(dirs_view(steps@) =~= step_dirs(piece.kind, side));
        assert(dirs_view(slides@) =~= slide_dirs(piece.kind, side));
    }
    let mut v: Vec<Square> = Vec::new();
    add_dirs(pos, sq, &slides, true, side, &mut v);
    add_dirs(pos, sq, &steps, false, side, &mut v);
    let w = distinct_squares(&v);
    proof {
        assert forall|k: int| 0 <= k < w@.len() implies (#[trigger] w@[k]).wf() by {
            assert(w@.contains(w@[k]));
            let j = choose|j: int| 0 <= j < v@.len() && v@[j] == w@[k];
        }
    }
    w
}

proof fn lemma_mul_succ(k: int, d: int)
    by (nonlinear_arith)
    ensures
        (k + 1) * d == k * d + d,
{
}

proof fn lemma_between(a: int, d: int, k: int, j: int)
    by (nonlinear_arith)
    requires
        -1 <= d <= 1,
        0 < k < j,
        1 <= a <= 9,
        1 <= a + j * d <= 9,
    ensures
        1 <= a + k * d <= 9,
{
}

proof fn lemma_slide_exit(
    pos: Position,
    from: Square,
    df: int,
    dr: int,
    side: Side,
    k: int,
    stop: int,
    old_out: Seq<Square>,
    out: Seq<Square>,
)
    requires
        from.wf(),
        -1 <= df <= 1,
        -1 <= dr <= 1,
        df != 0 || dr != 0,
        1 <= k <= 10,
        ray_open(pos, from, (df, dr), k),
        stop == 1 || stop == 2 || stop == 3,
        stop == 1 ==> !on_board(from.sfile() + k * df, from.srank() + k * dr),
        stop == 2 ==> on_board(from.sfile() + k * df, from.srank() + k * dr) && own_at(
            pos,
            from.sfile() + k * df,
            from.srank() + k * dr,
            side,
        ),
        stop == 3 ==> on_board(from.sfile() + k * df, from.srank() + k * dr) && cell_at(
            pos,
            from.sfile() + k * df,
            from.srank() + k * dr,
        ) is Some && !own_at(pos, from.sfile() + k * df, from.srank() + k * dr, side),
        stop != 3 ==> forall|to: Square|
            out.contains(to) <==> (old_out.contains(to) || exists|j: int|
                1 <= j < k && #[trigger] step_hits(pos, from, (j * df, j * dr), side, to)),
        stop == 3 ==> forall|to: Square|
            out.contains(to) <==> (old_out.contains(to) || exists|j: int|
                1 <= j < k && #[trigger] step_hits(pos, from, (j * df, j * dr), side, to)) || to
                == Square::spec_new(from.sfile() + k * df, from.srank() + k * dr),
    ensures
        forall|to: Square|
            out.contains(to) <==> (old_out.contains(to) || slide_hits(pos, from, (df, dr), side, to)),
{
    let d = (df, dr);
    assert forall|to: Square|
        out.contains(to) <==> (old_out.contains(to) || slide_hits(pos, from, d, side, to)) by {
        if slide_hits(pos, from, d, side, to) {
            let j = choose|j: int|
                j >= 1 && #[trigger] step_hits(pos, from, (j * d.0, j * d.1), side, to) && ray_open(
                    pos,
                    from,
                    d,
                    j,
                );
            if j < k {
            } else if j == k {
                assert(stop == 3);
            } else {
                // the k-th square is inside the ray, so it must be empty and on the board
                assert(on_board(from.sfile() + j * df, from.srank() + j * dr));
                assert(on_board(from.sfile() + k * df, from.srank() + k * dr)) by {
                    lemma_between(from.sfile(), df, k, j);
                    lemma_between(from.srank(), dr, k, j);
                }
                assert(cell_at(pos, from.sfile() + k * d.0, from.srank() + k * d.1) is None);
            }
        }
        if exists|j: int| 1 <= j < k && #[trigger] step_hits(pos, from, (j * df, j * dr), side, to) {
            let j = choose|j: int|
                1 <= j < k && #[trigger] step_hits(pos, from, (j * df, j * dr), side, to);
            assert forall|i: int| 1 <= i < j implies #[trigger] cell_at(
                pos,
                from.sfile() + i * d.0,
                from.srank() + i * d.1,
            ) is None by {
                assert(ray_open(pos, from, d, k));
            }
            assert(step_hits(pos, from, (j * d.0, j * d.1), side, to) && ray_open(pos, from, d, j));
        }
        if stop == 3 && to == Square::spec_new(from.sfile() + k * df, from.srank() + k * dr) {
            assert(step_hits(pos, from, (k * d.0, k * d.1), side, to));
        }
    }
}


// ---------------------------------------------------------------------------
// Kings and checks
// ---------------------------------------------------------------------------

/// The cell with index `i` holds the king of `side`.
pub open spec fn is_king_at(pos: Position, side: Side, i: int) -> bool {
    0 <= i < 81 && pos.board.cells()[i] == Some(Piece { kind: PieceKind::King, side })
}

/// `i` is the lowest index holding the king of `side`.
pub open spec fn is_first_king(pos: Position, side: Side, i: int) -> bool {
    is_king_at(pos, side, i) && forall|j: int| 0 <= j < i ==> !is_king_at(pos, side, j)
}

/// The square of the king of `side`: the first one in index order, if any.
pub open spec fn spec_king_square(pos: Position, side: Side) -> Option<Square> {
    if exists|i: int| is_king_at(pos, side, i) {
        Some(Square::at(choose|i: int| is_first_king(pos, side, i)))
    } else {
        None
    }
}

/// A piece of `side` on `sq` attacks `to`.
pub open spec fn attacker_at(pos: Position, side: Side, sq: Square, to: Square) -> bool {
    &&& sq.wf()
    &&& pos.board.at(sq) matches Some(p) && p.side == side && attacks(pos, sq, p, to)
}

/// Some piece of `side` attacks `to`.
pub open spec fn attacked_by(pos: Position, side: Side, to: Square) -> bool {
    exists|sq: Square| #[trigger] attacker_at(pos, side, sq, to)
}

/// The king of `side` stands on a square that the other camp attacks.
pub open spec fn in_check(pos: Position, side: Side) -> bool {
    match spec_king_square(pos, side) {
        Some(k) => attacked_by(pos, side.opposite(), k),
        None => false,
    }
}

proof fn lemma_first_king(pos: Position, side: Side, i: int)
    requires
        is_first_king(pos, side, i),
    ensures
        spec_king_square(pos, side) == Some(Square::at(i)),
{
    let k = choose|k: int| is_first_king(pos, side, k);
    assert(is_first_king(pos, side, k));
    if k < i {
        assert(!is_king_at(pos, side, k));
    }
    if i < k {
        assert(!is_king_at(pos, side, i));
    }
}

/// The square of the king of `side` (the first in index order), if any.
pub fn king_square(pos: &Position, side: Side) -> (r: Option<Square>)
    ensures
        r == spec_king_square(*pos, side),
        r matches Some(k) ==> k.wf(),
{
    let mut i: u8 = 0;
    while i < 81
        invariant
            i <= 81,
            forall|j: int| 0 <= j < i ==> !is_king_at(*pos, side, j),
        decreases 81 - i,
    {
        let sq = Square::from_index(i);
        if let Some(p) = pos.board.get(sq) {
            if p.side == side && p.kind == PieceKind::King {
                proof {
                    assert(is_first_king(*pos, side, i as int));
                    lemma_first_king(*pos, side, i as int);
                }
                return Some(sq);
            }
        }
        i += 1;
    }
    None
}

fn vec_contains(v: &Vec<Square>, sq: Square) -> (b: bool)
    ensures
        b == v@.contains(sq),
{
    let mut i: usize = 0;
    while i < v.len()
        invariant
            i <= v.len(),
            forall|j: int| 0 <= j < i ==> v@[j] != sq,
        decreases v.len() - i,
    {
        if v[i] == sq {
            return true;
        }
        i += 1;
    }
    false
}

/// `v` with every later repeat of an element left out; the elements keep
/// their order, and a list without repeats comes back as it is.
fn distinct_squares(v: &Vec<Square>) -> (w: Vec<Square>)
    ensures
        w@.no_duplicates(),
        forall|x: Square| #[trigger] w@.contains(x) <==> v@.contains(x),
        v@.no_duplicates() ==> w@ == v@,
{
    let mut w: Vec<Square> = Vec::new();
    let mut i: usize = 0;
    while i < v.len()
        invariant
            i <= v@.len(),
            w@.no_duplicates(),
            forall|x: Square| #[trigger] w@.contains(x) <==> v@.take(i as int).contains(x),
            v@.take(i as int).no_duplicates() ==> w@ == v@.take(i as int),
        decreases v@.len() - i,
    {
        let x = v[i];
        let ghost prev = w@;
        let ghost t0 = v@.take(i as int);
        let ghost t1 = v@.take(i + 1);
        assert(t1 == t0.push(x));
        if !vec_contains(&w, x) {
            w.push(x);
        }
        proof {
            assert forall|y: Square| #[trigger] w@.contains(y) <==> t1.contains(y) by {
                if w@.contains(y) {
                    let k = choose|k: int| 0 <= k < w@.len() && w@[k] == y;
                    if k < prev.len() {
                        assert(prev[k] == y);
                        assert(prev.contains(y));
                        let m = choose|m: int| 0 <= m < t0.len() && t0[m] == y;
                        assert(t1[m] == y);
                    } else {
                        assert(t1[t0.len() as int] == y);
                    }
                }
                if t1.contains(y) {
                    let m = choose|m: int| 0 <= m < t1.len() && t1[m] == y;
                    if m < t0.len() {
                        assert(t0[m] == y);
                        assert(t0.contains(y));
                        assert(prev.contains(y));
                        let k = choose|k: int| 0 <= k < prev.len() && prev[k] == y;
                        assert(w@[k] == y);
                    } else if !prev.contains(y) {
                        assert(w@[w@.len() - 1] == y);
                    } else {
                        let k = choose|k: int| 0 <= k < prev.len() && prev[k] == y;
                        assert(w@[k] == y);
                    }
                }
            }
            if t1.no_duplicates() {
                assert forall|a: int, b: int| 0 <= a < b < t0.len() implies t0[a] != t0[b] by {
                    assert(t1[a] == t0[a] && t1[b] == t0[b]);
                }
                assert(prev == t0);
                if t0.contains(x) {
                    let m = choose|m: int| 0 <= m < t0.len() && t0[m] == x;
                    assert(t1[m] == t1[t0.len() as int]);
                }
                assert(w@ == t1);
            }
        }
        i += 1;
    }
    assert(v@.take(v@.len() as int) == v@);
    w
}

/// `v` with every later repeat of an element left out; the elements keep
/// their order, and a list without repeats comes back as it is.
fn distinct_actions(v: &Vec<Action>) -> (w: Vec<Action>)
    ensures
        w@.no_duplicates(),
        forall|x: Action| #[trigger] w@.contains(x) <==> v@.contains(x),
        v@.no_duplicates() ==> w@ == v@,
{
    let mut w: Vec<Action> = Vec::new();
    let mut i: usize = 0;
    while i < v.len()
        invariant
            i <= v@.len(),
            w@.no_duplicates(),
            forall|x: Action| #[trigger] w@.contains(x) <==> v@.take(i as int).contains(x),
            v@.take(i as int).no_duplicates() ==> w@ == v@.take(i as int),
        decreases v@.len() - i,
    {
        let x = v[i];
        let ghost prev = w@;
        let ghost t0 = v@.take(i as int);
        let ghost t1 = v@.take(i + 1);
        assert(t1 == t0.push(x));
        if !action_in(&w, x) {
            w.push(x);
        }
        proof {
            assert forall|y: Action| #[trigger] w@.contains(y) <==> t1.contains(y) by {
                if w@.contains(y) {
                    let k = choose|k: int| 0 <= k < w@.len() && w@[k] == y;
                    if k < prev.len() {
                        assert(prev[k] == y);
                        assert(prev.contains(y));
                        let m = choose|m: int| 0 <= m < t0.len() && t0[m] == y;
                        assert(t1[m] == y);
                    } else {
                        assert(t1[t0.len() as int] == y);
                    }
                }
                if t1.contains(y) {
                    let m = choose|m: int| 0 <= m < t1.len() && t1[m] == y;
                    if m < t0.len() {
                        assert(t0[m] == y);
                        assert(t0.contains(y));
                        assert(prev.contains(y));
                        let k = choose|k: int| 0 <= k < prev.len() && prev[k] == y;
                        assert(w@[k] == y);
                    } else if !prev.contains(y) {
                        assert(w@[w@.len() - 1] == y);
                    } else {
                        let k = choose|k: int| 0 <= k < prev.len() && prev[k] == y;
                        assert(w@[k] == y);
                    }
                }
            }
            if t1.no_duplicates() {
                assert forall|a: int, b: int| 0 <= a < b < t0.len() implies t0[a] != t0[b] by {
                    assert(t1[a] == t0[a] && t1[b] == t0[b]);
                }
                assert(prev == t0);
                if t0.contains(x) {
                    let m = choose|m: int| 0 <= m < t0.len() && t0[m] == x;
                    assert(t1[m] == t1[t0.len() as int]);
                }
                assert(w@ == t1);
            }
        }
        i += 1;
    }
    assert(v@.take(v@.len() as int) == v@);
    w
}

fn action_in(v: &Vec<Action>, a: Action) -> (b: bool)
    ensures
        b == v@.contains(a),
{
    let mut i: usize = 0;
    while i < v.len()
        invariant
            i <= v.len(),
            forall|j: int| 0 <= j < i ==> v@[j] != a,
        decreases v.len() - i,
    {
        if v[i] == a {
            assert(v@[i as int] == a);
            return true;
        }
        i += 1;
    }
    false
}

/// Whether some piece of `side` attacks `target`.
fn is_attacked_by(pos: &Position, side: Side, target: Square) -> (b: bool)
    ensures
        b == attacked_by(*pos, side, target),
{
    let mut i: u8 = 0;
    while i < 81
        invariant
            i <= 81,
            forall|sq: Square| sq.idx() < i ==> !#[trigger] attacker_at(*pos, side, sq, target),
        decreases 81 - i,
    {
        let sq = Square::from_index(i);
        if let Some(p) = pos.board.get(sq) {
            if p.side == side {
                let targets = piece_attacks(pos, sq, p);
                if vec_contains(&targets, target) {
                    assert(attacker_at(*pos, side, sq, target));
                    return true;
                }
            }
        }
        proof {
            assert forall|s: Square| s.idx() < i + 1 implies !#[trigger] attacker_at(
                *pos,
                side,
                s,
                target,
            ) by {
                if s.idx() == i {
                    assert(s == sq);
                }
            }
        }
        i += 1;
    }
    false
}

/// Whether the king of `side` is attacked (at the start of the turn).
pub fn is_in_check(pos: &Position, side: Side) -> (b: bool)
    ensures
        b == in_check(*pos, side),
{
    match king_square(pos, side) {
        None => false,
        Some(k) => is_attacked_by(pos, side.opposite(), k),
    }
}

/// The squares that the other camp attacks (with repeats when several pieces
/// attack one square).
pub fn opponent_attacks(pos: &Position, side: Side) -> (v: Vec<Square>)
    ensures
        forall|to: Square| #[trigger]
            v@.contains(to) <==> to.wf() && attacked_by(*pos, side.opposite(), to),
{
    let opp = side.opposite();
    let mut v: Vec<Square> = Vec::new();
    let mut i: u8 = 0;
    while i < 81
        invariant
            i <= 81,
            opp == side.opposite(),
            forall|k: int| 0 <= k < v@.len() ==> (#[trigger] v@[k]).wf(),
            forall|to: Square|
                #[trigger] v@.contains(to) <==> exists|sq: Square|
                    sq.idx() < i && #[trigger] attacker_at(*pos, opp, sq, to),
        decreases 81 - i,
    {
        let sq = Square::from_index(i);
        let ghost prev = v@;
        let ghost mut added: Seq<Square> = Seq::empty();
        if let Some(p) = pos.board.get(sq) {
            if p.side == opp {
                let t = piece_attacks(pos, sq, p);
                v.append(&mut t.clone());
                proof {
                    added = t@;
                }
            }
        }
        proof {
            assert(v@ == prev + added);
            assert forall|to: Square| #[trigger]
                added.contains(to) <==> attacker_at(*pos, opp, sq, to) by {}
            assert forall|k: int| 0 <= k < v@.len() implies (#[trigger] v@[k]).wf() by {
                if k >= prev.len() {
                    assert(v@[k] == added[k - prev.len()]);
                    assert(added.contains(v@[k]));
                }
            }
            assert forall|to: Square|
                #[trigger] v@.contains(to) <==> exists|s: Square|
                    s.idx() < i + 1 && #[trigger] attacker_at(*pos, opp, s, to) by {
                if v@.contains(to) {
                    let k = choose|k: int| 0 <= k < v@.len() && v@[k] == to;
                    if k < prev.len() {
                        assert(prev[k] == to);
                        assert(prev.contains(to));
                    } else {
                        assert(v@[k] == added[k - prev.len()]);
                        assert(added.contains(to));
                        assert(attacker_at(*pos, opp, sq, to));
                    }
                }
                if exists|s: Square| s.idx() < i + 1 && #[trigger] attacker_at(*pos, opp, s, to) {
                    let s = choose|s: Square|
                        s.idx() < i + 1 && #[trigger] attacker_at(*pos, opp, s, to);
                    if s.idx() < i {
                        assert(prev.contains(to));
                        let k = choose|k: int| 0 <= k < prev.len() && prev[k] == to;
                        assert(v@[k] == to);
                    } else {
                        assert(s == sq);
                        assert(added.contains(to));
                        let k = choose|k: int| 0 <= k < added.len() && added[k] == to;
                        assert(v@[prev.len() + k] == to);
                    }
                }
            }
        }
        i += 1;
    }
    proof {
        assert forall|to: Square| #[trigger]
            v@.contains(to) <==> to.wf() && attacked_by(*pos, side.opposite(), to) by {
            if v@.contains(to) {
                let k = choose|k: int| 0 <= k < v@.len() && v@[k] == to;
                assert(v@[k].wf());
            }
        }
    }
    v
}


// ---------------------------------------------------------------------------
// Candidate actions (ignoring the safety of the own king)
// ---------------------------------------------------------------------------

/// The promotion zone of a camp: the three far ranks.
pub open spec fn in_promo_zone(side: Side, sq: Square) -> bool {
    if side == Side::Sente {
        sq.srank() <= 3
    } else {
        sq.srank() >= 7
    }
}

/// A piece of `kind` on `to` could never move again, so it must promote
/// (pawn and lance on the last rank, knight on the last two).
pub open spec fn must_promote(kind: PieceKind, side: Side, to: Square) -> bool {
    match kind {
        PieceKind::Pawn | PieceKind::Lance => if side == Side::Sente {
            to.srank() == 1
        } else {
            to.srank() == 9
        },
        PieceKind::Knight => if side == Side::Sente {
            to.srank() <= 2
        } else {
            to.srank() >= 8
        },
        _ => false,
    }
}

/// `side` has an unpromoted pawn on a file.
pub open spec fn pawn_on_file(pos: Position, side: Side, file: int) -> bool {
    exists|r: int|
        1 <= r <= 9 && #[trigger] cell_at(pos, file, r) == Some(
            Piece { kind: PieceKind::Pawn, side },
        )
}

/// A candidate action: the moves and drops of traditional shogi, before the
/// safety of the own king and the pawn-drop mate are checked.
/// - a move takes an own piece to a square it attacks; it may promote when it
///   starts or ends in the promotion zone, and must promote when the piece
///   could not move again;
/// - a drop puts a held base kind on an empty square where it can still move,
///   and never a second unpromoted pawn on a file.
pub open spec fn pseudo_legal(pos: Position, side: Side, a: Action) -> bool {
    match a {
        Action::Move { from, to, promote } => {
            &&& from.wf()
            &&& pos.board.at(from) matches Some(p) && p.side == side && attacks(pos, from, p, to)
                && {
                let can = p.kind.can_promote() && (in_promo_zone(side, from) || in_promo_zone(
                    side,
                    to,
                ));
                if must_promote(p.kind, side, to) {
                    promote && can
                } else {
                    promote ==> can
                }
            }
        },
        Action::Drop { kind, to } => {
            &&& to.wf()
            &&& pos.board.at(to) is None
            &&& is_hand_kind(kind)
            &&& pos.spec_hand(side).spec_count(kind) > 0
            &&& !must_promote(kind, side, to)
            &&& kind == PieceKind::Pawn ==> !pawn_on_file(pos, side, to.sfile())
        },
        Action::Resign => false,
    }
}

fn in_zone(side: Side, sq: Square) -> (b: bool)
    ensures
        b == in_promo_zone(side, sq),
{
    if side == Side::Sente {
        sq.rank() <= 3
    } else {
        sq.rank() >= 7
    }
}

fn must_promote_exec(kind: PieceKind, side: Side, to: Square) -> (b: bool)
    ensures
        b == must_promote(kind, side, to),
{
    match kind {
        PieceKind::Pawn | PieceKind::Lance => if side == Side::Sente {
            to.rank() == 1
        } else {
            to.rank() == 9
        },
        PieceKind::Knight => if side == Side::Sente {
            to.rank() <= 2
        } else {
            to.rank() >= 8
        },
        _ => false,
    }
}

pub(crate) fn has_pawn_on_file(pos: &Position, side: Side, file: u8) -> (b: bool)
    requires
        1 <= file <= 9,
    ensures
        b == pawn_on_file(*pos, side, file as int),
{
    let mut r: u8 = 1;
    while r <= 9
        invariant
            1 <= r <= 10,
            1 <= file <= 9,
            forall|k: int|
                1 <= k < r ==> #[trigger] cell_at(*pos, file as int, k) != Some(
                    Piece { kind: PieceKind::Pawn, side },
                ),
        decreases 10 - r,
    {
        let sq = Square::new(file, r);
        proof {
            lemma_sq_at(*pos, file as int, r as int);
        }
        if let Some(p) = pos.board.get(sq) {
            if p.side == side && p.kind == PieceKind::Pawn {
                assert(cell_at(*pos, file as int, r as int) == Some(
                    Piece { kind: PieceKind::Pawn, side },
                ));
                return true;
            }
        }
        r += 1;
    }
    false
}

/// Pushes the moves of the piece on `from` to `to`: the plain move unless the
/// piece must promote, and the promoting move when promotion is possible.
fn push_moves(
    pos: &Position,
    side: Side,
    from: Square,
    piece: Piece,
    to: Square,
    out: &mut Vec<Action>,
)
    requires
        from.wf(),
        to.wf(),
        pos.board.at(from) == Some(piece),
        piece.side == side,
        attacks(*pos, from, piece, to),
    ensures
        forall|a: Action| #[trigger]
            final(out)@.contains(a) <==> (old(out)@.contains(a) || (a matches Action::Move {
                from: f,
                to: t,
                ..
            } && f == from && t == to && pseudo_legal(*pos, side, a))),
        forall|k: int| 0 <= k < final(out)@.len() ==> (#[trigger] final(out)@[k]).wf() || (k
            < old(out)@.len() && !old(out)@[k].wf()),
{
    let ghost prev = out@;
    let can_promo = piece.kind.can_promote() && (in_zone(side, from) || in_zone(side, to));
    let must = must_promote_exec(piece.kind, side, to);
    let m0 = Action::Move { from, to, promote: false };
    let m1 = Action::Move { from, to, promote: true };
    if must {
        if can_promo {
            out.push(m1);
        }
    } else {
        out.push(m0);
        if can_promo {
            out.push(m1);
        }
    }
    proof {
        assert forall|a: Action| #[trigger]
            out@.contains(a) <==> (prev.contains(a) || (a matches Action::Move {
                from: f,
                to: t,
                ..
            } && f == from && t == to && pseudo_legal(*pos, side, a))) by {
            if out@.contains(a) {
                let k = choose|k: int| 0 <= k < out@.len() && out@[k] == a;
                if k < prev.len() {
                    assert(prev[k] == a);
                }
            }
            if prev.contains(a) {
                let k = choose|k: int| 0 <= k < prev.len() && prev[k] == a;
                assert(out@[k] == a);
            }
            if a == m0 && pseudo_legal(*pos, side, a) {
                assert(out@[prev.len() as int] == a);
            }
            if a == m1 && pseudo_legal(*pos, side, a) {
                assert(out@[out@.len() - 1] == a);
            }
        }
    }
}

/// All candidate actions of `side` (moves first, by origin index; then drops,
/// by destination index and hand slot).
fn pseudo_moves(pos: &Position, side: Side) -> (v: Vec<Action>)
    ensures
        forall|a: Action| #[trigger] v@.contains(a) <==> pseudo_legal(*pos, side, a),
        forall|k: int| 0 <= k < v@.len() ==> (#[trigger] v@[k]).wf(),
{
    let mut actions: Vec<Action> = Vec::new();
    let mut i: u8 = 0;
    while i < 81
        invariant
            i <= 81,
            forall|k: int| 0 <= k < actions@.len() ==> (#[trigger] actions@[k]).wf(),
            forall|a: Action| #[trigger]
                actions@.contains(a) <==> (a matches Action::Move { from, .. } && from.idx() < i
                    && pseudo_legal(*pos, side, a)),
        decreases 81 - i,
    {
        let from = Square::from_index(i);
        if let Some(piece) = pos.board.get(from) {
            if piece.side == side {
                let targets = piece_attacks(pos, from, piece);
                let mut j: usize = 0;
                while j < targets.len()
                    invariant
                        i < 81,
                        from.idx() == i,
                        from.wf(),
                        pos.board.at(from) == Some(piece),
                        piece.side == side,
                        j <= targets.len(),
                        forall|to: Square| #[trigger]
                            targets@.contains(to) <==> attacks(*pos, from, piece, to),
                        forall|k: int| 0 <= k < targets@.len() ==> (#[trigger] targets@[k]).wf(),
                        forall|k: int| 0 <= k < actions@.len() ==> (#[trigger] actions@[k]).wf(),
                        forall|a: Action| #[trigger]
                            actions@.contains(a) <==> (a matches Action::Move { from: f, to: t, .. }
                                && pseudo_legal(*pos, side, a) && (f.idx() < i || (f == from
                                && targets@.take(j as int).contains(t)))),
                    decreases targets.len() - j,
                {
                    let to = targets[j];
                    assert(targets@.contains(to));
                    let ghost prev = actions@;
                    push_moves(pos, side, from, piece, to, &mut actions);
                    proof {
                        assert forall|a: Action| #[trigger]
                            actions@.contains(a) <==> (a matches Action::Move {
                                from: f,
                                to: t,
                                ..
                            } && pseudo_legal(*pos, side, a) && (f.idx() < i || (f == from
                                && targets@.take(j + 1).contains(t)))) by {
                            if let Action::Move { from: f, to: t, .. } = a {
                                if targets@.take(j + 1).contains(t) && !targets@.take(
                                    j as int,
                                ).contains(t) {
                                    let k = choose|k: int|
                                        0 <= k < j + 1 && #[trigger] targets@.take(j + 1)[k] == t;
                                    if k < j {
                                        assert(targets@.take(j as int)[k] == t);
                                    }
                                }
                                if targets@.take(j as int).contains(t) {
                                    let k = choose|k: int|
                                        0 <= k < j && #[trigger] targets@.take(j as int)[k] == t;
                                    assert(targets@.take(j + 1)[k] == t);
                                }
                                if t == to {
                                    assert(targets@.take(j + 1)[j as int] == t);
                                }
                                if f.idx() < i {
                                    assert(f != from);
                                }
                            }
                        }
                    }
                    j += 1;
                }
                proof {
                    assert(targets@.take(targets@.len() as int) == targets@);
                }
            }
        }
        proof {
            assert forall|a: Action| #[trigger]
                actions@.contains(a) <==> (a matches Action::Move { from: f, .. } && f.idx() < i
                    + 1 && pseudo_legal(*pos, side, a)) by {
                if let Action::Move { from: f, to: t, .. } = a {
                    if f.idx() == i && pseudo_legal(*pos, side, a) {
                        assert(f == from);
                        assert(targets_contains_hint(*pos, from, t));
                    }
                }
            }
        }
        i += 1;
    }
    let hand = *pos.hand(side);
    let kinds = Hand::kinds();
    let mut i: u8 = 0;
    while i < 81
        invariant
            i <= 81,
            hand == pos.spec_hand(side),
            forall|j: int| 0 <= j < 7 ==> #[trigger] kinds@[j] == slot_kind(j),
            forall|k: int| 0 <= k < actions@.len() ==> (#[trigger] actions@[k]).wf(),
            forall|a: Action| #[trigger]
                actions@.contains(a) <==> (pseudo_legal(*pos, side, a) && (a is Move || (a matches Action::Drop { to, .. } && to.idx() < i))),
        decreases 81 - i,
    {
        let to = Square::from_index(i);
        if pos.board.get(to).is_none() {
            let mut k: usize = 0;
            while k < 7
                invariant
                    i < 81,
                    to.idx() == i,
                    to.wf(),
                    pos.board.at(to) is None,
                    k <= 7,
                    hand == pos.spec_hand(side),
                    forall|j: int| 0 <= j < 7 ==> #[trigger] kinds@[j] == slot_kind(j),
                    forall|m: int| 0 <= m < actions@.len() ==> (#[trigger] actions@[m]).wf(),
                    forall|a: Action| #[trigger]
                        actions@.contains(a) <==> (pseudo_legal(*pos, side, a) && (a is Move || (a matches Action::Drop { to: t, kind } && (t.idx() < i || (t == to && slot_index(kind) < k))))),
                decreases 7 - k,
            {
                let kind = kinds[k];
                let ghost prev = actions@;
                let ok = hand.has(kind) && !must_promote_exec(kind, side, to) && (kind
                    != PieceKind::Pawn || !has_pawn_on_file(pos, side, to.file()));
                let d = Action::Drop { kind, to };
                if ok {
                    actions.push(d);
                }
                proof {
                    assert(slot_index(kind) == k);
                    assert forall|a: Action| #[trigger]
                        actions@.contains(a) <==> (pseudo_legal(*pos, side, a) && (a is Move || (a matches Action::Drop { to: t, kind } && (t.idx() < i || (t == to && slot_index(kind) < k + 1))))) by {
                        if actions@.contains(a) {
                            let m = choose|m: int| 0 <= m < actions@.len() && actions@[m] == a;
                            if m < prev.len() {
                                assert(prev[m] == a);
                            }
                        }
                        if prev.contains(a) {
                            let m = choose|m: int| 0 <= m < prev.len() && prev[m] == a;
                            assert(actions@[m] == a);
                        }
                        if a == d && ok {
                            assert(actions@[actions@.len() - 1] == a);
                        }
                        if let Action::Drop { to: t, kind: kk } = a {
                            if t == to && slot_index(kk) == k {
                                assert(kk == kind);
                            }
                        }
                    }
                }
                k += 1;
            }
        }
        proof {
            assert forall|a: Action| #[trigger]
                actions@.contains(a) <==> (pseudo_legal(*pos, side, a) && (a is Move || (a matches Action::Drop { to: t, .. } && t.idx() < i + 1))) by {
                if let Action::Drop { to: t, kind } = a {
                    if t.idx() == i {
                        assert(t == to);
                        if pseudo_legal(*pos, side, a) {
                            assert(slot_index(kind) < 7);
                        }
                    }
                }
            }
        }
        i += 1;
    }
    actions
}

// ---------------------------------------------------------------------------
// Safety of the own king, pawn-drop mate, legal actions
// ---------------------------------------------------------------------------

/// The position after `side` plays a candidate action on its own (used to test
/// the safety of its king): the moving piece leaves its origin, an enemy piece
/// on the destination (not a king) goes unpromoted to the hand of `side`, and
/// the piece lands, promoted if the move says so; a drop takes the piece from
/// hand.
pub open spec fn apply_temp(pos: Position, side: Side, a: Action) -> Position {
    match a {
        Action::Move { from, to, promote } => {
            let piece = pos.board.at(from)->0;
            let b1 = pos.board.with_cell(from, None);
            let p1 = Position { board: b1, ..pos };
            let p2 = match b1.at(to) {
                Some(cap) => if cap.side != side && cap.kind != PieceKind::King {
                    p1.with_hand(side, p1.spec_hand(side).spec_add(cap.kind.unpromoted()))
                } else {
                    p1
                },
                None => p1,
            };
            let np = if promote {
                Piece { kind: piece.kind.promoted(), side: piece.side }
            } else {
                piece
            };
            Position { board: p2.board.with_cell(to, Some(np)), ..p2 }
        },
        Action::Drop { kind, to } => {
            let p1 = Position { board: pos.board.with_cell(to, Some(Piece { kind, side })), ..pos };
            p1.with_hand(side, p1.spec_hand(side).spec_remove(kind))
        },
        Action::Resign => pos,
    }
}

/// The pawns held in both hands (the measure that pawn-drop mate recursion lowers).
pub open spec fn pawn_count(pos: Position) -> nat {
    pos.hand_sente.spec_count(PieceKind::Pawn) + pos.hand_gote.spec_count(PieceKind::Pawn)
}

/// The position after `side` drops a pawn on `to`.
pub open spec fn drop_pawn(pos: Position, side: Side, to: Square) -> Position {
    apply_temp(pos, side, Action::Drop { kind: PieceKind::Pawn, to })
}

/// A legal action: a candidate after which the own king is not attacked, and,
/// for a pawn drop, one that does not leave the other camp without a legal
/// action (pawn-drop mate).
pub open spec fn is_legal(pos: Position, side: Side, a: Action) -> bool
    decreases pawn_count(pos), 1int, 0int,
{
    &&& pseudo_legal(pos, side, a)
    &&& !in_check(apply_temp(pos, side, a), side)
    &&& match a {
        Action::Drop { kind: PieceKind::Pawn, to } => !uchi_fu_zume(pos, side, to),
        _ => true,
    }
}

/// Dropping a pawn of `side` on `to` leaves the other camp without any legal action.
pub open spec fn uchi_fu_zume(pos: Position, side: Side, to: Square) -> bool
    decreases pawn_count(pos), 0int, 0int,
{
    if pos.spec_hand(side).spec_count(PieceKind::Pawn) > 0 {
        !legal_from(drop_pawn(pos, side, to), side.opposite(), 0)
    } else {
        false
    }
}

/// The number of actions in `action_at`'s enumeration.
pub open spec fn n_actions() -> int {
    13689
}

/// An enumeration of every move and drop: moves by origin, destination and
/// promotion flag, then drops by destination and hand slot.
pub open spec fn action_at(i: int) -> Action {
    if i < 13122 {
        Action::Move {
            from: Square::at(i / 162),
            to: Square::at((i % 162) / 2),
            promote: i % 2 == 1,
        }
    } else {
        Action::Drop { kind: slot_kind((i - 13122) % 7), to: Square::at((i - 13122) / 7) }
    }
}

/// Some action from position `i` of the enumeration on is legal for `side`.
pub open spec fn legal_from(pos: Position, side: Side, i: int) -> bool
    decreases pawn_count(pos), 2int, n_actions() - i,
{
    if 0 <= i < n_actions() {
        is_legal(pos, side, action_at(i)) || legal_from(pos, side, i + 1)
    } else {
        false
    }
}

/// The own-king test applied to a copy of the position.
fn apply_move_temp(pos: &Position, side: Side, action: Action) -> (next: Position)
    requires
        pseudo_legal(*pos, side, action),
        pos.has_room(),
    ensures
        next == apply_temp(*pos, side, action),
{
    let mut next = *pos;
    match action {
        Action::Move { from, to, promote } => {
            let mut piece = next.board.get(from).unwrap();
            next.board.set(from, None);
            if let Some(cap) = next.board.get(to) {
                if cap.side != side && cap.kind != PieceKind::King {
                    let base = cap.kind.unpromoted();
                    match side {
                        Side::Sente => next.hand_sente.add(base),
                        Side::Gote => next.hand_gote.add(base),
                    }
                }
            }
            if promote {
                piece.kind = piece.kind.promoted();
            }
            next.board.set(to, Some(piece));
        },
        Action::Drop { kind, to } => {
            next.board.set(to, Some(Piece::new(kind, side)));
            match side {
                Side::Sente => next.hand_sente.remove(kind),
                Side::Gote => next.hand_gote.remove(kind),
            }
        },
        Action::Resign => {},
    }
    next
}

/// After the candidate action, the own king is not attacked.
fn is_legal_after_self_check(pos: &Position, side: Side, action: Action) -> (b: bool)
    requires
        pseudo_legal(*pos, side, action),
        pos.has_room(),
    ensures
        b == !in_check(apply_temp(*pos, side, action), side),
{
    let after = apply_move_temp(pos, side, action);
    !is_in_check(&after, side)
}

/// Whether dropping a pawn of `side` on `to` is a pawn-drop mate.
fn is_uchi_fu_dzume(pos: &Position, side: Side, to: Square) -> (b: bool)
    requires
        to.wf(),
        pos.has_room(),
        pos.spec_hand(side).spec_count(PieceKind::Pawn) > 0,
    ensures
        b == uchi_fu_zume(*pos, side, to),
    decreases pawn_count(*pos), 0int, 0int,
{
    let mut after = *pos;
    after.board.set(to, Some(Piece::new(PieceKind::Pawn, side)));
    match side {
        Side::Sente => after.hand_sente.remove(PieceKind::Pawn),
        Side::Gote => after.hand_gote.remove(PieceKind::Pawn),
    }
    assert(after == drop_pawn(*pos, side, to));
    assert(pawn_count(after) < pawn_count(*pos));
    let opp = side.opposite();
    let v = legal_actions(&after, opp);
    proof {
        let after_ = drop_pawn(*pos, side, to);
        if v@.len() > 0 {
            assert(v@.contains(v@[0]));
            assert(is_legal(after_, opp, v@[0]));
            lemma_legal_index(after_, opp, v@[0]);
            lemma_legal_from_complete(after_, opp, 0, action_index(v@[0]));
        } else {
            if legal_from(after_, opp, 0) {
                lemma_legal_from_sound(after_, opp, 0);
                let b = choose|b: Action| is_legal(after_, opp, b);
                assert(v@.contains(b));
            }
        }
    }
    v.len() == 0
}

/// Every legal action of `side`: the actions of traditional shogi with `side`
/// to move — no move that leaves the own king attacked, no second pawn on a
/// file, no piece dropped or moved where it could never move again, no pawn
/// drop that mates.
pub fn legal_actions(pos: &Position, side: Side) -> (v: Vec<Action>)
    requires
        pos.has_room(),
    ensures
        forall|a: Action| #[trigger] v@.contains(a) <==> is_legal(*pos, side, a),
        forall|k: int| 0 <= k < v@.len() ==> (#[trigger] v@[k]).wf(),
        v@.no_duplicates(),
    decreases pawn_count(*pos), 1int, 0int,
{
    let candidates = pseudo_moves(pos, side);
    let mut result: Vec<Action> = Vec::new();
    let mut i: usize = 0;
    while i < candidates.len()
        invariant
            i <= candidates.len(),
            pos.has_room(),
            forall|a: Action| #[trigger] candidates@.contains(a) <==> pseudo_legal(*pos, side, a),
            forall|k: int| 0 <= k < candidates@.len() ==> (#[trigger] candidates@[k]).wf(),
            forall|k: int| 0 <= k < result@.len() ==> (#[trigger] result@[k]).wf(),
            forall|a: Action| #[trigger]
                result@.contains(a) <==> (candidates@.take(i as int).contains(a) && is_legal(
                    *pos,
                    side,
                    a,
                )),
        decreases candidates.len() - i,
    {
        let a = candidates[i];
        assert(candidates@.contains(a));
        let ghost prev = result@;
        let mut ok = is_legal_after_self_check(pos, side, a);
        if ok {
            if let Action::Drop { kind: PieceKind::Pawn, to } = a {
                if is_uchi_fu_dzume(pos, side, to) {
                    ok = false;
                }
            }
        }
        assert(ok == is_legal(*pos, side, a));
        if ok {
            result.push(a);
        }
        proof {
            assert forall|x: Action| #[trigger]
                result@.contains(x) <==> (candidates@.take(i + 1).contains(x) && is_legal(
                    *pos,
                    side,
                    x,
                )) by {
                if result@.contains(x) {
                    let k = choose|k: int| 0 <= k < result@.len() && result@[k] == x;
                    if k < prev.len() {
                        assert(prev[k] == x);
                        assert(prev.contains(x));
                        let m = choose|m: int| 0 <= m < i && #[trigger] candidates@.take(i as int)[m] == x;
                        assert(candidates@.take(i + 1)[m] == x);
                    } else {
                        assert(candidates@.take(i + 1)[i as int] == x);
                    }
                }
                if candidates@.take(i + 1).contains(x) && is_legal(*pos, side, x) {
                    let m = choose|m: int| 0 <= m < i + 1 && #[trigger] candidates@.take(i + 1)[m] == x;
                    if m < i {
                        assert(candidates@.take(i as int)[m] == x);
                        assert(prev.contains(x));
                        let k = choose|k: int| 0 <= k < prev.len() && prev[k] == x;
                        assert(result@[k] == x);
                    } else {
                        assert(x == a);
                        assert(result@[result@.len() - 1] == x);
                    }
                }
            }
        }
        i += 1;
    }
    proof {
        assert(candidates@.take(candidates@.len() as int) == candidates@);
    }
    let w = distinct_actions(&result);
    proof {
        assert forall|k: int| 0 <= k < w@.len() implies (#[trigger] w@[k]).wf() by {
            assert(w@.contains(w@[k]));
            let j = choose|j: int| 0 <= j < result@.len() && result@[j] == w@[k];
        }
    }
    w
}

/// The position of an action in `action_at`'s enumeration.
pub open spec fn action_index(a: Action) -> int {
    match a {
        Action::Move { from, to, promote } => from.idx() * 162 + to.idx() * 2 + if promote {
            1int
        } else {
            0int
        },
        Action::Drop { kind, to } => 13122 + to.idx() * 7 + slot_index(kind),
        Action::Resign => 0,
    }
}

proof fn lemma_step_wf(pos: Position, from: Square, d: (int, int), side: Side, to: Square)
    requires
        step_hits(pos, from, d, side, to),
    ensures
        to.wf(),
{
    lemma_sq_at(pos, from.sfile() + d.0, from.srank() + d.1);
}

/// The destination of an attack is on the board.
proof fn lemma_attacks_wf(pos: Position, from: Square, piece: Piece, to: Square)
    requires
        attacks(pos, from, piece, to),
    ensures
        to.wf(),
{
    let sd = step_dirs(piece.kind, piece.side);
    let ld = slide_dirs(piece.kind, piece.side);
    if exists|i: int| 0 <= i < sd.len() && #[trigger] step_hits(pos, from, sd[i], piece.side, to) {
        let i = choose|i: int|
            0 <= i < sd.len() && #[trigger] step_hits(pos, from, sd[i], piece.side, to);
        lemma_step_wf(pos, from, sd[i], piece.side, to);
    } else {
        let i = choose|i: int|
            0 <= i < ld.len() && #[trigger] slide_hits(pos, from, ld[i], piece.side, to);
        let k = choose|k: int|
            k >= 1 && #[trigger] step_hits(pos, from, (k * ld[i].0, k * ld[i].1), piece.side, to)
                && ray_open(pos, from, ld[i], k);
        lemma_step_wf(pos, from, (k * ld[i].0, k * ld[i].1), piece.side, to);
    }
}

proof fn lemma_move_index(f: int, t: int, p: int)
    by (nonlinear_arith)
    requires
        0 <= f < 81,
        0 <= t < 81,
        0 <= p < 2,
    ensures
        0 <= f * 162 + t * 2 + p < 13122,
        (f * 162 + t * 2 + p) / 162 == f,
        ((f * 162 + t * 2 + p) % 162) / 2 == t,
        (f * 162 + t * 2 + p) % 2 == p,
{
}

proof fn lemma_drop_index(t: int, k: int)
    by (nonlinear_arith)
    requires
        0 <= t < 81,
        0 <= k < 7,
    ensures
        0 <= t * 7 + k < 567,
        (t * 7 + k) / 7 == t,
        (t * 7 + k) % 7 == k,
{
}

/// A legal action has a place in the enumeration.
proof fn lemma_legal_index(pos: Position, side: Side, a: Action)
    requires
        is_legal(pos, side, a),
    ensures
        0 <= action_index(a) < n_actions(),
        action_at(action_index(a)) == a,
{
    match a {
        Action::Move { from, to, promote } => {
            let p = pos.board.at(from)->0;
            lemma_attacks_wf(pos, from, p, to);
            lemma_move_index(from.idx(), to.idx(), if promote { 1 } else { 0 });
        },
        Action::Drop { kind, to } => {
            lemma_drop_index(to.idx(), slot_index(kind));
        },
        Action::Resign => {},
    }
}

/// A legal action at or after position `i` makes `legal_from(i)` hold.
proof fn lemma_legal_from_complete(pos: Position, side: Side, i: int, j: int)
    requires
        0 <= i <= j < n_actions(),
        is_legal(pos, side, action_at(j)),
    ensures
        legal_from(pos, side, i),
    decreases j - i,
{
    if i < j {
        lemma_legal_from_complete(pos, side, i + 1, j);
    }
}

/// `legal_from(i)` holds only when some action is legal.
proof fn lemma_legal_from_sound(pos: Position, side: Side, i: int)
    requires
        legal_from(pos, side, i),
    ensures
        exists|b: Action| is_legal(pos, side, b),
    decreases n_actions() - i,
{
    if is_legal(pos, side, action_at(i)) {
    } else {
        lemma_legal_from_sound(pos, side, i + 1);
    }
}

/// The hand slot of a droppable kind, 7 for the others.
pub open spec fn slot_index(kind: PieceKind) -> int {
    match kind {
        PieceKind::Pawn => 0,
        PieceKind::Lance => 1,
        PieceKind::Knight => 2,
        PieceKind::Silver => 3,
        PieceKind::Gold => 4,
        PieceKind::Bishop => 5,
        PieceKind::Rook => 6,
        _ => 7,
    }
}

spec fn targets_contains_hint(pos: Position, from: Square, t: Square) -> bool {
    true
}

} // verus!
