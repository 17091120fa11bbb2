//! Japanese game notation for actions, such as ７六歩 or ５八金右, with the
//! marks that tell apart pieces of one kind only when they are needed.
use vstd::prelude::*;

use crate::board::Position;
use crate::movegen::step_dirs;
use crate::text::{push_char, push_str};
use crate::types::{group_square, usi_action, Action, PieceKind, Side, Square};

verus! {

broadcast use group_square;

/// The name of a kind of piece.
pub open spec fn piece_name(kind: PieceKind) -> Seq<char> {
    match kind {
        PieceKind::Pawn => "歩"@,
        PieceKind::Lance => "香"@,
        PieceKind::Knight => "桂"@,
        PieceKind::Silver => "銀"@,
        PieceKind::Gold => "金"@,
        PieceKind::Bishop => "角"@,
        PieceKind::Rook => "飛"@,
        PieceKind::King => "玉"@,
        PieceKind::ProPawn => "と"@,
        PieceKind::ProLance => "成香"@,
        PieceKind::ProKnight => "成桂"@,
        PieceKind::ProSilver => "成銀"@,
        PieceKind::Horse => "馬"@,
        PieceKind::Dragon => "竜"@,
    }
}

/// The kanji numeral of a rank, 1 to 9.
pub open spec fn rank_kanji(r: int) -> Seq<char> {
    if r == 1 {
        "一"@
    } else if r == 2 {
        "二"@
    } else if r == 3 {
        "三"@
    } else if r == 4 {
        "四"@
    } else if r == 5 {
        "五"@
    } else if r == 6 {
        "六"@
    } else if r == 7 {
        "七"@
    } else if r == 8 {
        "八"@
    } else {
        "九"@
    }
}

/// The name of a square: the full-width digit of its file, then the kanji of its rank.
pub open spec fn square_name(sq: Square) -> Seq<char> {
    seq![(0xFF10 + sq.sfile()) as char] + rank_kanji(sq.srank())
}

/// The name of a square.
pub fn sq_ja(sq: Square) -> (s: String)
    requires
        sq.wf(),
    ensures
        s@ == square_name(sq),
{
    let f = sq.file();
    assert(1 <= f <= 9);
    let mut s = String::new();
    push_char(&mut s, char_from(0xFF10u32 + f as u32));
    let r = sq.rank();
    let k = if r == 1 {
        "一"
    } else if r == 2 {
        "二"
    } else if r == 3 {
        "三"
    } else if r == 4 {
        "四"
    } else if r == 5 {
        "五"
    } else if r == 6 {
        "六"
    } else if r == 7 {
        "七"
    } else if r == 8 {
        "八"
    } else {
        "九"
    };
    push_str(&mut s, k);
    assert(s@ =~= square_name(sq));
    s
}

fn char_from(u: u32) -> (c: char)
    requires
        0xFF11 <= u <= 0xFF19,
    ensures
        c == u as char,
{
    let v: Vec<char> = vec![
        '１', '２', '３', '４', '５', '６', '７', '８', '９',
    ];
    let c = v[(u - 0xFF11) as usize];
    assert(v@ == seq!['１', '２', '３', '４', '５', '６', '７', '８', '９']);
    c
}

/// The name of a kind of piece.
pub fn piece_ja(kind: PieceKind) -> (s: &'static str)
    ensures
        s@ == piece_name(kind),
{
    match kind {
        PieceKind::Pawn => "歩",
        PieceKind::Lance => "香",
        PieceKind::Knight => "桂",
        PieceKind::Silver => "銀",
        PieceKind::Gold => "金",
        PieceKind::Bishop => "角",
        PieceKind::Rook => "飛",
        PieceKind::King => "玉",
        PieceKind::ProPawn => "と",
        PieceKind::ProLance => "成香",
        PieceKind::ProKnight => "成桂",
        PieceKind::ProSilver => "成銀",
        PieceKind::Horse => "馬",
        PieceKind::Dragon => "竜",
    }
}

/// The three ranks where a camp may promote.
pub open spec fn promo_zone(side: Side, sq: Square) -> bool {
    match side {
        Side::Sente => sq.srank() <= 3,
        Side::Gote => sq.srank() >= 7,
    }
}

fn in_promo_zone(side: Side, sq: Square) -> (b: bool)
    ensures
        b == promo_zone(side, sq),
{
    match side {
        Side::Sente => sq.rank() <= 3,
        Side::Gote => sq.rank() >= 7,
    }
}

/// Left or right, as the moving camp sees the board.
#[derive(Debug, Clone, Copy, PartialEq, Eq, Structural)]
pub enum Flank {
    Left,
    Right,
}

/// The direction of a move: sideways, straight ahead, up, or back.
#[derive(Debug, Clone, Copy, PartialEq, Eq, Structural)]
pub enum Heading {
    Sideways,
    Straight,
    Up,
    Back,
}

/// The flank of an origin relative to the destination's file; none on the same file.
pub open spec fn flank_of(side: Side, to: Square, sq: Square) -> Option<Flank> {
    if sq.sfile() == to.sfile() {
        None
    } else {
        let is_left = match side {
            Side::Sente => sq.sfile() > to.sfile(),
            Side::Gote => sq.sfile() < to.sfile(),
        };
        Some(if is_left { Flank::Left } else { Flank::Right })
    }
}

/// The heading of a move from an origin to the destination.
pub open spec fn heading_of(side: Side, to: Square, sq: Square) -> Heading {
    if sq.srank() == to.srank() {
        Heading::Sideways
    } else {
        let forward = match side {
            Side::Sente => sq.srank() > to.srank(),
            Side::Gote => sq.srank() < to.srank(),
        };
        if forward {
            if sq.sfile() == to.sfile() {
                Heading::Straight
            } else {
                Heading::Up
            }
        } else {
            Heading::Back
        }
    }
}

pub open spec fn flank_text(f: Flank) -> Seq<char> {
    match f {
        Flank::Left => "左"@,
        Flank::Right => "右"@,
    }
}

pub open spec fn heading_text(h: Heading) -> Seq<char> {
    match h {
        Heading::Sideways => "寄"@,
        Heading::Straight => "直"@,
        Heading::Up => "上"@,
        Heading::Back => "引"@,
    }
}

/// How many of the first `n` origins are on a flank.
pub open spec fn count_flank(c: Seq<Square>, side: Side, to: Square, f: Flank, n: int) -> nat
    decreases n,
{
    if n <= 0 {
        0
    } else {
        count_flank(c, side, to, f, n - 1) + if flank_of(side, to, c[n - 1]) == Some(f) {
            1nat
        } else {
            0nat
        }
    }
}

/// How many of the first `n` origins have a heading.
pub open spec fn count_heading(c: Seq<Square>, side: Side, to: Square, h: Heading, n: int) -> nat
    decreases n,
{
    if n <= 0 {
        0
    } else {
        count_heading(c, side, to, h, n - 1) + if heading_of(side, to, c[n - 1]) == h {
            1nat
        } else {
            0nat
        }
    }
}

/// The mark that tells the move from `from` apart among the origins
/// `candidates` (its own included): nothing when it is alone; its flank when
/// that is enough; else its heading when that is enough; else both.
pub open spec fn disambiguation(side: Side, from: Square, to: Square, candidates: Seq<Square>) -> Seq<char> {
    let n = candidates.len() as int;
    if n <= 1 {
        Seq::empty()
    } else {
        let my_flank = flank_of(side, to, from);
        let my_heading = heading_of(side, to, from);
        if my_flank is Some && count_flank(candidates, side, to, my_flank->0, n) <= 1 {
            flank_text(my_flank->0)
        } else if count_heading(candidates, side, to, my_heading, n) <= 1 {
            heading_text(my_heading)
        } else {
            match my_flank {
                Some(f) => flank_text(f) + heading_text(my_heading),
                None => heading_text(my_heading),
            }
        }
    }
}

fn flank(side: Side, to: Square, sq: Square) -> (r: Option<Flank>)
    ensures
        r == flank_of(side, to, sq),
{
    let sf = sq.file();
    let tf = to.file();
    if sf == tf {
        return None;
    }
    let is_left = match side {
        Side::Sente => sf > tf,
        Side::Gote => sf < tf,
    };
    Some(if is_left { Flank::Left } else { Flank::Right })
}

fn heading(side: Side, to: Square, sq: Square) -> (h: Heading)
    ensures
        h == heading_of(side, to, sq),
{
    let sr = sq.rank();
    let tr = to.rank();
    if sr == tr {
        return Heading::Sideways;
    }
    let forward = match side {
        Side::Sente => sr > tr,
        Side::Gote => sr < tr,
    };
    if forward {
        if sq.file() == to.file() {
            Heading::Straight
        } else {
            Heading::Up
        }
    } else {
        Heading::Back
    }
}

fn flank_str(f: Flank) -> (s: &'static str)
    ensures
        s@ == flank_text(f),
{
    match f {
        Flank::Left => "左",
        Flank::Right => "右",
    }
}

fn heading_str(h: Heading) -> (s: &'static str)
    ensures
        s@ == heading_text(h),
{
    match h {
        Heading::Sideways => "寄",
        Heading::Straight => "直",
        Heading::Up => "上",
        Heading::Back => "引",
    }
}

/// The mark that tells a move apart from the others of its kind that reach
/// the same square (see `disambiguation`).
pub fn disambiguate(side: Side, from: Square, to: Square, candidates: &[Square]) -> (s: String)
    ensures
        s@ == disambiguation(side, from, to, candidates@),
{
    let n = candidates.len();
    if n <= 1 {
        return String::new();
    }
    let my_flank = flank(side, to, from);
    let my_heading = heading(side, to, from);
    let mut nf: usize = 0;
    let mut nh: usize = 0;
    let mut i: usize = 0;
    while i < n
        invariant
            i <= n == candidates@.len(),
            my_flank == flank_of(side, to, from),
            my_heading == heading_of(side, to, from),
            my_flank matches Some(f) ==> nf == count_flank(candidates@, side, to, f, i as int),
            nh == count_heading(candidates@, side, to, my_heading, i as int),
            nf <= i,
            nh <= i,
        decreases n - i,
    {
        let sq = candidates[i];
        if let Some(f) = my_flank {
            if flank(side, to, sq) == Some(f) {
                nf += 1;
            }
        }
        if heading(side, to, sq) == my_heading {
            nh += 1;
        }
        i += 1;
    }
    if let Some(f) = my_flank {
        if nf <= 1 {
            return crate::text::string_of_str(flank_str(f));
        }
    }
    if nh <= 1 {
        return crate::text::string_of_str(heading_str(my_heading));
    }
    let mut s = String::new();
    if let Some(f) = my_flank {
        push_str(&mut s, flank_str(f));
    }
    push_str(&mut s, heading_str(my_heading));
    assert(s@ =~= disambiguation(side, from, to, candidates@));
    s
}

/// The origin of a move that takes a piece of `kind` to `to`.
pub open spec fn origin_of(a: Action, pos: Position, to: Square, kind: PieceKind) -> Option<Square> {
    match a {
        Action::Move { from, to: t, .. } => if t == to && pos.board.at(from) is Some && pos.board.at(
            from,
        )->0.kind == kind {
            Some(from)
        } else {
            None
        },
        _ => None,
    }
}

/// A move without promotion that takes a piece of `kind` on the board to `to`.
pub open spec fn plain_move_of(a: Action, pos: Position, to: Square, kind: PieceKind) -> bool {
    match a {
        Action::Move { from, to: t, promote } => !promote && t == to && pos.board.at(from) is Some
            && pos.board.at(from)->0.kind == kind,
        _ => false,
    }
}

/// The origins of the moves among `legal[..n]` that take a piece of `kind` to `to`.
pub open spec fn origins(legal: Seq<Action>, pos: Position, to: Square, kind: PieceKind, n: int) -> Seq<Square>
    decreases n,
{
    if n <= 0 {
        Seq::empty()
    } else {
        let prev = origins(legal, pos, to, kind, n - 1);
        match origin_of(legal[n - 1], pos, to, kind) {
            Some(f) => prev.push(f),
            None => prev,
        }
    }
}

/// Some move among `legal`, without promotion, takes a piece of `kind` to `to`.
pub open spec fn board_piece_reaches(legal: Seq<Action>, pos: Position, to: Square, kind: PieceKind) -> bool {
    exists|i: int| 0 <= i < legal.len() && plain_move_of(#[trigger] legal[i], pos, to, kind)
}

/// The Japanese notation of an action of `side` on `pos`, given the legal
/// actions there: 投了 for a resignation; for a drop, the square and the
/// kind, with 打 when a piece of that kind on the board could also move
/// there; for a move, the square, the kind, the mark that tells it apart,
/// then 成 for a promotion or 不成 when it could have promoted. A move from
/// an empty square is written in USI.
pub open spec fn notation(action: Action, side: Side, legal: Seq<Action>, pos: Position) -> Seq<char> {
    match action {
        Action::Resign => "投了"@,
        Action::Drop { kind, to } => square_name(to) + piece_name(kind) + if board_piece_reaches(
            legal,
            pos,
            to,
            kind,
        ) {
            "打"@
        } else {
            Seq::empty()
        },
        Action::Move { from, to, promote } => match pos.board.at(from) {
            None => usi_action(action),
            Some(p) => {
                let cands = origins(legal, pos, to, p.kind, legal.len() as int);
                let suffix = if promote {
                    "成"@
                } else if p.kind.can_promote() && (promo_zone(side, from) || promo_zone(side, to)) {
                    "不成"@
                } else {
                    Seq::empty()
                };
                square_name(to) + piece_name(p.kind) + disambiguation(side, from, to, cands)
                    + suffix
            },
        },
    }
}

/// The Japanese notation of an action (see `notation`).
pub fn ja_notation(action: &Action, side: Side, legal_actions: &[Action], pos: &Position) -> (s: String)
    requires
        action.wf(),
        forall|i: int| 0 <= i < legal_actions@.len() ==> (#[trigger] legal_actions@[i]).wf(),
    ensures
        s@ == notation(*action, side, legal_actions@, *pos),
{
    match *action {
        Action::Resign => crate::text::string_of_str("投了"),
        Action::Drop { kind, to } => {
            let mut need_uchi = false;
            let mut i: usize = 0;
            while i < legal_actions.len()
                invariant
                    i <= legal_actions@.len(),
                    forall|j: int| 0 <= j < legal_actions@.len() ==> (#[trigger] legal_actions@[j]).wf(),
                    need_uchi == exists|j: int|
                        0 <= j < i && plain_move_of(#[trigger] legal_actions@[j], *pos, to, kind),
                decreases legal_actions.len() - i,
            {
                let a = legal_actions[i];
                assert(a == legal_actions@[i as int]);
                if let Action::Move { from, to: t, promote: false } = a {
                    if t == to {
                        if let Some(p) = pos.board.get(from) {
                            if p.kind == kind {
                                need_uchi = true;
                            }
                        }
                    }
                }
                i += 1;
            }
            let mut s = sq_ja(to);
            push_str(&mut s, piece_ja(kind));
            if need_uchi {
                push_str(&mut s, "打");
            }
            assert(s@ =~= notation(*action, side, legal_actions@, *pos));
            s
        },
        Action::Move { from, to, promote } => {
            let piece_kind = match pos.board.get(from) {
                Some(p) => p.kind,
                None => {
                    return action.to_usi();
                },
            };
            let mut candidates: Vec<Square> = Vec::new();
            let mut i: usize = 0;
            while i < legal_actions.len()
                invariant
                    i <= legal_actions@.len(),
                    forall|j: int| 0 <= j < legal_actions@.len() ==> (#[trigger] legal_actions@[j]).wf(),
                    candidates@ == origins(legal_actions@, *pos, to, piece_kind, i as int),
                decreases legal_actions.len() - i,
            {
                let a = legal_actions[i];
                assert(a == legal_actions@[i as int]);
                if let Action::Move { from: f, to: t, .. } = a {
                    if t == to {
                        if let Some(p) = pos.board.get(f) {
                            if p.kind == piece_kind {
                                candidates.push(f);
                            }
                        }
                    }
                }
                i += 1;
            }
            let mut s = sq_ja(to);
            push_str(&mut s, piece_ja(piece_kind));
            let d = disambiguate(side, from, to, candidates.as_slice());
            push_str(&mut s, d.as_str());
            if promote {
                push_str(&mut s, "成");
            } else if piece_kind.can_promote() && (in_promo_zone(side, from) || in_promo_zone(side, to)) {
                push_str(&mut s, "不成");
            }
            assert(s@ =~= notation(*action, side, legal_actions@, *pos));
            s
        },
    }
}

/// A mark is added only when needed: a move that no other piece of its kind
/// could make gets none.
pub proof fn lemma_single_candidate_no_mark(side: Side, from: Square, to: Square, candidates: Seq<Square>)
    requires
        candidates.len() <= 1,
    ensures
        disambiguation(side, from, to, candidates) == Seq::<char>::empty(),
{
}

/// The square at the same place on the board turned half round, as the
/// other camp sees it.
pub open spec fn turned(sq: Square) -> Square {
    Square::spec_new(10 - sq.sfile(), 10 - sq.srank())
}

proof fn lemma_square_of(f: int, r: int)
    requires
        1 <= f <= 9,
        1 <= r <= 9,
    ensures
        Square::spec_new(f, r).wf(),
        Square::spec_new(f, r).sfile() == f,
        Square::spec_new(f, r).srank() == r,
{
    let i = (f - 1) * 9 + (r - 1);
    assert(0 <= i < 81);
    assert(i / 9 == f - 1);
    assert(i % 9 == r - 1);
}

proof fn lemma_on_board(sq: Square)
    requires
        sq.wf(),
    ensures
        1 <= sq.sfile() <= 9,
        1 <= sq.srank() <= 9,
{
}

/// Directions are each camp's own: a move of one camp reads, in heading and
/// in flank, as the same move of the other camp on the board turned half round.
pub proof fn lemma_notation_turns(side: Side, to: Square, sq: Square)
    requires
        to.wf(),
        sq.wf(),
    ensures
        heading_of(side.opposite(), turned(to), turned(sq)) == heading_of(side, to, sq),
        flank_of(side.opposite(), turned(to), turned(sq)) == flank_of(side, to, sq),
{
    lemma_on_board(to);
    lemma_on_board(sq);
    lemma_square_of(10 - to.sfile(), 10 - to.srank());
    lemma_square_of(10 - sq.sfile(), 10 - sq.srank());
}

/// A pawn's step is straight ahead (直), and the step back along a silver's
/// rear diagonal is a retreat (引), for either camp.
pub proof fn lemma_heading_follows_movement(side: Side, sq: Square, to: Square)
    requires
        sq.wf(),
        to.wf(),
    ensures
        to.sfile() == sq.sfile() + step_dirs(PieceKind::Pawn, side)[0].0 && to.srank()
            == sq.srank() + step_dirs(PieceKind::Pawn, side)[0].1 ==> heading_of(side, to, sq)
            == Heading::Straight,
        to.sfile() == sq.sfile() + step_dirs(PieceKind::Silver, side)[3].0 && to.srank()
            == sq.srank() + step_dirs(PieceKind::Silver, side)[3].1 ==> heading_of(side, to, sq)
            == Heading::Back,
{
}

/// Seen from sente's seat, file 1 is on the right: a sente piece coming from
/// a lower file than the destination is 右, from a higher file 左; none on the
/// same file. (Gote's follow by `lemma_notation_turns`.)
pub proof fn lemma_sente_flanks(to: Square, sq: Square)
    ensures
        sq.sfile() < to.sfile() ==> flank_of(Side::Sente, to, sq) == Some(Flank::Right),
        sq.sfile() > to.sfile() ==> flank_of(Side::Sente, to, sq) == Some(Flank::Left),
        sq.sfile() == to.sfile() ==> flank_of(Side::Sente, to, sq) is None,
{
}

} // verus!
