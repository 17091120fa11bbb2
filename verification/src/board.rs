use vstd::prelude::*;
use vstd::array::*;

use crate::types::{group_square, Piece, PieceKind, Side, Square};

verus! {

broadcast use {group_square, group_array_axioms};

/// The 9x9 board, one cell per square index.
#[derive(Debug, Clone, Copy, PartialEq, Eq, Hash)]
pub struct Board {
    squares: [Option<Piece>; 81],
}

impl Board {
    /// The cells of the board, by square index.
    pub closed spec fn cells(self) -> Seq<Option<Piece>> {
        self.squares@
    }

    /// What stands on a square.
    pub open spec fn at(self, sq: Square) -> Option<Piece> {
        self.cells()[sq.idx()]
    }

    /// The board with one square changed.
    pub closed spec fn with_cell(self, sq: Square, p: Option<Piece>) -> Board {
        Board { squares: spec_array_update(self.squares, sq.idx(), p) }
    }

    /// The board with no piece on it.
    pub closed spec fn spec_empty() -> Board {
        Board { squares: spec_array_fill_for_copy_type::<Option<Piece>, 81>(None) }
    }

    pub fn empty() -> (b: Self)
        ensures
            forall|i: int| 0 <= i < 81 ==> (#[trigger] b.cells()[i]) is None,
            b == Board::spec_empty(),
    {
        Self { squares: [None; 81] }
    }

    pub fn get(&self, sq: Square) -> (p: Option<Piece>)
        requires
            sq.wf(),
        ensures
            p == self.at(sq),
    {
        self.squares[sq.index() as usize]
    }

    pub fn set(&mut self, sq: Square, piece: Option<Piece>)
        requires
            sq.wf(),
        ensures
            final(self).cells() == old(self).cells().update(sq.idx(), piece),
            *final(self) == old(self).with_cell(sq, piece),
    {
        let i = sq.index() as usize;
        self.squares[i] = piece;
        assert(self.squares =~= old(self).with_cell(sq, piece).squares);
    }

    /// The occupied squares with their pieces, in index order.
    pub fn iter(&self) -> (v: Vec<(Square, Piece)>)
        ensures
            forall|k: int|
                0 <= k < v@.len() ==> (#[trigger] v@[k]).0.wf() && self.at(v@[k].0) == Some(
                    v@[k].1,
                ),
            forall|sq: Square| #[trigger]
                self.at(sq) is Some && sq.wf() ==> exists|k: int|
                    0 <= k < v@.len() && (#[trigger] v@[k]) == (sq, self.at(sq)->0),
            forall|j: int, k: int|
                0 <= j < k < v@.len() ==> (#[trigger] v@[j]).0.idx() < (#[trigger] v@[k]).0.idx(),
    {
        let mut v: Vec<(Square, Piece)> = Vec::new();
        let mut i: u8 = 0;
        while i < 81
            invariant
                i <= 81,
                forall|k: int|
                    0 <= k < v@.len() ==> (#[trigger] v@[k]).0.wf() && v@[k].0.idx() < i
                        && self.at(v@[k].0) == Some(v@[k].1),
                forall|sq: Square| #[trigger]
                    self.at(sq) is Some && sq.idx() < i ==> exists|k: int|
                        0 <= k < v@.len() && (#[trigger] v@[k]) == (sq, self.at(sq)->0),
                forall|j: int, k: int|
                    0 <= j < k < v@.len() ==> (#[trigger] v@[j]).0.idx() < (#[trigger] v@[
                        k
                    ]).0.idx(),
            decreases 81 - i,
        {
            let sq = Square::from_index(i);
            let ghost old_v = v@;
            if let Some(p) = self.squares[i as usize] {
                v.push((sq, p));
                assert(v@[v@.len() - 1] == (sq, p));
            }
            proof {
                assert forall|s: Square| #[trigger]
                    self.at(s) is Some && s.idx() < i + 1 implies exists|k: int|
                    0 <= k < v@.len() && (#[trigger] v@[k]) == (s, self.at(s)->0) by {
                    if s.idx() == i {
                        assert(Square::at(s.idx()) == s);
                        assert(v@[v@.len() - 1] == (s, self.at(s)->0));
                    } else {
                        let k = choose|k: int|
                            0 <= k < old_v.len() && (#[trigger] old_v[k]) == (s, self.at(s)->0);
                        assert(v@[k] == old_v[k]);
                    }
                }
            }
            i += 1;
        }
        v
    }
}

pub broadcast proof fn lemma_board_cells(b: Board)
    ensures
        (#[trigger] b.cells()).len() == 81,
{
}

pub broadcast proof fn lemma_board_with_cell(b: Board, sq: Square, p: Option<Piece>)
    requires
        sq.wf(),
    ensures
        (#[trigger] b.with_cell(sq, p)).cells() == b.cells().update(sq.idx(), p),
{
}

pub broadcast proof fn lemma_board_ext(a: Board, b: Board)
    requires
        a.cells() == b.cells(),
    ensures
        #[trigger] a.cells() == #[trigger] b.cells() ==> a == b,
{
    assert(a.squares@ == b.squares@);
    assert(a.squares =~= b.squares);
}

/// The slot of a kind in a hand: pawn, lance, knight, silver, gold, bishop, rook.
/// Kings and promoted kinds have none.
pub open spec fn hand_slot(kind: PieceKind) -> Option<int> {
    match kind {
        PieceKind::Pawn => Some(0),
        PieceKind::Lance => Some(1),
        PieceKind::Knight => Some(2),
        PieceKind::Silver => Some(3),
        PieceKind::Gold => Some(4),
        PieceKind::Bishop => Some(5),
        PieceKind::Rook => Some(6),
        _ => None,
    }
}

/// Whether a kind can be held in hand.
pub open spec fn is_hand_kind(kind: PieceKind) -> bool {
    hand_slot(kind) is Some
}

/// The kind held in a hand slot.
pub open spec fn slot_kind(i: int) -> PieceKind {
    if i == 0 {
        PieceKind::Pawn
    } else if i == 1 {
        PieceKind::Lance
    } else if i == 2 {
        PieceKind::Knight
    } else if i == 3 {
        PieceKind::Silver
    } else if i == 4 {
        PieceKind::Gold
    } else if i == 5 {
        PieceKind::Bishop
    } else {
        PieceKind::Rook
    }
}

fn hand_index(kind: PieceKind) -> (r: Option<usize>)
    ensures
        match hand_slot(kind) {
            Some(i) => r == Some(i as usize),
            None => r is None,
        },
{
    match kind {
        PieceKind::Pawn => Some(0),
        PieceKind::Lance => Some(1),
        PieceKind::Knight => Some(2),
        PieceKind::Silver => Some(3),
        PieceKind::Gold => Some(4),
        PieceKind::Bishop => Some(5),
        PieceKind::Rook => Some(6),
        _ => None,
    }
}

/// Pieces in hand: a count for each of the seven kinds that can be dropped.
#[derive(Debug, Clone, Copy, PartialEq, Eq, Hash)]
pub struct Hand {
    counts: [u8; 7],
}

impl Hand {
    /// The counts, by slot.
    pub closed spec fn counts(self) -> Seq<u8> {
        self.counts@
    }

    /// How many pieces of a kind the hand holds (0 for kinds without a slot).
    pub open spec fn spec_count(self, kind: PieceKind) -> nat {
        match hand_slot(kind) {
            Some(i) => self.counts()[i] as nat,
            None => 0,
        }
    }

    /// The hand with one more piece of a kind.
    pub closed spec fn spec_add(self, kind: PieceKind) -> Hand {
        let i = hand_slot(kind)->0;
        Hand { counts: spec_array_update(self.counts, i, (self.counts@[i] + 1) as u8) }
    }

    /// The hand with one piece of a kind less.
    pub closed spec fn spec_remove(self, kind: PieceKind) -> Hand {
        let i = hand_slot(kind)->0;
        Hand { counts: spec_array_update(self.counts, i, (self.counts@[i] - 1) as u8) }
    }

    /// The hand can take one more piece of every kind.
    pub open spec fn has_room(self) -> bool {
        forall|i: int| 0 <= i < 7 ==> #[trigger] self.counts()[i] < 255
    }

    /// The hand that holds nothing.
    pub closed spec fn spec_empty() -> Hand {
        Hand { counts: spec_array_fill_for_copy_type::<u8, 7>(0) }
    }

    pub fn empty() -> (h: Self)
        ensures
            forall|i: int| 0 <= i < 7 ==> #[trigger] h.counts()[i] == 0,
            h == Hand::spec_empty(),
    {
        Self { counts: [0; 7] }
    }

    /// The count of a kind; 0 for a king or a promoted kind.
    pub fn count(&self, kind: PieceKind) -> (n: u8)
        ensures
            n == self.spec_count(kind),
    {
        match hand_index(kind) {
            Some(i) => self.counts[i],
            None => 0,
        }
    }

    /// Adds one piece of a base kind other than the king.
    pub fn add(&mut self, kind: PieceKind)
        requires
            is_hand_kind(kind),
            old(self).spec_count(kind) < 255,
        ensures
            final(self).counts() == old(self).counts().update(
                hand_slot(kind)->0,
                (old(self).spec_count(kind) + 1) as u8,
            ),
            *final(self) == old(self).spec_add(kind),
    {
        let i = hand_index(kind).unwrap();
        let c = self.counts[i];
        self.counts[i] = c + 1;
        assert(self.counts =~= old(self).spec_add(kind).counts);
    }

    /// Removes one piece of a kind the hand holds.
    pub fn remove(&mut self, kind: PieceKind)
        requires
            is_hand_kind(kind),
            old(self).spec_count(kind) > 0,
        ensures
            final(self).counts() == old(self).counts().update(
                hand_slot(kind)->0,
                (old(self).spec_count(kind) - 1) as u8,
            ),
            *final(self) == old(self).spec_remove(kind),
    {
        let i = hand_index(kind).unwrap();
        let c = self.counts[i];
        self.counts[i] = c - 1;
        assert(self.counts =~= old(self).spec_remove(kind).counts);
    }

    /// Whether the hand holds a piece of the kind.
    pub fn has(&self, kind: PieceKind) -> (b: bool)
        ensures
            b == (self.spec_count(kind) > 0),
    {
        self.count(kind) > 0
    }

    /// The seven kinds a hand can hold, in slot order.
    pub fn kinds() -> (k: [PieceKind; 7])
        ensures
            forall|i: int| 0 <= i < 7 ==> #[trigger] k@[i] == slot_kind(i),
    {
        [
            PieceKind::Pawn,
            PieceKind::Lance,
            PieceKind::Knight,
            PieceKind::Silver,
            PieceKind::Gold,
            PieceKind::Bishop,
            PieceKind::Rook,
        ]
    }

    /// The kinds held, with their counts, in slot order.
    pub fn iter(&self) -> (v: Vec<(PieceKind, u8)>)
        ensures
            forall|k: int|
                0 <= k < v@.len() ==> (#[trigger] v@[k]).1 > 0 && is_hand_kind(v@[k].0)
                    && self.spec_count(v@[k].0) == v@[k].1,
            forall|i: int|
                0 <= i < 7 && #[trigger] self.counts()[i] > 0 ==> exists|k: int|
                    0 <= k < v@.len() && #[trigger] v@[k] == (slot_kind(i), self.counts()[i]),
    {
        let kinds = Hand::kinds();
        let mut v: Vec<(PieceKind, u8)> = Vec::new();
        let mut i: usize = 0;
        while i < 7
            invariant
                i <= 7,
                forall|j: int| 0 <= j < 7 ==> #[trigger] kinds@[j] == slot_kind(j),
                forall|k: int|
                    0 <= k < v@.len() ==> (#[trigger] v@[k]).1 > 0 && is_hand_kind(v@[k].0)
                        && self.spec_count(v@[k].0) == v@[k].1,
                forall|j: int|
                    0 <= j < i && #[trigger] self.counts()[j] > 0 ==> exists|k: int|
                        0 <= k < v@.len() && #[trigger] v@[k] == (slot_kind(j), self.counts()[j]),
            decreases 7 - i,
        {
            let c = self.counts[i];
            let ghost old_v = v@;
            if c > 0 {
                v.push((kinds[i], c));
                assert(v@[v@.len() - 1] == (slot_kind(i as int), self.counts()[i as int]));
            }
            proof {
                assert forall|j: int|
                    0 <= j < i + 1 && #[trigger] self.counts()[j] > 0 implies exists|k: int|
                    0 <= k < v@.len() && #[trigger] v@[k] == (slot_kind(j), self.counts()[j]) by {
                    if j == i {
                        assert(v@[v@.len() - 1] == (slot_kind(j), self.counts()[j]));
                    } else {
                        let k = choose|k: int|
                            0 <= k < old_v.len() && #[trigger] old_v[k] == (
                                slot_kind(j),
                                self.counts()[j],
                            );
                        assert(v@[k] == old_v[k]);
                    }
                }
            }
            i += 1;
        }
        v
    }
}

pub broadcast proof fn lemma_hand_counts(h: Hand)
    ensures
        (#[trigger] h.counts()).len() == 7,
{
}

pub broadcast proof fn lemma_hand_add(h: Hand, kind: PieceKind)
    requires
        is_hand_kind(kind),
    ensures
        (#[trigger] h.spec_add(kind)).counts() == h.counts().update(
            hand_slot(kind)->0,
            (h.spec_count(kind) + 1) as u8,
        ),
{
}

pub broadcast proof fn lemma_hand_remove(h: Hand, kind: PieceKind)
    requires
        is_hand_kind(kind),
    ensures
        (#[trigger] h.spec_remove(kind)).counts() == h.counts().update(
            hand_slot(kind)->0,
            (h.spec_count(kind) - 1) as u8,
        ),
{
}

pub broadcast proof fn lemma_hand_ext(a: Hand, b: Hand)
    ensures
        #[trigger] a.counts() == #[trigger] b.counts() ==> a == b,
{
    if a.counts() == b.counts() {
        assert(a.counts =~= b.counts);
    }
}

pub broadcast proof fn lemma_board_empty(i: int)
    requires
        0 <= i < 81,
    ensures
        (#[trigger] Board::spec_empty().cells()[i]) is None,
{
}

pub broadcast proof fn lemma_hand_empty(i: int)
    requires
        0 <= i < 7,
    ensures
        #[trigger] Hand::spec_empty().counts()[i] == 0,
{
}

pub broadcast group group_board {
    lemma_board_empty,
    lemma_hand_empty,
    lemma_board_cells,
    lemma_board_with_cell,
    lemma_hand_add,
    lemma_hand_remove,
    lemma_board_ext,
    lemma_hand_counts,
    lemma_hand_ext,
}

/// A position: the board, both hands, and the turn number (from 1).
/// There is no side to move: both camps move at once.
#[derive(Debug, Clone, Copy, PartialEq, Eq, Hash)]
pub struct Position {
    pub board: Board,
    pub hand_sente: Hand,
    pub hand_gote: Hand,
    pub move_number: u32,
}

impl Position {
    /// The hand of a camp.
    pub open spec fn spec_hand(self, side: Side) -> Hand {
        match side {
            Side::Sente => self.hand_sente,
            Side::Gote => self.hand_gote,
        }
    }

    /// The position with the hand of `side` replaced.
    pub open spec fn with_hand(self, side: Side, h: Hand) -> Position {
        match side {
            Side::Sente => Position { hand_sente: h, ..self },
            Side::Gote => Position { hand_gote: h, ..self },
        }
    }

    /// Both hands can take one more piece of every kind.
    pub open spec fn has_room(self) -> bool {
        self.hand_sente.has_room() && self.hand_gote.has_room()
    }

    pub fn hand(&self, side: Side) -> (h: &Hand)
        ensures
            *h == self.spec_hand(side),
    {
        match side {
            Side::Sente => &self.hand_sente,
            Side::Gote => &self.hand_gote,
        }
    }

    pub fn hand_mut(&mut self, side: Side) -> (h: &mut Hand)
        ensures
            *h == old(self).spec_hand(side),
            *final(self) == old(self).with_hand(side, *final(h)),
    {
        match side {
            Side::Sente => &mut self.hand_sente,
            Side::Gote => &mut self.hand_gote,
        }
    }

    /// The key of a position for repetition: the board and both hands, without
    /// the turn number.
    pub fn content_key(&self) -> (k: (Board, Hand, Hand))
        ensures
            k == (self.board, self.hand_sente, self.hand_gote),
    {
        (self.board, self.hand_sente, self.hand_gote)
    }

    /// The standard starting position, turn 1, hands empty.
    pub fn initial() -> (p: Self)
        ensures
            is_initial_position(p),
    {
        let mut board = Board::empty();
        let back = [
            PieceKind::Lance,
            PieceKind::Knight,
            PieceKind::Silver,
            PieceKind::Gold,
            PieceKind::King,
            PieceKind::Gold,
            PieceKind::Silver,
            PieceKind::Knight,
            PieceKind::Lance,
        ];
        let mut f: u8 = 1;
        while f <= 9
            invariant
                1 <= f <= 10,
                forall|j: int| 0 <= j < 9 ==> #[trigger] back@[j] == back_rank_kind(j + 1),
                forall|i: int|
                    0 <= i < 81 ==> #[trigger] board.cells()[i] == (if i / 9 + 1 < f {
                        initial_cell(i / 9 + 1, i % 9 + 1)
                    } else {
                        None
                    }),
            decreases 10 - f,
        {
            let k = back[(f - 1) as usize];
            board.set(Square::new(f, 1), Some(Piece::new(k, Side::Gote)));
            board.set(Square::new(f, 3), Some(Piece::new(PieceKind::Pawn, Side::Gote)));
            board.set(Square::new(f, 7), Some(Piece::new(PieceKind::Pawn, Side::Sente)));
            board.set(Square::new(f, 9), Some(Piece::new(k, Side::Sente)));
            if f == 8 {
                board.set(Square::new(8, 2), Some(Piece::new(PieceKind::Rook, Side::Gote)));
                board.set(Square::new(8, 8), Some(Piece::new(PieceKind::Bishop, Side::Sente)));
            }
            if f == 2 {
                board.set(Square::new(2, 2), Some(Piece::new(PieceKind::Bishop, Side::Gote)));
                board.set(Square::new(2, 8), Some(Piece::new(PieceKind::Rook, Side::Sente)));
            }
            f += 1;
        }
        let p = Position {
            board,
            hand_sente: Hand::empty(),
            hand_gote: Hand::empty(),
            move_number: 1,
        };
        p
    }
}

/// The kind on the back rank at a file: lance, knight, silver, gold, king,
/// gold, silver, knight, lance.
pub open spec fn back_rank_kind(file: int) -> PieceKind {
    if file == 1 || file == 9 {
        PieceKind::Lance
    } else if file == 2 || file == 8 {
        PieceKind::Knight
    } else if file == 3 || file == 7 {
        PieceKind::Silver
    } else if file == 4 || file == 6 {
        PieceKind::Gold
    } else {
        PieceKind::King
    }
}

/// What stands on a square of the starting position.
pub open spec fn initial_cell(file: int, rank: int) -> Option<Piece> {
    if rank == 1 {
        Some(Piece { kind: back_rank_kind(file), side: Side::Gote })
    } else if rank == 9 {
        Some(Piece { kind: back_rank_kind(file), side: Side::Sente })
    } else if rank == 3 {
        Some(Piece { kind: PieceKind::Pawn, side: Side::Gote })
    } else if rank == 7 {
        Some(Piece { kind: PieceKind::Pawn, side: Side::Sente })
    } else if rank == 2 && file == 8 {
        Some(Piece { kind: PieceKind::Rook, side: Side::Gote })
    } else if rank == 2 && file == 2 {
        Some(Piece { kind: PieceKind::Bishop, side: Side::Gote })
    } else if rank == 8 && file == 8 {
        Some(Piece { kind: PieceKind::Bishop, side: Side::Sente })
    } else if rank == 8 && file == 2 {
        Some(Piece { kind: PieceKind::Rook, side: Side::Sente })
    } else {
        None
    }
}

/// `p` is the starting position: the standard board, empty hands, turn 1.
pub open spec fn is_initial_position(p: Position) -> bool {
    &&& forall|i: int|
        0 <= i < 81 ==> #[trigger] p.board.cells()[i] == initial_cell(i / 9 + 1, i % 9 + 1)
    &&& forall|i: int| 0 <= i < 7 ==> #[trigger] p.hand_sente.counts()[i] == 0
    &&& forall|i: int| 0 <= i < 7 ==> #[trigger] p.hand_gote.counts()[i] == 0
    &&& p.move_number == 1
}

} // verus!
