use vstd::prelude::*;

use crate::text::{
    chars_of, first_index, is_first_index, lemma_first_index, push_char, push_str, split_index,
};

verus! {

/// A camp. "Sente" and "Gote" are only labels: both camps move at once.
#[derive(Debug, Clone, Copy, PartialEq, Eq, Hash, Structural)]
pub enum Side {
    Sente,
    Gote,
}

impl Side {
    #[verifier::allow_in_spec]
    pub fn opposite(self) -> Self
        returns
            (match self {
                Side::Sente => Side::Gote,
                Side::Gote => Side::Sente,
            }),
    {
        match self {
            Side::Sente => Side::Gote,
            Side::Gote => Side::Sente,
        }
    }
}

/// The fourteen kinds of piece: eight base kinds and six promoted ones.
#[derive(Debug, Clone, Copy, PartialEq, Eq, Hash, Structural)]
pub enum PieceKind {
    Pawn,
    Lance,
    Knight,
    Silver,
    Gold,
    Bishop,
    Rook,
    King,
    ProPawn,
    ProLance,
    ProKnight,
    ProSilver,
    Horse,
    Dragon,
}

impl PieceKind {
    /// Whether the kind can promote (gold and king cannot; promoted kinds cannot).
    #[verifier::allow_in_spec]
    pub fn can_promote(self) -> bool
        returns
            (match self {
                PieceKind::Pawn | PieceKind::Lance | PieceKind::Knight | PieceKind::Silver
                | PieceKind::Bishop | PieceKind::Rook => true,
                _ => false,
            }),
    {
        match self {
            PieceKind::Pawn | PieceKind::Lance | PieceKind::Knight | PieceKind::Silver
            | PieceKind::Bishop | PieceKind::Rook => true,
            _ => false,
        }
    }

    /// The promoted kind of a promotable kind.
    #[verifier::allow_in_spec]
    pub fn promoted(self) -> Self
        requires
            self.can_promote(),
        returns
            (match self {
                PieceKind::Pawn => PieceKind::ProPawn,
                PieceKind::Lance => PieceKind::ProLance,
                PieceKind::Knight => PieceKind::ProKnight,
                PieceKind::Silver => PieceKind::ProSilver,
                PieceKind::Bishop => PieceKind::Horse,
                _ => PieceKind::Dragon,
            }),
    {
        match self {
            PieceKind::Pawn => PieceKind::ProPawn,
            PieceKind::Lance => PieceKind::ProLance,
            PieceKind::Knight => PieceKind::ProKnight,
            PieceKind::Silver => PieceKind::ProSilver,
            PieceKind::Bishop => PieceKind::Horse,
            _ => PieceKind::Dragon,
        }
    }

    /// The base kind: promoted kinds revert, the others stay.
    #[verifier::allow_in_spec]
    pub fn unpromoted(self) -> Self
        returns
            (match self {
                PieceKind::ProPawn => PieceKind::Pawn,
                PieceKind::ProLance => PieceKind::Lance,
                PieceKind::ProKnight => PieceKind::Knight,
                PieceKind::ProSilver => PieceKind::Silver,
                PieceKind::Horse => PieceKind::Bishop,
                PieceKind::Dragon => PieceKind::Rook,
                other => other,
            }),
    {
        match self {
            PieceKind::ProPawn => PieceKind::Pawn,
            PieceKind::ProLance => PieceKind::Lance,
            PieceKind::ProKnight => PieceKind::Knight,
            PieceKind::ProSilver => PieceKind::Silver,
            PieceKind::Horse => PieceKind::Bishop,
            PieceKind::Dragon => PieceKind::Rook,
            other => other,
        }
    }

    /// Whether the kind is one of the six promoted kinds.
    #[verifier::allow_in_spec]
    pub fn is_promoted(self) -> bool
        returns
            (match self {
                PieceKind::ProPawn | PieceKind::ProLance | PieceKind::ProKnight
                | PieceKind::ProSilver | PieceKind::Horse | PieceKind::Dragon => true,
                _ => false,
            }),
    {
        match self {
            PieceKind::ProPawn | PieceKind::ProLance | PieceKind::ProKnight
            | PieceKind::ProSilver | PieceKind::Horse | PieceKind::Dragon => true,
            _ => false,
        }
    }

    /// The upper-case USI letter of the kind (a promoted kind shares its base letter).
    #[verifier::allow_in_spec]
    pub fn usi_char(self) -> char
        returns
            (match self {
                PieceKind::Pawn | PieceKind::ProPawn => 'P',
                PieceKind::Lance | PieceKind::ProLance => 'L',
                PieceKind::Knight | PieceKind::ProKnight => 'N',
                PieceKind::Silver | PieceKind::ProSilver => 'S',
                PieceKind::Gold => 'G',
                PieceKind::Bishop | PieceKind::Horse => 'B',
                PieceKind::Rook | PieceKind::Dragon => 'R',
                PieceKind::King => 'K',
            }),
    {
        match self {
            PieceKind::Pawn | PieceKind::ProPawn => 'P',
            PieceKind::Lance | PieceKind::ProLance => 'L',
            PieceKind::Knight | PieceKind::ProKnight => 'N',
            PieceKind::Silver | PieceKind::ProSilver => 'S',
            PieceKind::Gold => 'G',
            PieceKind::Bishop | PieceKind::Horse => 'B',
            PieceKind::Rook | PieceKind::Dragon => 'R',
            PieceKind::King => 'K',
        }
    }
}

/// One piece on the board.
#[derive(Debug, Clone, Copy, PartialEq, Eq, Hash, Structural)]
pub struct Piece {
    pub kind: PieceKind,
    pub side: Side,
}

impl Piece {
    pub fn new(kind: PieceKind, side: Side) -> (p: Self)
        ensures
            p == (Piece { kind, side }),
    {
        Self { kind, side }
    }
}

/// A square of the board, kept as the index `(file - 1) * 9 + (rank - 1)`.
/// Files and ranks run from 1 to 9 (USI ranks `a` to `i`).
#[derive(Debug, Clone, Copy, PartialEq, Eq, Hash, Structural)]
pub struct Square(u8);

impl Square {
    /// The index of the square.
    pub closed spec fn idx(self) -> int {
        self.0 as int
    }

    /// The square with a given index (meaningful for `0 <= i < 256`).
    pub closed spec fn at(i: int) -> Square {
        Square(i as u8)
    }

    /// A square is on the board when its index is below 81.
    pub open spec fn wf(self) -> bool {
        self.idx() < 81
    }

    pub open spec fn sfile(self) -> int {
        self.idx() / 9 + 1
    }

    pub open spec fn srank(self) -> int {
        self.idx() % 9 + 1
    }

    /// The square at a file and a rank.
    pub open spec fn spec_new(file: int, rank: int) -> Square {
        Square::at((file - 1) * 9 + (rank - 1))
    }

    pub fn new(file: u8, rank: u8) -> (sq: Self)
        requires
            1 <= file <= 9,
            1 <= rank <= 9,
        ensures
            sq == Square::spec_new(file as int, rank as int),
            sq.wf(),
            sq.sfile() == file,
            sq.srank() == rank,
    {
        Self((file - 1) * 9 + (rank - 1))
    }

    pub fn from_index(idx: u8) -> (sq: Self)
        requires
            idx < 81,
        ensures
            sq.idx() == idx,
    {
        Self(idx)
    }

    pub fn index(self) -> (i: u8)
        ensures
            i == self.idx(),
    {
        self.0
    }

    /// The file, 1 to 9.
    pub fn file(self) -> (f: u8)
        ensures
            f == self.sfile(),
    {
        self.0 / 9 + 1
    }

    /// The rank, 1 to 9.
    pub fn rank(self) -> (r: u8)
        ensures
            r == self.srank(),
    {
        self.0 % 9 + 1
    }

    /// The USI text of the square, such as `7g`.
    pub fn to_usi(self) -> (s: String)
        requires
            self.wf(),
        ensures
            s@ == usi_square(self),
    {
        let mut s = String::new();
        push_char(&mut s, digit_char(self.file() as u32));
        push_char(&mut s, rank_char(self.rank()));
        s
    }

    /// Parses the USI text of a square from its first two characters.
    pub fn from_usi(s: &str) -> (r: Option<Self>)
        ensures
            r == parse_square(s@),
            r matches Some(sq) ==> sq.wf(),
    {
        let v = chars_of(s);
        square_from_chars(&v)
    }
}


/// What one camp does in a turn: move a piece, drop a piece from hand, or resign.
#[derive(Debug, Clone, Copy, PartialEq, Eq, Hash, Structural)]
pub enum Action {
    /// Move the piece on `from` to `to`, promoting it if `promote`.
    Move { from: Square, to: Square, promote: bool },
    /// Drop a piece of `kind` from hand onto `to`.
    Drop { kind: PieceKind, to: Square },
    /// Resign (a declaration, not a board action).
    Resign,
}

impl Action {
    /// The squares of the action are on the board, and a dropped kind is a base kind.
    pub open spec fn wf(self) -> bool {
        match self {
            Action::Move { from, to, .. } => from.wf() && to.wf(),
            Action::Drop { kind, to } => to.wf() && !kind.is_promoted(),
            Action::Resign => true,
        }
    }

    /// The destination square of a move or a drop.
    #[verifier::allow_in_spec]
    pub fn to_sq(self) -> Square
        requires
            !(self is Resign),
        returns
            (match self {
                Action::Move { to, .. } => to,
                Action::Drop { to, .. } => to,
                Action::Resign => Square::at(0),
            }),
    {
        match self {
            Action::Move { to, .. } => to,
            Action::Drop { to, .. } => to,
            Action::Resign => Square(0),
        }
    }

    /// The origin square of a move; `None` for a drop or a resignation.
    #[verifier::allow_in_spec]
    pub fn from_sq(self) -> Option<Square>
        returns
            (match self {
                Action::Move { from, .. } => Some(from),
                _ => None,
            }),
    {
        match self {
            Action::Move { from, .. } => Some(from),
            _ => None,
        }
    }

    /// Whether the action is a resignation.
    #[verifier::allow_in_spec]
    pub fn is_resign(self) -> bool
        returns
            self is Resign,
    {
        match self {
            Action::Resign => true,
            _ => false,
        }
    }

    /// The USI text of the action (`7g7f`, `7g7f+`, `P*5e`, `resign`).
    pub fn to_usi(self) -> (s: String)
        requires
            self.wf(),
        ensures
            s@ == usi_action(self),
    {
        match self {
            Action::Move { from, to, promote } => {
                let mut s = from.to_usi();
                let t = to.to_usi();
                push_str(&mut s, t.as_str());
                if promote {
                    push_char(&mut s, '+');
                }
                s
            },
            Action::Drop { kind, to } => {
                let mut s = String::new();
                push_char(&mut s, kind.usi_char());
                push_char(&mut s, '*');
                let t = to.to_usi();
                push_str(&mut s, t.as_str());
                s
            },
            Action::Resign => {
                let mut s = String::new();
                push_char(&mut s, 'r');
                push_char(&mut s, 'e');
                push_char(&mut s, 's');
                push_char(&mut s, 'i');
                push_char(&mut s, 'g');
                push_char(&mut s, 'n');
                s
            },
        }
    }

    /// Parses the USI text of an action.
    pub fn from_usi(s: &str) -> (r: Option<Self>)
        ensures
            r == parse_action(s@),
            r matches Some(a) ==> a.wf(),
    {
        let v = chars_of(s);
        action_from_chars(&v)
    }
}

/// The characters of `resign`.
pub open spec fn resign_chars() -> Seq<char> {
    seq!['r', 'e', 's', 'i', 'g', 'n']
}

/// The USI text of an action.
pub open spec fn usi_action(a: Action) -> Seq<char> {
    match a {
        Action::Move { from, to, promote } => usi_square(from) + usi_square(to) + (if promote {
            seq!['+']
        } else {
            Seq::empty()
        }),
        Action::Drop { kind, to } => seq![kind.usi_char(), '*'] + usi_square(to),
        Action::Resign => resign_chars(),
    }
}

/// The base kind named by a USI letter, in either case.
pub open spec fn kind_of_char(c: char) -> Option<PieceKind> {
    if c == 'P' || c == 'p' {
        Some(PieceKind::Pawn)
    } else if c == 'L' || c == 'l' {
        Some(PieceKind::Lance)
    } else if c == 'N' || c == 'n' {
        Some(PieceKind::Knight)
    } else if c == 'S' || c == 's' {
        Some(PieceKind::Silver)
    } else if c == 'G' || c == 'g' {
        Some(PieceKind::Gold)
    } else if c == 'B' || c == 'b' {
        Some(PieceKind::Bishop)
    } else if c == 'R' || c == 'r' {
        Some(PieceKind::Rook)
    } else if c == 'K' || c == 'k' {
        Some(PieceKind::King)
    } else {
        None
    }
}

pub(crate) fn kind_from_char(c: char) -> (r: Option<PieceKind>)
    ensures
        r == kind_of_char(c),
{
    if c == 'P' || c == 'p' {
        Some(PieceKind::Pawn)
    } else if c == 'L' || c == 'l' {
        Some(PieceKind::Lance)
    } else if c == 'N' || c == 'n' {
        Some(PieceKind::Knight)
    } else if c == 'S' || c == 's' {
        Some(PieceKind::Silver)
    } else if c == 'G' || c == 'g' {
        Some(PieceKind::Gold)
    } else if c == 'B' || c == 'b' {
        Some(PieceKind::Bishop)
    } else if c == 'R' || c == 'r' {
        Some(PieceKind::Rook)
    } else if c == 'K' || c == 'k' {
        Some(PieceKind::King)
    } else {
        None
    }
}

/// The action that a USI text names: `resign`; a drop `X*sq` (kind from the
/// first character before the first `*`, square from the first two after it);
/// or a move of two squares with an optional final `+`.
pub open spec fn parse_action(s: Seq<char>) -> Option<Action> {
    if s == resign_chars() {
        Some(Action::Resign)
    } else if s.contains('*') {
        let i = first_index(s, '*');
        let ks = s.take(i);
        let ss = s.skip(i + 1);
        if ks.len() > 0 {
            match (kind_of_char(ks[0]), parse_square(ss)) {
                (Some(kind), Some(to)) => Some(Action::Drop { kind, to }),
                _ => None,
            }
        } else {
            None
        }
    } else {
        let promote = s.len() > 0 && s.last() == '+';
        let t = if promote { s.drop_last() } else { s };
        if t.len() < 4 {
            None
        } else {
            match (parse_square(t.take(2)), parse_square(t.skip(2))) {
                (Some(from), Some(to)) => Some(Action::Move { from, to, promote }),
                _ => None,
            }
        }
    }
}

fn is_resign_chars(v: &[char]) -> (b: bool)
    ensures
        b == (v@ == resign_chars()),
{
    if v.len() != 6 {
        return false;
    }
    let b = v[0] == 'r' && v[1] == 'e' && v[2] == 's' && v[3] == 'i' && v[4] == 'g' && v[5] == 'n';
    proof {
        if b {
            assert(v@ =~= resign_chars());
        }
    }
    b
}

pub(crate) fn action_from_chars(v: &[char]) -> (r: Option<Action>)
    ensures
        r == parse_action(v@),
        r matches Some(a) ==> a.wf(),
{
    if is_resign_chars(v) {
        return Some(Action::Resign);
    }
    match split_index(v, '*') {
        Some(i) => {
            if i == 0 {
                return None;
            }
            let kind = match kind_from_char(v[0]) {
                Some(k) => k,
                None => {
                    return None;
                },
            };
            let ss = vstd::slice::slice_subrange(v, i + 1, v.len());
            assert(ss@ == v@.skip(i + 1));
            match square_from_chars(ss) {
                Some(to) => Some(Action::Drop { kind, to }),
                None => None,
            }
        },
        None => {
            let promote = v.len() > 0 && v[v.len() - 1] == '+';
            let n = if promote { v.len() - 1 } else { v.len() };
            let ghost t = if promote { v@.drop_last() } else { v@ };
            assert(t == v@.take(n as int));
            if n < 4 {
                return None;
            }
            let a = vstd::slice::slice_subrange(v, 0, 2);
            let b = vstd::slice::slice_subrange(v, 2, n);
            assert(a@ == t.take(2));
            assert(b@ == t.skip(2));
            match square_from_chars(a) {
                Some(from) => match square_from_chars(b) {
                    Some(to) => Some(Action::Move { from, to, promote }),
                    None => None,
                },
                None => None,
            }
        },
    }
}

proof fn lemma_square_text(sq: Square)
    requires
        sq.wf(),
    ensures
        parse_square(usi_square(sq)) == Some(sq),
        usi_square(sq).len() == 2,
        '1' <= usi_square(sq)[0] <= '9',
        'a' <= usi_square(sq)[1] <= 'i',
{
    let f = sq.sfile();
    let r = sq.srank();
    assert((f - 1) * 9 + (r - 1) == sq.idx());
}

/// Reading back the USI text of an action gives the action again.
pub proof fn lemma_usi_roundtrip(a: Action)
    requires
        a.wf(),
    ensures
        parse_action(usi_action(a)) == Some(a),
{
    let s = usi_action(a);
    match a {
        Action::Move { from, to, promote } => {
            lemma_square_text(from);
            lemma_square_text(to);
            let t = usi_square(from) + usi_square(to);
            assert(!s.contains('*')) by {
                if s.contains('*') {
                    let j = choose|j: int| 0 <= j < s.len() && s[j] == '*';
                    assert(j < 4 ==> s[j] == t[j]);
                }
            }
            assert(s != resign_chars()) by {
                assert(s.len() != 6);
            }
            if promote {
                assert(s.drop_last() =~= t);
            } else {
                assert(s =~= t);
            }
            assert(t.take(2) =~= usi_square(from));
            assert(t.skip(2) =~= usi_square(to));
        },
        Action::Drop { kind, to } => {
            lemma_square_text(to);
            assert(s.len() == 4);
            assert(s != resign_chars()) by {
                assert(s.len() != 6);
            }
            assert(is_first_index(s, '*', 1));
            lemma_first_index(s, '*', 1);
            assert(s.skip(2) =~= usi_square(to));
            assert(s.take(1)[0] == kind.usi_char());
        },
        Action::Resign => {},
    }
}


/// Two characters that name a square: a file digit `1`-`9`, a rank letter `a`-`i`.
pub open spec fn square_chars(a: char, b: char) -> bool {
    '1' <= a <= '9' && 'a' <= b <= 'i'
}

/// A letter that names a piece kind in a drop.
pub open spec fn drop_letter(c: char) -> bool {
    c == 'P' || c == 'L' || c == 'N' || c == 'S' || c == 'G' || c == 'B' || c == 'R' || c == 'K'
}

/// USI action text in its one written form: `resign`; two squares with an
/// optional `+`; or an upper-case kind letter, `*` and a square.
pub open spec fn canonical_usi(s: Seq<char>) -> bool {
    ||| s == resign_chars()
    ||| s.len() == 4 && square_chars(s[0], s[1]) && square_chars(s[2], s[3])
    ||| s.len() == 5 && square_chars(s[0], s[1]) && square_chars(s[2], s[3]) && s[4] == '+'
    ||| s.len() == 4 && drop_letter(s[0]) && s[1] == '*' && square_chars(s[2], s[3])
}

proof fn lemma_square_chars(a: char, b: char) -> (sq: Square)
    requires
        square_chars(a, b),
    ensures
        sq.wf(),
        usi_square(sq) == seq![a, b],
{
    let sq = Square::spec_new(a as int - 48, b as int - 96);
    assert(usi_square(sq) =~= seq![a, b]);
    sq
}

/// USI text in its written form, read into an action and written again,
/// comes back unchanged.
pub proof fn lemma_usi_text_roundtrip(s: Seq<char>)
    requires
        canonical_usi(s),
    ensures
        parse_action(s) matches Some(a) && a.wf() && usi_action(a) == s,
{
    let a: Action = if s == resign_chars() {
        Action::Resign
    } else if s[1] == '*' {
        let to = lemma_square_chars(s[2], s[3]);
        Action::Drop { kind: kind_of_char(s[0])->0, to }
    } else {
        let from = lemma_square_chars(s[0], s[1]);
        let to = lemma_square_chars(s[2], s[3]);
        Action::Move { from, to, promote: s.len() == 5 }
    };
    assert(a.wf());
    assert(usi_action(a) =~= s);
    lemma_usi_roundtrip(a);
}

/// A character of USI action text: a digit, a letter, `+` or `*`.
pub open spec fn usi_text_char(c: char) -> bool {
    ('0' <= c <= '9') || ('a' <= c <= 'z') || ('A' <= c <= 'Z') || c == '+' || c == '*'
}

/// The USI text of an action is not empty, and holds only digits, letters,
/// `+` and `*`, beginning and ending with a digit or a letter.
pub proof fn lemma_usi_chars(a: Action)
    requires
        a.wf(),
    ensures
        usi_action(a).len() > 0,
        forall|k: int| 0 <= k < usi_action(a).len() ==> usi_text_char(#[trigger] usi_action(a)[k]),
        usi_action(a)[0] != '+' && usi_action(a)[0] != '*',
        usi_action(a).last() != '*',
{
    let s = usi_action(a);
    match a {
        Action::Move { from, to, promote } => {
            lemma_square_text(from);
            lemma_square_text(to);
            let t = usi_square(from) + usi_square(to);
            assert(t.len() == 4);
            assert forall|k: int| 0 <= k < s.len() implies usi_text_char(#[trigger] s[k]) by {
                if k < 4 {
                    assert(s[k] == t[k]);
                    if k < 2 {
                        assert(t[k] == usi_square(from)[k]);
                    } else {
                        assert(t[k] == usi_square(to)[k - 2]);
                    }
                }
            }
            assert(s[0] == usi_square(from)[0]);
        },
        Action::Drop { kind, to } => {
            lemma_square_text(to);
            assert(s.len() == 4);
            assert forall|k: int| 0 <= k < s.len() implies usi_text_char(#[trigger] s[k]) by {
                if k >= 2 {
                    assert(s[k] == usi_square(to)[k - 2]);
                }
            }
            assert(s.last() == usi_square(to)[1]);
        },
        Action::Resign => {},
    }
}

/// Both camps' actions in one turn.
#[derive(Debug, Clone, Copy, PartialEq, Eq, Structural)]
pub struct Ply {
    pub sente: Action,
    pub gote: Action,
}

pub broadcast proof fn lemma_square_idx(sq: Square)
    ensures
        0 <= #[trigger] sq.idx() < 256,
        Square::at(sq.idx()) == sq,
{
}

pub broadcast proof fn lemma_square_at(i: int)
    requires
        0 <= i < 256,
    ensures
        (#[trigger] Square::at(i)).idx() == i,
{
}

/// An action read from USI text is well formed.
pub proof fn lemma_parse_action_wf(s: Seq<char>)
    ensures
        parse_action(s) matches Some(a) ==> a.wf(),
{
    broadcast use group_square;

    if let Some(a) = parse_action(s) {
        match a {
            Action::Move { from, to, .. } => {
                let promote = s.len() > 0 && s.last() == '+';
                let t = if promote { s.drop_last() } else { s };
                let x = t.take(2);
                let y = t.skip(2);
                assert(0 <= (x[0] as int - 49) * 9 + (x[1] as int - 97) < 81);
                assert(0 <= (y[0] as int - 49) * 9 + (y[1] as int - 97) < 81);
            },
            Action::Drop { kind, to } => {
                let i = first_index(s, '*');
                let ss = s.skip(i + 1);
                assert(0 <= (ss[0] as int - 49) * 9 + (ss[1] as int - 97) < 81);
            },
            Action::Resign => {},
        }
    }
}

pub broadcast group group_square {
    lemma_square_idx,
    lemma_square_at,
}

/// The character of a decimal digit `0..=9`.
pub open spec fn spec_digit_char(d: int) -> char {
    (48 + d) as char
}

pub(crate) fn digit_char(d: u32) -> (c: char)
    requires
        d < 10,
    ensures
        c == spec_digit_char(d as int),
{
    (48u8 + d as u8) as char
}

/// The USI letter of a rank: `a` for 1 up to `i` for 9.
pub open spec fn spec_rank_char(r: int) -> char {
    (96 + r) as char
}

fn rank_char(r: u8) -> (c: char)
    requires
        1 <= r <= 9,
    ensures
        c == spec_rank_char(r as int),
{
    (96u8 + r) as char
}

/// The USI text of a square: its file digit, then its rank letter.
pub open spec fn usi_square(sq: Square) -> Seq<char> {
    seq![spec_digit_char(sq.sfile()), spec_rank_char(sq.srank())]
}

/// The square named by the first two characters of `s`, if they are a file
/// digit `1`-`9` and a rank letter `a`-`i`.
pub open spec fn parse_square(s: Seq<char>) -> Option<Square> {
    if s.len() >= 2 && '1' <= s[0] <= '9' && 'a' <= s[1] <= 'i' {
        Some(Square::spec_new(s[0] as int - 48, s[1] as int - 96))
    } else {
        None
    }
}

pub(crate) fn square_from_chars(v: &[char]) -> (r: Option<Square>)
    ensures
        r == parse_square(v@),
        r matches Some(sq) ==> sq.wf(),
{
    if v.len() < 2 {
        return None;
    }
    let f = v[0];
    let k = v[1];
    if '1' <= f && f <= '9' && 'a' <= k && k <= 'i' {
        let file = (f as u32 - 48) as u8;
        let rank = (k as u32 - 96) as u8;
        Some(Square::new(file, rank))
    } else {
        None
    }
}

} // verus!
