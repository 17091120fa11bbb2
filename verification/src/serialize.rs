//! SFEN text for positions, the line format of turns, game records as text,
//! and the byte strings that hashing and repetition use.
//!
//! The SFEN side-to-move field does not exist in this game: it is always
//! written as `b` and ignored when read.
use vstd::prelude::*;
use vstd::utf8::encode_utf8;

use crate::board::{group_board, is_hand_kind, Board, Hand, Position};
use crate::kifu::Kifu;
use crate::text::{
    chars_of, decimal, has_prefix, is_digit, lines, lines_of, parse_u32, parse_u32_chars, parse_u8,
    push_char, push_decimal, push_str, split_all, split_index, split_on, split_once, starts_with,
    sub_vec, trim, trim_vec,
};
use crate::types::{
    group_square, kind_from_char, kind_of_char, lemma_parse_action_wf, parse_action, usi_action,
    Piece, PieceKind, Ply, Side, Square,
};

verus! {

broadcast use {group_square, group_board};

// ---------------------------------------------------------------------------
// Writing
// ---------------------------------------------------------------------------

/// The SFEN letter of a piece: upper case for sente, lower case for gote.
pub open spec fn sfen_letter(p: Piece) -> char {
    match p.side {
        Side::Sente => p.kind.usi_char(),
        Side::Gote => (p.kind.usi_char() as int + 32) as char,
    }
}

/// The SFEN text of a piece: its letter, after a `+` when it is promoted.
pub open spec fn sfen_piece(p: Piece) -> Seq<char> {
    if p.kind.is_promoted() {
        seq!['+', sfen_letter(p)]
    } else {
        seq![sfen_letter(p)]
    }
}

/// The digit for a run of `e` empty squares (nothing for none).
pub open spec fn empty_run(e: int) -> Seq<char> {
    if e > 0 {
        decimal(e as nat)
    } else {
        Seq::empty()
    }
}

/// The SFEN text of files `f` down to 1 of rank `r`, after a run of `e` empty squares.
pub open spec fn row_from(b: Board, r: int, f: int, e: int) -> Seq<char>
    decreases f,
{
    if f < 1 {
        empty_run(e)
    } else {
        match b.at(Square::spec_new(f, r)) {
            None => row_from(b, r, f - 1, e + 1),
            Some(p) => empty_run(e) + sfen_piece(p) + row_from(b, r, f - 1, 0),
        }
    }
}

/// The SFEN text of ranks `r` to 9, separated by `/`.
pub open spec fn rows_from(b: Board, r: int) -> Seq<char>
    decreases 9 - r,
{
    if r >= 9 {
        row_from(b, 9, 9, 0)
    } else {
        row_from(b, r, 9, 0) + seq!['/'] + rows_from(b, r + 1)
    }
}

/// The board field of SFEN: ranks 1 to 9, each from file 9 to file 1.
pub open spec fn board_sfen(b: Board) -> Seq<char> {
    rows_from(b, 1)
}

/// The order of kinds in the hand field: rook, bishop, gold, silver, knight, lance, pawn.
pub open spec fn hand_order(i: int) -> PieceKind {
    if i == 0 {
        PieceKind::Rook
    } else if i == 1 {
        PieceKind::Bishop
    } else if i == 2 {
        PieceKind::Gold
    } else if i == 3 {
        PieceKind::Silver
    } else if i == 4 {
        PieceKind::Knight
    } else if i == 5 {
        PieceKind::Lance
    } else {
        PieceKind::Pawn
    }
}

/// The pieces of one kind in a hand: the count when above one, then the letter.
pub open spec fn hand_group(h: Hand, kind: PieceKind, side: Side) -> Seq<char> {
    let n = h.spec_count(kind);
    if n == 0 {
        Seq::empty()
    } else if n == 1 {
        seq![sfen_letter(Piece { kind, side })]
    } else {
        decimal(n) + seq![sfen_letter(Piece { kind, side })]
    }
}

/// The groups of a hand from position `i` of `hand_order` on.
pub open spec fn hand_groups(h: Hand, side: Side, i: int) -> Seq<char>
    decreases 7 - i,
{
    if i >= 7 {
        Seq::empty()
    } else {
        hand_group(h, hand_order(i), side) + hand_groups(h, side, i + 1)
    }
}

/// The hand field of SFEN: sente's pieces then gote's, `-` when both hands are empty.
pub open spec fn hands_sfen(hs: Hand, hg: Hand) -> Seq<char> {
    let s = hand_groups(hs, Side::Sente, 0) + hand_groups(hg, Side::Gote, 0);
    if s.len() == 0 {
        seq!['-']
    } else {
        s
    }
}

/// The SFEN text of a position: board, `b`, hands, turn number.
pub open spec fn position_sfen(pos: Position) -> Seq<char> {
    board_sfen(pos.board) + seq![' ', 'b', ' '] + hands_sfen(pos.hand_sente, pos.hand_gote) + seq![
        ' ',
    ] + decimal(pos.move_number as nat)
}

/// The content text of a position: board and hands, without the turn number.
pub open spec fn content_sfen(pos: Position) -> Seq<char> {
    board_sfen(pos.board) + seq![' '] + hands_sfen(pos.hand_sente, pos.hand_gote)
}

fn letter(p: Piece) -> (c: char)
    ensures
        c == sfen_letter(p),
{
    let u = p.kind.usi_char();
    match p.side {
        Side::Sente => u,
        Side::Gote => ((u as u8) + 32) as char,
    }
}

fn push_piece(s: &mut String, p: Piece)
    ensures
        final(s)@ == old(s)@ + sfen_piece(p),
{
    if p.kind.is_promoted() {
        push_char(s, '+');
    }
    push_char(s, letter(p));
    assert(final(s)@ =~= old(s)@ + sfen_piece(p));
}

fn push_empty_run(s: &mut String, e: u8)
    requires
        e <= 9,
    ensures
        final(s)@ == old(s)@ + empty_run(e as int),
{
    if e > 0 {
        push_decimal(s, e as u32);
    } else {
        assert(old(s)@ + empty_run(0) =~= old(s)@);
    }
}

fn push_row(s: &mut String, b: &Board, r: u8)
    requires
        1 <= r <= 9,
    ensures
        final(s)@ == old(s)@ + row_from(*b, r as int, 9, 0),
{
    let ghost start = s@;
    let mut file: u8 = 9;
    let mut empty: u8 = 0;
    while file >= 1
        invariant
            file <= 9,
            1 <= r <= 9,
            empty + file <= 9,
            s@ + row_from(*b, r as int, file as int, empty as int) == start + row_from(
                *b,
                r as int,
                9,
                0,
            ),
        decreases file,
    {
        let sq = Square::new(file, r);
        match b.get(sq) {
            None => {
                empty += 1;
            },
            Some(p) => {
                let ghost before = s@;
                push_empty_run(s, empty);
                push_piece(s, p);
                assert(s@ + row_from(*b, r as int, file - 1, 0) =~= before + row_from(
                    *b,
                    r as int,
                    file as int,
                    empty as int,
                ));
                empty = 0;
            },
        }
        file -= 1;
    }
    let ghost before = s@;
    push_empty_run(s, empty);
    assert(s@ =~= before + row_from(*b, r as int, 0, empty as int));
}

fn push_board(s: &mut String, b: &Board)
    ensures
        final(s)@ == old(s)@ + board_sfen(*b),
{
    let ghost start = s@;
    let mut r: u8 = 1;
    while r < 9
        invariant
            1 <= r <= 9,
            s@ + rows_from(*b, r as int) == start + board_sfen(*b),
        decreases 9 - r,
    {
        let ghost before = s@;
        push_row(s, b, r);
        push_char(s, '/');
        assert(s@ + rows_from(*b, r + 1) =~= before + rows_from(*b, r as int));
        r += 1;
    }
    push_row(s, b, 9);
}

fn push_hand(s: &mut String, h: &Hand, side: Side)
    ensures
        final(s)@ == old(s)@ + hand_groups(*h, side, 0),
{
    let ghost start = s@;
    let order = [
        PieceKind::Rook,
        PieceKind::Bishop,
        PieceKind::Gold,
        PieceKind::Silver,
        PieceKind::Knight,
        PieceKind::Lance,
        PieceKind::Pawn,
    ];
    let mut i: usize = 0;
    while i < 7
        invariant
            i <= 7,
            forall|j: int| 0 <= j < 7 ==> #[trigger] order@[j] == hand_order(j),
            s@ + hand_groups(*h, side, i as int) == start + hand_groups(*h, side, 0),
        decreases 7 - i,
    {
        let kind = order[i];
        let cnt = h.count(kind);
        let ghost before = s@;
        if cnt > 0 {
            if cnt > 1 {
                push_decimal(s, cnt as u32);
            }
            push_char(s, letter(Piece::new(kind, side)));
        }
        assert(s@ + hand_groups(*h, side, i + 1) =~= before + hand_groups(*h, side, i as int));
        i += 1;
    }
}

fn push_hands(s: &mut String, hs: &Hand, hg: &Hand)
    ensures
        final(s)@ == old(s)@ + hands_sfen(*hs, *hg),
{
    let mut t = String::new();
    push_hand(&mut t, hs, Side::Sente);
    push_hand(&mut t, hg, Side::Gote);
    if t.as_str().is_empty() {
        push_char(s, '-');
    } else {
        push_str(s, t.as_str());
    }
}

/// The SFEN text of a position (see `position_sfen`).
pub fn position_to_sfen(pos: &Position) -> (s: String)
    ensures
        s@ == position_sfen(*pos),
{
    let mut s = String::new();
    push_board(&mut s, &pos.board);
    push_char(&mut s, ' ');
    push_char(&mut s, 'b');
    push_char(&mut s, ' ');
    push_hands(&mut s, &pos.hand_sente, &pos.hand_gote);
    push_char(&mut s, ' ');
    push_decimal(&mut s, pos.move_number);
    assert(s@ =~= position_sfen(*pos));
    s
}

/// The content text of a position (see `content_sfen`).
fn content_to_sfen(pos: &Position) -> (s: String)
    ensures
        s@ == content_sfen(*pos),
{
    let mut s = String::new();
    push_board(&mut s, &pos.board);
    push_char(&mut s, ' ');
    push_hands(&mut s, &pos.hand_sente, &pos.hand_gote);
    assert(s@ =~= content_sfen(*pos));
    s
}

// ---------------------------------------------------------------------------
// Reading
// ---------------------------------------------------------------------------

/// A piece letter: its kind in either case, sente for an upper-case letter.
pub open spec fn piece_of_char(c: char) -> Option<(PieceKind, Side)> {
    match kind_of_char(c) {
        Some(k) => Some((
            k,
            if 'A' <= c <= 'Z' {
                Side::Sente
            } else {
                Side::Gote
            },
        )),
        None => None,
    }
}

/// `b` with a piece put on file `f` of rank `r`.
pub open spec fn place(b: Board, f: int, r: int, kind: PieceKind, side: Side) -> Board {
    b.with_cell(Square::spec_new(f, r), Some(Piece { kind, side }))
}

/// Reads the SFEN text of rank `r` onto `b`, the next square being on file `f`:
/// a digit passes over that many files, a letter puts a piece (promoted after
/// a `+`). A piece left of file 1, an unknown character, or a `+` before a kind
/// that cannot promote fails. A row may stop before file 1.
pub open spec fn parse_row(row: Seq<char>, r: int, f: int, b: Board) -> Option<Board>
    decreases row.len(),
{
    if row.len() == 0 {
        Some(b)
    } else if row[0] == '+' {
        if row.len() < 2 {
            None
        } else {
            match piece_of_char(row[1]) {
                Some((k, side)) => if k.can_promote() && 1 <= f {
                    parse_row(row.skip(2), r, f - 1, place(b, f, r, k.promoted(), side))
                } else {
                    None
                },
                None => None,
            }
        }
    } else if is_digit(row[0]) {
        parse_row(row.skip(1), r, f - (row[0] as int - 48), b)
    } else {
        match piece_of_char(row[0]) {
            Some((k, side)) => if 1 <= f {
                parse_row(row.skip(1), r, f - 1, place(b, f, r, k, side))
            } else {
                None
            },
            None => None,
        }
    }
}

/// Reads rows `i` to 8 of `rows` as ranks `i + 1` to 9.
pub open spec fn parse_rows(rows: Seq<Seq<char>>, i: int, b: Board) -> Option<Board>
    decreases 9 - i,
{
    if i >= 9 {
        Some(b)
    } else {
        match parse_row(rows[i], i + 1, 9, b) {
            Some(b2) => parse_rows(rows, i + 1, b2),
            None => None,
        }
    }
}

/// Reads the board field: exactly nine rows separated by `/`.
pub open spec fn parse_board(s: Seq<char>) -> Option<Board> {
    let rows = split_all(s, '/');
    if rows.len() != 9 {
        None
    } else {
        parse_rows(rows, 0, Board::spec_empty())
    }
}

/// Adds `n` pieces of a kind to a hand one by one; fails for a kind that a
/// hand cannot hold or a count that would pass 255.
pub open spec fn add_n(h: Hand, kind: PieceKind, n: nat) -> Option<Hand>
    decreases n,
{
    if n == 0 {
        Some(h)
    } else if !is_hand_kind(kind) || h.spec_count(kind) >= 255 {
        None
    } else {
        add_n(h.spec_add(kind), kind, (n - 1) as nat)
    }
}

/// The number of digits at the start of `s`.
pub open spec fn digit_run(s: Seq<char>) -> nat
    decreases s.len(),
{
    if s.len() > 0 && is_digit(s[0]) {
        1 + digit_run(s.skip(1))
    } else {
        0
    }
}

/// Adds `n` pieces of a kind to the hand of `side`.
pub open spec fn add_to(hands: (Hand, Hand), kind: PieceKind, side: Side, n: nat) -> Option<(Hand, Hand)> {
    match side {
        Side::Sente => match add_n(hands.0, kind, n) {
            Some(h) => Some((h, hands.1)),
            None => None,
        },
        Side::Gote => match add_n(hands.1, kind, n) {
            Some(h) => Some((hands.0, h)),
            None => None,
        },
    }
}

/// Reads hand groups onto `hands`: a letter, or a count of digits (at most
/// 255) followed by a letter.
#[verifier::opaque]
pub open spec fn parse_hand_chars(s: Seq<char>, hands: (Hand, Hand)) -> Option<(Hand, Hand)>
    decreases s.len(),
{
    if s.len() == 0 {
        Some(hands)
    } else if is_digit(s[0]) {
        let d = digit_run(s) as int;
        if d >= s.len() || d < 1 {
            None
        } else {
            match (parse_u8(s.take(d)), piece_of_char(s[d])) {
                (Some(n), Some((k, side))) => match add_to(hands, k, side, n as nat) {
                    Some(h2) => parse_hand_chars(s.skip(d + 1), h2),
                    None => None,
                },
                _ => None,
            }
        }
    } else {
        match piece_of_char(s[0]) {
            Some((k, side)) => match add_to(hands, k, side, 1) {
                Some(h2) => parse_hand_chars(s.skip(1), h2),
                None => None,
            },
            None => None,
        }
    }
}

/// Reads the hand field: `-` for empty hands, else hand groups.
pub open spec fn parse_hands(s: Seq<char>) -> Option<(Hand, Hand)> {
    if s == seq!['-'] {
        Some((Hand::spec_empty(), Hand::spec_empty()))
    } else {
        parse_hand_chars(s, (Hand::spec_empty(), Hand::spec_empty()))
    }
}

/// Reads SFEN text: the board, a side-to-move field that is ignored, the
/// hands, and the turn number (the rest of the text after the third space).
pub open spec fn parse_sfen(s: Seq<char>) -> Option<Position> {
    match split_once(s, ' ') {
        None => None,
        Some((board_part, r1)) => match split_once(r1, ' ') {
            None => None,
            Some((_, r2)) => match split_once(r2, ' ') {
                None => None,
                Some((hand_part, number_part)) => match (
                    parse_u32(number_part),
                    parse_board(board_part),
                    parse_hands(hand_part),
                ) {
                    (Some(n), Some(board), Some((hs, hg))) => Some(
                        Position { board, hand_sente: hs, hand_gote: hg, move_number: n },
                    ),
                    _ => None,
                },
            },
        },
    }
}

fn piece_from_char(c: char) -> (r: Option<(PieceKind, Side)>)
    ensures
        r == piece_of_char(c),
{
    match kind_from_char(c) {
        Some(k) => Some((
            k,
            if 'A' <= c && c <= 'Z' {
                Side::Sente
            } else {
                Side::Gote
            },
        )),
        None => None,
    }
}

/// Past file 1, the exact file no longer matters.
proof fn lemma_parse_row_left(row: Seq<char>, r: int, f: int, g: int, b: Board)
    requires
        f < 1,
        g < 1,
    ensures
        parse_row(row, r, f, b) == parse_row(row, r, g, b),
    decreases row.len(),
{
    if row.len() > 0 && row[0] != '+' && is_digit(row[0]) {
        lemma_parse_row_left(row.skip(1), r, f - (row[0] as int - 48), g - (row[0] as int - 48), b);
    }
}

fn read_row(row: &[char], r: u8, b: Board) -> (res: Option<Board>)
    requires
        1 <= r <= 9,
    ensures
        res == parse_row(row@, r as int, 9, b),
{
    let mut board = b;
    let mut file: u8 = 9;
    let mut i: usize = 0;
    assert(row@.skip(0) == row@);
    while i < row.len()
        invariant
            i <= row.len(),
            file <= 9,
            1 <= r <= 9,
            parse_row(row@, r as int, 9, b) == parse_row(row@.skip(i as int), r as int, file as int, board),
        decreases row.len() - i,
    {
        let ghost rest = row@.skip(i as int);
        let c = row[i];
        assert(rest[0] == c);
        if c == '+' {
            if i + 1 >= row.len() {
                return None;
            }
            let next = row[i + 1];
            assert(rest[1] == next);
            match piece_from_char(next) {
                Some((k, side)) => {
                    if !k.can_promote() || file < 1 {
                        return None;
                    }
                    board.set(Square::new(file, r), Some(Piece::new(k.promoted(), side)));
                    assert(rest.skip(2) == row@.skip(i + 2));
                    file -= 1;
                    i += 2;
                },
                None => {
                    return None;
                },
            }
        } else if '0' <= c && c <= '9' {
            let d = (c as u32 - 48) as u8;
            assert(rest.skip(1) == row@.skip(i + 1));
            if d > file {
                proof {
                    lemma_parse_row_left(rest.skip(1), r as int, file - d, 0, board);
                }
                file = 0;
            } else {
                file -= d;
            }
            i += 1;
        } else {
            match piece_from_char(c) {
                Some((k, side)) => {
                    if file < 1 {
                        return None;
                    }
                    board.set(Square::new(file, r), Some(Piece::new(k, side)));
                    assert(rest.skip(1) == row@.skip(i + 1));
                    file -= 1;
                    i += 1;
                },
                None => {
                    return None;
                },
            }
        }
    }
    Some(board)
}

fn read_board(s: &[char]) -> (res: Option<Board>)
    ensures
        res == parse_board(s@),
{
    let rows = split_on(s, '/');
    if rows.len() != 9 {
        return None;
    }
    let ghost rs = split_all(s@, '/');
    let mut board = Board::empty();
    let mut i: usize = 0;
    while i < 9
        invariant
            i <= 9,
            rows@.len() == 9 == rs.len(),
            rs == split_all(s@, '/'),
            forall|k: int| 0 <= k < rows@.len() ==> (#[trigger] rows@[k])@ == rs[k],
            parse_board(s@) == parse_rows(rs, i as int, board),
        decreases 9 - i,
    {
        assert(rows@[i as int]@ == rs[i as int]);
        match read_row(rows[i].as_slice(), (i + 1) as u8, board) {
            Some(b2) => {
                board = b2;
            },
            None => {
                return None;
            },
        }
        i += 1;
    }
    Some(board)
}

fn holdable(kind: PieceKind) -> (b: bool)
    ensures
        b == is_hand_kind(kind),
{
    match kind {
        PieceKind::Pawn | PieceKind::Lance | PieceKind::Knight | PieceKind::Silver
        | PieceKind::Gold | PieceKind::Bishop | PieceKind::Rook => true,
        _ => false,
    }
}

fn add_many(h: &mut Hand, kind: PieceKind, n: u8) -> (ok: bool)
    ensures
        ok == (add_n(*old(h), kind, n as nat) is Some),
        ok ==> add_n(*old(h), kind, n as nat) == Some(*final(h)),
{
    let ghost target = add_n(*old(h), kind, n as nat);
    let mut k: u8 = 0;
    while k < n
        invariant
            k <= n,
            target == add_n(*old(h), kind, n as nat),
            target == add_n(*h, kind, (n - k) as nat),
        decreases n - k,
    {
        if !holdable(kind) || h.count(kind) >= 255 {
            return false;
        }
        h.add(kind);
        k += 1;
    }
    true
}

fn add_to_hands(hs: &mut Hand, hg: &mut Hand, kind: PieceKind, side: Side, n: u8) -> (ok: bool)
    ensures
        ok == (add_to((*old(hs), *old(hg)), kind, side, n as nat) is Some),
        ok ==> add_to((*old(hs), *old(hg)), kind, side, n as nat) == Some((*final(hs), *final(hg))),
{
    match side {
        Side::Sente => add_many(hs, kind, n),
        Side::Gote => add_many(hg, kind, n),
    }
}

fn read_hand_chars(s: &[char]) -> (res: Option<(Hand, Hand)>)
    ensures
        res == parse_hand_chars(s@, (Hand::spec_empty(), Hand::spec_empty())),
{
    reveal(parse_hand_chars);
    let mut hs = Hand::empty();
    let mut hg = Hand::empty();
    let mut i: usize = 0;
    assert(s@.skip(0) == s@);
    while i < s.len()
        invariant
            i <= s.len(),
            parse_hand_chars(s@, (Hand::spec_empty(), Hand::spec_empty())) == parse_hand_chars(
                s@.skip(i as int),
                (hs, hg),
            ),
        decreases s.len() - i,
    {
        proof {
            reveal(parse_hand_chars);
        }
        let ghost rest = s@.skip(i as int);
        let c = s[i];
        assert(rest[0] == c);
        if '0' <= c && c <= '9' {
            let mut j = i;
            while j < s.len() && '0' <= s[j] && s[j] <= '9'
                invariant
                    i <= j <= s.len(),
                    rest == s@.skip(i as int),
                    forall|m: int| i <= m < j ==> is_digit(s@[m]),
                decreases s.len() - j,
            {
                j += 1;
            }
            proof {
                lemma_digit_run(rest, (j - i) as int);
            }
            if j >= s.len() {
                return None;
            }
            let num = sub_vec(s, i, j);
            assert(num@ == rest.take((j - i) as int));
            let n32 = parse_u32_chars(num.as_slice());
            let n = match n32 {
                Some(v) => {
                    if v > 255 {
                        return None;
                    }
                    v as u8
                },
                None => {
                    return None;
                },
            };
            assert(rest[(j - i) as int] == s@[j as int]);
            match piece_from_char(s[j]) {
                Some((k, side)) => {
                    if !add_to_hands(&mut hs, &mut hg, k, side, n) {
                        return None;
                    }
                },
                None => {
                    return None;
                },
            }
            assert(rest.skip((j - i) + 1) == s@.skip(j + 1));
            i = j + 1;
        } else {
            match piece_from_char(c) {
                Some((k, side)) => {
                    if !add_to_hands(&mut hs, &mut hg, k, side, 1) {
                        return None;
                    }
                },
                None => {
                    return None;
                },
            }
            assert(rest.skip(1) == s@.skip(i + 1));
            i += 1;
        }
    }
    Some((hs, hg))
}

/// The leading digits of `s` are exactly the first `d` characters.
pub(crate) proof fn lemma_digit_run(s: Seq<char>, d: int)
    requires
        0 <= d <= s.len(),
        forall|m: int| 0 <= m < d ==> is_digit(s[m]),
        d == s.len() || !is_digit(s[d]),
    ensures
        digit_run(s) == d,
    decreases d,
{
    if d > 0 {
        lemma_digit_run(s.skip(1), d - 1);
    }
}

fn read_hands(s: &[char]) -> (res: Option<(Hand, Hand)>)
    ensures
        res == parse_hands(s@),
{
    if s.len() == 1 && s[0] == '-' {
        assert(s@ =~= seq!['-']);
        return Some((Hand::empty(), Hand::empty()));
    }
    read_hand_chars(s)
}

/// Reads SFEN text (see `parse_sfen`); `None` when the text is not SFEN.
pub fn sfen_to_position(s: &str) -> (r: Option<Position>)
    ensures
        r == parse_sfen(s@),
{
    let v = chars_of(s);
    let i = match split_index(&v, ' ') {
        Some(i) => i,
        None => {
            return None;
        },
    };
    let board_part = sub_vec(&v, 0, i);
    let r1 = sub_vec(&v, i + 1, v.len());
    assert(board_part@ == v@.take(i as int));
    assert(r1@ == v@.skip(i + 1));
    let j = match split_index(&r1, ' ') {
        Some(j) => j,
        None => {
            return None;
        },
    };
    let r2 = sub_vec(&r1, j + 1, r1.len());
    assert(r2@ == r1@.skip(j + 1));
    let k = match split_index(&r2, ' ') {
        Some(k) => k,
        None => {
            return None;
        },
    };
    let hand_part = sub_vec(&r2, 0, k);
    let number_part = sub_vec(&r2, k + 1, r2.len());
    assert(hand_part@ == r2@.take(k as int));
    assert(number_part@ == r2@.skip(k + 1));
    let n = parse_u32_chars(number_part.as_slice());
    let board = read_board(board_part.as_slice());
    let hands = read_hands(hand_part.as_slice());
    match (n, board, hands) {
        (Some(n), Some(board), Some((hs, hg))) => Some(
            Position { board, hand_sente: hs, hand_gote: hg, move_number: n },
        ),
        _ => None,
    }
}

// ---------------------------------------------------------------------------
// Bytes for hashing and repetition
// ---------------------------------------------------------------------------

/// The standard starting position in SFEN.
pub const INITIAL_SFEN: &'static str = "lnsgkgsnl/1r5b1/ppppppppp/9/9/9/PPPPPPPPP/1B5R1/LNSGKGSNL b - 1";

/// The bytes that identify a position for hashing: the UTF-8 of its SFEN
/// text (board, hands and turn number).
pub fn canonical_bytes(pos: &Position) -> (b: Vec<u8>)
    ensures
        b@ == encode_utf8(position_sfen(*pos)),
{
    let s = position_to_sfen(pos);
    s.as_str().as_bytes_vec()
}

/// The bytes that identify the content of a position for repetition: board
/// and hands, without the turn number.
pub fn content_bytes(pos: &Position) -> (b: Vec<u8>)
    ensures
        b@ == encode_utf8(content_sfen(*pos)),
{
    let s = content_to_sfen(pos);
    s.as_str().as_bytes_vec()
}

// ---------------------------------------------------------------------------
// Turn lines and game records
// ---------------------------------------------------------------------------

/// The line of a turn: `<number>: <sente> | <gote>`.
pub open spec fn ply_line(n: u32, ply: Ply) -> Seq<char> {
    decimal(n as nat) + seq![':', ' '] + usi_action(ply.sente) + seq![' ', '|', ' '] + usi_action(
        ply.gote,
    )
}

/// Reads the line of a turn: the number before the first `:`, then the two
/// actions on either side of the first `|`, each without surrounding whitespace.
#[verifier::opaque]
pub open spec fn parse_ply_line(s: Seq<char>) -> Option<(u32, Ply)> {
    match split_once(s, ':') {
        None => None,
        Some((num, rest)) => match parse_u32(trim(num)) {
            None => None,
            Some(n) => match split_once(rest, '|') {
                None => None,
                Some((a, b)) => match (parse_action(trim(a)), parse_action(trim(b))) {
                    (Some(sente), Some(gote)) => Some((n, Ply { sente, gote })),
                    _ => None,
                },
            },
        },
    }
}

/// The line of a turn (see `ply_line`).
pub fn ply_to_string(move_number: u32, ply: &Ply) -> (s: String)
    requires
        ply.sente.wf(),
        ply.gote.wf(),
    ensures
        s@ == ply_line(move_number, *ply),
{
    let mut s = String::new();
    push_decimal(&mut s, move_number);
    push_char(&mut s, ':');
    push_char(&mut s, ' ');
    let a = ply.sente.to_usi();
    push_str(&mut s, a.as_str());
    push_char(&mut s, ' ');
    push_char(&mut s, '|');
    push_char(&mut s, ' ');
    let b = ply.gote.to_usi();
    push_str(&mut s, b.as_str());
    assert(s@ =~= ply_line(move_number, *ply));
    s
}

fn read_ply_line(v: &[char]) -> (r: Option<(u32, Ply)>)
    ensures
        r == parse_ply_line(v@),
{
    reveal(parse_ply_line);
    let i = match split_index(v, ':') {
        Some(i) => i,
        None => {
            return None;
        },
    };
    let num = sub_vec(v, 0, i);
    let rest = sub_vec(v, i + 1, v.len());
    assert(num@ == v@.take(i as int));
    assert(rest@ == v@.skip(i + 1));
    let num_t = trim_vec(num.as_slice());
    let n = match parse_u32_chars(num_t.as_slice()) {
        Some(n) => n,
        None => {
            return None;
        },
    };
    let j = match split_index(&rest, '|') {
        Some(j) => j,
        None => {
            return None;
        },
    };
    let a = sub_vec(&rest, 0, j);
    let b = sub_vec(&rest, j + 1, rest.len());
    assert(a@ == rest@.take(j as int));
    assert(b@ == rest@.skip(j + 1));
    let at = trim_vec(a.as_slice());
    let bt = trim_vec(b.as_slice());
    let sente = crate::types::action_from_chars(at.as_slice());
    let gote = crate::types::action_from_chars(bt.as_slice());
    match (sente, gote) {
        (Some(sente), Some(gote)) => Some((n, Ply { sente, gote })),
        _ => None,
    }
}

/// Reads the line of a turn (see `parse_ply_line`).
pub fn ply_from_string(s: &str) -> (r: Option<(u32, Ply)>)
    ensures
        r == parse_ply_line(s@),
{
    let v = chars_of(s);
    read_ply_line(&v)
}

/// The prefix of the first line of a record.
pub open spec fn sfen_tag() -> Seq<char> {
    seq!['s', 'f', 'e', 'n', ' ']
}

/// The lines of turns `i` onward, each after a newline, numbered from `n`.
pub open spec fn plies_text(plies: Seq<Ply>, n: int, i: int) -> Seq<char>
    decreases plies.len() - i,
{
    if i >= plies.len() || i < 0 {
        Seq::empty()
    } else {
        seq!['\n'] + ply_line((n + i) as u32, plies[i]) + plies_text(plies, n, i + 1)
    }
}

/// The text of a record: `sfen <start>`, then one line per turn, numbered
/// from the turn number of the start.
pub open spec fn kifu_text(init: Position, plies: Seq<Ply>) -> Seq<char> {
    sfen_tag() + position_sfen(init) + plies_text(plies, init.move_number as int, 0)
}

/// Reads turn lines `i` onward, skipping blank lines.
pub open spec fn parse_ply_lines(ls: Seq<Seq<char>>, i: int) -> Option<Seq<Ply>>
    decreases ls.len() - i,
{
    if i >= ls.len() || i < 0 {
        Some(Seq::empty())
    } else {
        let t = trim(ls[i]);
        if t.len() == 0 {
            parse_ply_lines(ls, i + 1)
        } else {
            match parse_ply_line(t) {
                None => None,
                Some((_, p)) => match parse_ply_lines(ls, i + 1) {
                    None => None,
                    Some(rest) => Some(seq![p] + rest),
                },
            }
        }
    }
}

/// Reads the text of a record: a first line `sfen <position>`, then turn lines.
pub open spec fn parse_kifu_text(s: Seq<char>) -> Option<(Position, Seq<Ply>)> {
    let ls = lines(s);
    if ls.len() == 0 || !has_prefix(ls[0], sfen_tag()) {
        None
    } else {
        match parse_sfen(ls[0].skip(5)) {
            None => None,
            Some(init) => match parse_ply_lines(ls, 1) {
                None => None,
                Some(plies) => Some((init, plies)),
            },
        }
    }
}

/// Every action of the turns is well formed (its squares are on the board).
pub open spec fn plies_wf(plies: Seq<Ply>) -> bool {
    forall|i: int| 0 <= i < plies.len() ==> (#[trigger] plies[i]).sente.wf() && plies[i].gote.wf()
}

/// The turns read from turn lines are well formed.
pub proof fn lemma_parsed_plies_wf(ls: Seq<Seq<char>>, i: int)
    ensures
        parse_ply_lines(ls, i) matches Some(plies) ==> plies_wf(plies),
    decreases ls.len() - i,
{
    if 0 <= i < ls.len() {
        lemma_parsed_plies_wf(ls, i + 1);
        let t = trim(ls[i]);
        if t.len() != 0 {
            reveal(parse_ply_line);
            if let Some((n, p)) = parse_ply_line(t) {
                let (num, rest) = split_once(t, ':')->0;
                let (a, b) = split_once(rest, '|')->0;
                lemma_parse_action_wf(trim(a));
                lemma_parse_action_wf(trim(b));
                if let Some(tail) = parse_ply_lines(ls, i + 1) {
                    let all = seq![p] + tail;
                    assert forall|k: int| 0 <= k < all.len() implies (#[trigger] all[k]).sente.wf()
                        && all[k].gote.wf() by {
                        if k > 0 {
                            assert(all[k] == tail[k - 1]);
                        }
                    }
                }
            }
        }
    }
}

/// The turns of a record read from text are well formed.
pub proof fn lemma_parsed_kifu_wf(s: Seq<char>)
    ensures
        parse_kifu_text(s) matches Some((init, plies)) ==> plies_wf(plies),
{
    lemma_parsed_plies_wf(lines(s), 1);
}

/// The text of a record (see `kifu_text`).
pub fn kifu_to_string(kifu: &Kifu) -> (s: String)
    requires
        plies_wf(kifu.plies@),
        kifu.initial_position.move_number + kifu.plies@.len() <= u32::MAX,
    ensures
        s@ == kifu_text(kifu.initial_position, kifu.plies@),
{
    let mut s = String::new();
    push_char(&mut s, 's');
    push_char(&mut s, 'f');
    push_char(&mut s, 'e');
    push_char(&mut s, 'n');
    push_char(&mut s, ' ');
    let head = position_to_sfen(&kifu.initial_position);
    push_str(&mut s, head.as_str());
    let ghost start = s@;
    let ghost n0 = kifu.initial_position.move_number as int;
    let mut move_number = kifu.initial_position.move_number;
    let mut i: usize = 0;
    while i < kifu.plies.len()
        invariant
            i <= kifu.plies@.len(),
            plies_wf(kifu.plies@),
            n0 == kifu.initial_position.move_number,
            n0 + kifu.plies@.len() <= u32::MAX,
            move_number == n0 + i,
            start == sfen_tag() + position_sfen(kifu.initial_position),
            s@ + plies_text(kifu.plies@, n0, i as int) == start + plies_text(kifu.plies@, n0, 0),
        decreases kifu.plies@.len() - i,
    {
        let ghost before = s@;
        let ply = kifu.plies[i];
        assert(plies_wf(kifu.plies@) ==> ply.sente.wf() && ply.gote.wf());
        push_char(&mut s, '\n');
        let line = ply_to_string(move_number, &ply);
        push_str(&mut s, line.as_str());
        assert(s@ + plies_text(kifu.plies@, n0, i + 1) =~= before + plies_text(
            kifu.plies@,
            n0,
            i as int,
        ));
        move_number += 1;
        i += 1;
    }
    assert(s@ =~= kifu_text(kifu.initial_position, kifu.plies@));
    s
}

/// Reads the text of a record (see `parse_kifu_text`).
pub fn kifu_from_string(s: &str) -> (r: Option<Kifu>)
    ensures
        match parse_kifu_text(s@) {
            Some((init, plies)) => r matches Some(k) && k.initial_position == init && k.plies@
                == plies,
            None => r is None,
        },
{
    let v = chars_of(s);
    let ls = lines_of(&v);
    let ghost gl = lines(v@);
    if ls.len() == 0 {
        return None;
    }
    let tag = ['s', 'f', 'e', 'n', ' '];
    assert(tag@ == sfen_tag());
    assert(ls@[0]@ == gl[0]);
    if !starts_with(ls[0].as_slice(), &tag) {
        return None;
    }
    let first = sub_vec(ls[0].as_slice(), 5, ls[0].len());
    assert(first@ == gl[0].skip(5));
    let head = string_of_chars(&first);
    let init = match sfen_to_position(head.as_str()) {
        Some(p) => p,
        None => {
            return None;
        },
    };
    let plies = match read_plies(&ls, Ghost(gl), 1) {
        Some(p) => p,
        None => {
            return None;
        },
    };
    Some(Kifu { initial_position: init, plies })
}

fn read_plies(ls: &Vec<Vec<char>>, gl: Ghost<Seq<Seq<char>>>, i: usize) -> (r: Option<Vec<Ply>>)
    requires
        ls@.len() == gl@.len(),
        forall|k: int| 0 <= k < ls@.len() ==> (#[trigger] ls@[k])@ == gl@[k],
    ensures
        opt_view(r) == parse_ply_lines(gl@, i as int),
    decreases ls@.len() - i,
{
    if i >= ls.len() {
        return Some(Vec::new());
    }
    assert(ls@[i as int]@ == gl@[i as int]);
    let t = trim_vec(ls[i].as_slice());
    if t.len() == 0 {
        return read_plies(ls, gl, i + 1);
    }
    match read_ply_line(t.as_slice()) {
        None => None,
        Some((_, p)) => match read_plies(ls, gl, i + 1) {
            None => None,
            Some(mut rest) => {
                let ghost tail = rest@;
                rest.insert(0, p);
                assert(rest@ =~= seq![p] + tail);
                Some(rest)
            },
        },
    }
}

/// The turns of an optional vector.
pub open spec fn opt_view(r: Option<Vec<Ply>>) -> Option<Seq<Ply>> {
    match r {
        Some(v) => Some(v@),
        None => None,
    }
}

fn string_of_chars(v: &Vec<char>) -> (s: String)
    ensures
        s@ == v@,
{
    crate::text::string_of(v.as_slice())
}

} // verus!
