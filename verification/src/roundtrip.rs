//! What reading gives back of writing: SFEN text, turn lines and game records
//! read back as the values that were written.
use vstd::prelude::*;
use vstd::utf8::{encode_utf8, encode_utf8_decode_utf8};

use crate::archive::{
    apply_header, archive_text, header_lines, header_text, join_from, kind_text, lemma_result_names,
    outcome_text, parse_archive, scan_headers, value_of_text, value_text, ArchiveResult, MetaView,
    Outcome, ResultKind, MAGIC,
};
use crate::board::{group_board, hand_slot, is_hand_kind, Board, Hand, Position};
use crate::serialize::{
    add_n, add_to, board_sfen, empty_run, hand_group, hand_groups, hand_order, hands_sfen,
    lemma_digit_run, parse_board, parse_hand_chars, parse_hands, parse_row, parse_rows, parse_sfen,
    piece_of_char, place, position_sfen, row_from, rows_from, sfen_letter, sfen_piece, ply_line,
    parse_ply_line, content_sfen, plies_text, kifu_text, parse_kifu_text, parse_ply_lines, plies_wf,
    sfen_tag,
};
use crate::text::{
    decimal, is_digit, is_first_index, is_ws, lemma_decimal, lemma_first_index, lemma_parse_decimal,
    lemma_trim_around, parse_u8, split_all, split_once, trim, lines, has_prefix, lemma_lines_cons,
    lemma_lines_single, lemma_not_contains_concat, strip_cr, join_nl, joined, lemma_joined,
};
use crate::types::{
    group_square, lemma_usi_chars, lemma_usi_roundtrip, usi_action, usi_text_char, Action, Piece,
    PieceKind, Ply, Side, Square,
};

verus! {

broadcast use {group_square, group_board};

/// A character of the board field other than `/`: a digit, `+` or a letter.
pub open spec fn row_char(c: char) -> bool {
    is_digit(c) || c == '+' || ('A' <= c <= 'Z') || ('a' <= c <= 'z')
}

/// Every character of `s` is a digit, `+` or a letter.
pub open spec fn row_text(s: Seq<char>) -> bool {
    forall|k: int| 0 <= k < s.len() ==> row_char(#[trigger] s[k])
}

proof fn lemma_row_text_concat(a: Seq<char>, b: Seq<char>)
    requires
        row_text(a),
        row_text(b),
    ensures
        row_text(a + b),
{
    assert forall|k: int| 0 <= k < (a + b).len() implies row_char(#[trigger] (a + b)[k]) by {
        if k < a.len() {
            assert((a + b)[k] == a[k]);
        } else {
            assert((a + b)[k] == b[k - a.len()]);
        }
    }
}

proof fn lemma_row_text_excludes(s: Seq<char>)
    requires
        row_text(s),
    ensures
        !s.contains('/'),
        !s.contains(' '),
        !s.contains('-'),
{
    if s.contains('/') {
        let k = choose|k: int| 0 <= k < s.len() && s[k] == '/';
        assert(row_char(s[k]));
    }
    if s.contains(' ') {
        let k = choose|k: int| 0 <= k < s.len() && s[k] == ' ';
        assert(row_char(s[k]));
    }
    if s.contains('-') {
        let k = choose|k: int| 0 <= k < s.len() && s[k] == '-';
        assert(row_char(s[k]));
    }
}

proof fn lemma_decimal_text(n: nat)
    ensures
        row_text(decimal(n)),
{
    lemma_decimal(n);
    let s = decimal(n);
    assert forall|k: int| 0 <= k < s.len() implies row_char(#[trigger] s[k]) by {
        assert(is_digit(s[k]));
    }
}

/// The letter of a piece reads back as its base kind and its camp.
proof fn lemma_letter(p: Piece)
    ensures
        piece_of_char(sfen_letter(p)) == Some((p.kind.unpromoted(), p.side)),
        ('A' <= sfen_letter(p) <= 'Z') || ('a' <= sfen_letter(p) <= 'z'),
        !is_digit(sfen_letter(p)),
        sfen_letter(p) != '+',
{
    let l = sfen_letter(p);
    match p.side {
        Side::Sente => {},
        Side::Gote => {
            assert(l as int == p.kind.usi_char() as int + 32);
        },
    }
    match p.kind {
        PieceKind::Pawn | PieceKind::ProPawn => {},
        PieceKind::Lance | PieceKind::ProLance => {},
        PieceKind::Knight | PieceKind::ProKnight => {},
        PieceKind::Silver | PieceKind::ProSilver => {},
        PieceKind::Gold => {},
        PieceKind::Bishop | PieceKind::Horse => {},
        PieceKind::Rook | PieceKind::Dragon => {},
        PieceKind::King => {},
    }
}

proof fn lemma_piece_text(p: Piece)
    ensures
        row_text(sfen_piece(p)),
{
    lemma_letter(p);
}

proof fn lemma_row_from_text(b: Board, r: int, f: int, e: int)
    requires
        e >= 0,
    ensures
        row_text(row_from(b, r, f, e)),
    decreases f,
{
    if f < 1 {
        if e > 0 {
            lemma_decimal_text(e as nat);
        }
    } else {
        match b.at(Square::spec_new(f, r)) {
            None => {
                lemma_row_from_text(b, r, f - 1, e + 1);
            },
            Some(p) => {
                if e > 0 {
                    lemma_decimal_text(e as nat);
                }
                lemma_piece_text(p);
                lemma_row_from_text(b, r, f - 1, 0);
                lemma_row_text_concat(empty_run(e), sfen_piece(p));
                lemma_row_text_concat(empty_run(e) + sfen_piece(p), row_from(b, r, f - 1, 0));
            },
        }
    }
}

/// Reading the text of a row from file `f + e` onto `acc` puts on rank `r`
/// what `b` has there, and leaves the other squares of `acc` alone.
proof fn lemma_parse_row(b: Board, r: int, f: int, e: int, acc: Board)
    requires
        1 <= r <= 9,
        0 <= f,
        0 <= e,
        f + e <= 9,
        forall|g: int| 1 <= g <= f + e ==> (#[trigger] acc.at(Square::spec_new(g, r))) is None,
        forall|g: int| f < g <= f + e ==> (#[trigger] b.at(Square::spec_new(g, r))) is None,
    ensures
        parse_row(row_from(b, r, f, e), r, f + e, acc) is Some,
        forall|i: int|
            0 <= i < 81 ==> #[trigger] parse_row(row_from(b, r, f, e), r, f + e, acc)->0.cells()[i]
                == (if i % 9 + 1 == r && i / 9 + 1 <= f + e {
                b.cells()[i]
            } else {
                acc.cells()[i]
            }),
    decreases f,
{
    let row = row_from(b, r, f, e);
    if f < 1 {
        if e > 0 {
            lemma_decimal(e as nat);
            assert(row == seq![(48 + e) as char]);
            assert(row.skip(1) =~= Seq::<char>::empty());
            assert(parse_row(row, r, f + e, acc) == parse_row(row.skip(1), r, 0, acc));
            assert forall|i: int| 0 <= i < 81 && i % 9 + 1 == r && i / 9 + 1 <= e implies b.cells()[i]
                == acc.cells()[i] by {
                let g = i / 9 + 1;
                assert(Square::spec_new(g, r).idx() == i);
                assert(acc.at(Square::spec_new(g, r)) is None);
                assert(b.at(Square::spec_new(g, r)) is None);
            }
        }
    } else {
        let sq = Square::spec_new(f, r);
        assert(sq.idx() == (f - 1) * 9 + (r - 1));
        match b.at(sq) {
            None => {
                lemma_parse_row(b, r, f - 1, e + 1, acc);
            },
            Some(p) => {
                let rest = row_from(b, r, f - 1, 0);
                let piece = sfen_piece(p);
                assert(row == empty_run(e) + piece + rest);
                let x = piece + rest;
                if e > 0 {
                    lemma_decimal(e as nat);
                    assert(row == seq![(48 + e) as char] + x);
                    assert(row[0] == (48 + e) as char);
                    assert(row.skip(1) =~= x);
                    assert(parse_row(row, r, f + e, acc) == parse_row(x, r, f, acc));
                } else {
                    assert(row =~= x);
                }
                lemma_letter(p);
                let acc2 = acc.with_cell(sq, Some(p));
                if p.kind.is_promoted() {
                    assert(x[0] == '+');
                    assert(x[1] == sfen_letter(p));
                    assert(x.skip(2) =~= rest);
                    assert(p.kind.unpromoted().promoted() == p.kind);
                    assert(place(acc, f, r, p.kind.unpromoted().promoted(), p.side) == acc2);
                } else {
                    assert(x[0] == sfen_letter(p));
                    assert(x.skip(1) =~= rest);
                    assert(p.kind.unpromoted() == p.kind);
                    assert(place(acc, f, r, p.kind.unpromoted(), p.side) == acc2);
                }
                assert(parse_row(x, r, f, acc) == parse_row(rest, r, f - 1, acc2));
                assert forall|g: int| 1 <= g <= f - 1 implies (#[trigger] acc2.at(
                    Square::spec_new(g, r),
                )) is None by {
                    assert(Square::spec_new(g, r).idx() == (g - 1) * 9 + (r - 1));
                    assert(acc.at(Square::spec_new(g, r)) is None);
                }
                lemma_parse_row(b, r, f - 1, 0, acc2);
                assert forall|i: int|
                    0 <= i < 81 && i % 9 + 1 == r && f < i / 9 + 1 <= f + e implies b.cells()[i]
                    == acc.cells()[i] by {
                    let g = i / 9 + 1;
                    assert(Square::spec_new(g, r).idx() == i);
                    assert(acc.at(Square::spec_new(g, r)) is None);
                    assert(b.at(Square::spec_new(g, r)) is None);
                }
            },
        }
    }
}

/// Splitting at the first `c` when `x` holds none.
pub(crate) proof fn lemma_split_once_at(x: Seq<char>, c: char, y: Seq<char>)
    requires
        !x.contains(c),
    ensures
        split_once(x + seq![c] + y, c) == Some((x, y)),
        split_all(x + seq![c] + y, c) == seq![x] + split_all(y, c),
{
    let s = x + seq![c] + y;
    assert(s[x.len() as int] == c);
    assert forall|j: int| 0 <= j < x.len() implies s[j] != c by {
        assert(s[j] == x[j]);
    }
    assert(is_first_index(s, c, x.len() as int));
    lemma_first_index(s, c, x.len() as int);
    assert(s.take(x.len() as int) =~= x);
    assert(s.skip(x.len() + 1int) =~= y);
}

/// The rows of the board field from rank `r` on.
pub open spec fn rows_seq(b: Board, r: int) -> Seq<Seq<char>>
    decreases 9 - r,
{
    if r >= 9 {
        seq![row_from(b, 9, 9, 0)]
    } else {
        seq![row_from(b, r, 9, 0)] + rows_seq(b, r + 1)
    }
}

proof fn lemma_rows_seq(b: Board, r: int)
    requires
        1 <= r <= 9,
    ensures
        split_all(rows_from(b, r), '/') == rows_seq(b, r),
        rows_seq(b, r).len() == 10 - r,
        forall|i: int| 0 <= i < 10 - r ==> #[trigger] rows_seq(b, r)[i] == row_from(b, r + i, 9, 0),
        row_text_or_slash(rows_from(b, r)),
    decreases 9 - r,
{
    lemma_row_from_text(b, r, 9, 0);
    let row = row_from(b, r, 9, 0);
    lemma_row_text_excludes(row);
    if r >= 9 {
        assert(!row.contains('/'));
        assert forall|k: int| 0 <= k < row.len() implies row_char(#[trigger] row[k]) || row[k] == '/' by {
            assert(row_char(row[k]));
        }
    } else {
        lemma_rows_seq(b, r + 1);
        lemma_split_once_at(row, '/', rows_from(b, r + 1));
        assert forall|i: int| 0 <= i < 10 - r implies #[trigger] rows_seq(b, r)[i] == row_from(
            b,
            r + i,
            9,
            0,
        ) by {
            if i > 0 {
                assert(rows_seq(b, r)[i] == rows_seq(b, r + 1)[i - 1]);
            }
        }
        let t = rows_from(b, r);
        let rest = rows_from(b, r + 1);
        assert(t == row + seq!['/'] + rest);
        assert forall|k: int| 0 <= k < t.len() implies row_char(#[trigger] t[k]) || t[k] == '/' by {
            if k < row.len() {
                assert(t[k] == row[k]);
            } else if k == row.len() {
            } else {
                assert(t[k] == rest[k - row.len() - 1]);
            }
        }
    }
}

/// Every character is a digit, `+`, a letter or `/`.
pub open spec fn row_text_or_slash(s: Seq<char>) -> bool {
    forall|k: int| 0 <= k < s.len() ==> row_char(#[trigger] s[k]) || s[k] == '/'
}

/// Reading rows `i` onward of a board's field onto a board that already has
/// ranks 1 to `i` gives the board.
proof fn lemma_parse_rows(b: Board, i: int, acc: Board)
    requires
        0 <= i <= 9,
        forall|j: int|
            0 <= j < 81 ==> #[trigger] acc.cells()[j] == (if j % 9 + 1 <= i {
                b.cells()[j]
            } else {
                None
            }),
    ensures
        parse_rows(rows_seq(b, 1), i, acc) == Some(b),
    decreases 9 - i,
{
    lemma_rows_seq(b, 1);
    if i >= 9 {
        assert(acc.cells() =~= b.cells());
        crate::board::lemma_board_ext(acc, b);
    } else {
        let r = i + 1;
        assert(rows_seq(b, 1)[i] == row_from(b, r, 9, 0));
        assert forall|g: int| 1 <= g <= 9 implies (#[trigger] acc.at(Square::spec_new(g, r))) is None by {
            assert(Square::spec_new(g, r).idx() == (g - 1) * 9 + (r - 1));
        }
        lemma_parse_row(b, r, 9, 0, acc);
        let acc2 = parse_row(row_from(b, r, 9, 0), r, 9, acc)->0;
        lemma_parse_rows(b, i + 1, acc2);
    }
}

/// Reading the board field of a board gives the board.
pub proof fn lemma_board_roundtrip(b: Board)
    ensures
        parse_board(board_sfen(b)) == Some(b),
        row_text_or_slash(board_sfen(b)),
{
    lemma_rows_seq(b, 1);
    lemma_parse_rows(b, 0, Board::spec_empty());
}

/// Adding `n` pieces one by one to a hand that has room for them.
proof fn lemma_add_n(a: Hand, kind: PieceKind, n: nat)
    requires
        is_hand_kind(kind),
        a.spec_count(kind) + n <= 255,
    ensures
        add_n(a, kind, n) is Some,
        add_n(a, kind, n)->0.counts() == a.counts().update(
            hand_slot(kind)->0,
            (a.spec_count(kind) + n) as u8,
        ),
    decreases n,
{
    if n == 0 {
        assert(a.counts().update(hand_slot(kind)->0, a.spec_count(kind) as u8) =~= a.counts());
    } else {
        let a2 = a.spec_add(kind);
        lemma_add_n(a2, kind, (n - 1) as nat);
        assert(a2.counts().update(hand_slot(kind)->0, (a2.spec_count(kind) + n - 1) as u8)
            =~= a.counts().update(hand_slot(kind)->0, (a.spec_count(kind) + n) as u8));
    }
}

/// The pair of hands with the hand of `side` replaced.
pub open spec fn set_side(hands: (Hand, Hand), side: Side, h: Hand) -> (Hand, Hand) {
    match side {
        Side::Sente => (h, hands.1),
        Side::Gote => (hands.0, h),
    }
}

pub open spec fn side_of(hands: (Hand, Hand), side: Side) -> Hand {
    match side {
        Side::Sente => hands.0,
        Side::Gote => hands.1,
    }
}

/// The slot of the kind at position `i` of `hand_order`.
proof fn lemma_order_slot(i: int)
    requires
        0 <= i < 7,
    ensures
        hand_slot(hand_order(i)) == Some(6 - i),
        hand_order(i).unpromoted() == hand_order(i),
{
}

proof fn lemma_groups_text(h: Hand, side: Side, i: int)
    requires
        0 <= i <= 7,
    ensures
        row_text(hand_groups(h, side, i)),
        hand_groups(h, side, i).len() == 0 ==> forall|j: int|
            0 <= j < 7 - i ==> #[trigger] h.counts()[j] == 0,
    decreases 7 - i,
{
    if i < 7 {
        lemma_groups_text(h, side, i + 1);
        lemma_order_slot(i);
        let kind = hand_order(i);
        let n = h.spec_count(kind);
        lemma_letter(Piece { kind, side });
        lemma_decimal_text(n);
        let g = hand_group(h, kind, side);
        assert(row_text(g));
        lemma_row_text_concat(g, hand_groups(h, side, i + 1));
        if hand_groups(h, side, i).len() == 0 {
            if n > 0 {
                assert(g.len() > 0);
            }
        }
    }
}

/// A group of one piece: its letter.
proof fn lemma_parse_single(l: char, tail: Seq<char>, hands: (Hand, Hand), kind: PieceKind, side: Side)
    requires
        piece_of_char(l) == Some((kind, side)),
        !is_digit(l),
    ensures
        parse_hand_chars(seq![l] + tail, hands) == match add_to(
            hands,
            kind,
            side,
            1,
        ) {
            Some(h2) => parse_hand_chars(tail, h2),
            None => None,
        },
{
    reveal(parse_hand_chars);
    let t = seq![l] + tail;
    assert(t[0] == l);
    assert(t.skip(1) =~= tail);
}

/// A group of `n` pieces: the digits of `n`, then the letter.
proof fn lemma_parse_counted(
    n: nat,
    l: char,
    tail: Seq<char>,
    hands: (Hand, Hand),
    kind: PieceKind,
    side: Side,
)
    requires
        2 <= n <= 255,
        piece_of_char(l) == Some((kind, side)),
        !is_digit(l),
    ensures
        parse_hand_chars(decimal(n) + (seq![l] + tail), hands) == match add_to(
            hands,
            kind,
            side,
            n,
        ) {
            Some(h2) => parse_hand_chars(tail, h2),
            None => None,
        },
{
    reveal(parse_hand_chars);
    lemma_decimal(n);
    lemma_parse_decimal(n as u32);
    let d = decimal(n);
    let t = d + (seq![l] + tail);
    assert forall|m: int| 0 <= m < d.len() implies is_digit(t[m]) by {
        assert(t[m] == d[m]);
    }
    assert(t[d.len() as int] == l);
    lemma_digit_run(t, d.len() as int);
    assert(t.take(d.len() as int) =~= d);
    assert(parse_u8(d) == Some(n as u8));
    assert(t.skip(d.len() + 1int) =~= tail);
    assert(is_digit(t[0]));
}

/// Reading the groups of hand `h` from position `i` on completes the hand of `side`.
proof fn lemma_parse_groups(h: Hand, side: Side, i: int, rest: Seq<char>, hands: (Hand, Hand))
    requires
        0 <= i <= 7,
        forall|j: int|
            0 <= j < 7 ==> #[trigger] side_of(hands, side).counts()[j] == (if j >= 7 - i {
                h.counts()[j]
            } else {
                0
            }),
    ensures
        parse_hand_chars(hand_groups(h, side, i) + rest, hands) == parse_hand_chars(
            rest,
            set_side(hands, side, h),
        ),
    decreases 7 - i,
{
    let acc = side_of(hands, side);
    if i >= 7 {
        assert(acc.counts() =~= h.counts());
        crate::board::lemma_hand_ext(acc, h);
        assert(set_side(hands, side, h) == hands);
        assert(hand_groups(h, side, i) + rest =~= rest);
    } else {
        lemma_order_slot(i);
        let kind = hand_order(i);
        let n = h.spec_count(kind);
        let next = hand_groups(h, side, i + 1);
        let l = sfen_letter(Piece { kind, side });
        lemma_letter(Piece { kind, side });
        assert(acc.spec_count(kind) == 0);
        if n == 0 {
            assert(hand_groups(h, side, i) + rest =~= next + rest);
            lemma_parse_groups(h, side, i + 1, rest, hands);
        } else {
            lemma_add_n(acc, kind, n);
            let acc2 = add_n(acc, kind, n)->0;
            let hands2 = set_side(hands, side, acc2);
            assert(add_to(hands, kind, side, n) == Some(hands2));
            assert(side_of(hands2, side) == acc2);
            assert(set_side(hands2, side, h) == set_side(hands, side, h));
            let t = hand_groups(h, side, i) + rest;
            if n == 1 {
                assert(t =~= seq![l] + (next + rest));
                lemma_parse_single(l, next + rest, hands, kind, side);
            } else {
                assert(t =~= decimal(n) + (seq![l] + (next + rest)));
                lemma_parse_counted(n, l, next + rest, hands, kind, side);
            }
            lemma_parse_groups(h, side, i + 1, rest, hands2);
        }
    }
}

/// Reading the hand field of two hands gives them back.
pub proof fn lemma_hands_roundtrip(hs: Hand, hg: Hand)
    ensures
        parse_hands(hands_sfen(hs, hg)) == Some((hs, hg)),
        !hands_sfen(hs, hg).contains(' '),
{
    let a = hand_groups(hs, Side::Sente, 0);
    let b = hand_groups(hg, Side::Gote, 0);
    lemma_groups_text(hs, Side::Sente, 0);
    lemma_groups_text(hg, Side::Gote, 0);
    lemma_row_text_concat(a, b);
    let s = a + b;
    let e = Hand::spec_empty();
    if s.len() == 0 {
        assert(hs.counts() =~= e.counts());
        assert(hg.counts() =~= e.counts());
        crate::board::lemma_hand_ext(hs, e);
        crate::board::lemma_hand_ext(hg, e);
        assert(!seq!['-'].contains(' ')) by {
            assert(seq!['-'][0] != ' ');
        }
    } else {
        lemma_row_text_excludes(s);
        assert(s != seq!['-']) by {
            if s == seq!['-'] {
                assert(s.contains('-')) by {
                    assert(s[0] == '-');
                }
            }
        }
        lemma_parse_groups(hs, Side::Sente, 0, b, (e, e));
        assert(b =~= b + Seq::<char>::empty());
        lemma_parse_groups(hg, Side::Gote, 0, Seq::<char>::empty(), (hs, e));
        reveal(parse_hand_chars);
    }
}

/// Law: reading the SFEN text of a position gives the position back.
pub proof fn lemma_sfen_roundtrip(pos: Position)
    ensures
        parse_sfen(position_sfen(pos)) == Some(pos),
{
    let bs = board_sfen(pos.board);
    let hs = hands_sfen(pos.hand_sente, pos.hand_gote);
    let d = decimal(pos.move_number as nat);
    lemma_board_roundtrip(pos.board);
    lemma_hands_roundtrip(pos.hand_sente, pos.hand_gote);
    lemma_parse_decimal(pos.move_number);
    assert(!bs.contains(' ')) by {
        if bs.contains(' ') {
            let k = choose|k: int| 0 <= k < bs.len() && bs[k] == ' ';
            assert(row_char(bs[k]) || bs[k] == '/');
        }
    }
    let r2 = hs + seq![' '] + d;
    let r1 = seq!['b'] + seq![' '] + r2;
    assert(position_sfen(pos) =~= bs + seq![' '] + r1);
    lemma_split_once_at(bs, ' ', r1);
    assert(!seq!['b'].contains(' ')) by {
        assert(seq!['b'][0] != ' ');
    }
    lemma_split_once_at(seq!['b'], ' ', r2);
    lemma_split_once_at(hs, ' ', d);
}

/// The USI text of an action holds no whitespace, `:` or `|`, and is trimmed.
proof fn lemma_usi_plain(a: Action)
    requires
        a.wf(),
    ensures
        usi_action(a).len() > 0,
        !usi_action(a).contains(':'),
        !usi_action(a).contains('|'),
        forall|k: int| 0 <= k < usi_action(a).len() ==> !is_ws(#[trigger] usi_action(a)[k]),
{
    lemma_usi_chars(a);
    let u = usi_action(a);
    assert forall|k: int| 0 <= k < u.len() implies !is_ws(#[trigger] u[k]) by {
        assert(usi_text_char(u[k]));
    }
    if u.contains(':') {
        let k = choose|k: int| 0 <= k < u.len() && u[k] == ':';
        assert(usi_text_char(u[k]));
    }
    if u.contains('|') {
        let k = choose|k: int| 0 <= k < u.len() && u[k] == '|';
        assert(usi_text_char(u[k]));
    }
}

/// The decimal digits of a number hold no whitespace, `:`, `|` or newline.
pub(crate) proof fn lemma_decimal_plain(n: nat)
    ensures
        decimal(n).len() > 0,
        !decimal(n).contains(':'),
        !decimal(n).contains('\n'),
        forall|k: int| 0 <= k < decimal(n).len() ==> !is_ws(#[trigger] decimal(n)[k]),
        is_digit(decimal(n)[0]),
        is_digit(decimal(n).last()),
{
    lemma_decimal(n);
    let d = decimal(n);
    assert forall|k: int| 0 <= k < d.len() implies !is_ws(#[trigger] d[k]) by {
        assert(is_digit(d[k]));
    }
    if d.contains(':') {
        let k = choose|k: int| 0 <= k < d.len() && d[k] == ':';
        assert(is_digit(d[k]));
    }
    if d.contains('\n') {
        let k = choose|k: int| 0 <= k < d.len() && d[k] == '\n';
        assert(is_digit(d[k]));
    }
    assert(is_digit(d[d.len() - 1]));
}

/// Law: reading the line of a turn gives back its number and its actions.
pub proof fn lemma_ply_roundtrip(n: u32, ply: Ply)
    requires
        ply.sente.wf(),
        ply.gote.wf(),
    ensures
        parse_ply_line(ply_line(n, ply)) == Some((n, ply)),
{
    reveal(parse_ply_line);
    let d = decimal(n as nat);
    let u1 = usi_action(ply.sente);
    let u2 = usi_action(ply.gote);
    lemma_decimal_plain(n as nat);
    lemma_usi_plain(ply.sente);
    lemma_usi_plain(ply.gote);
    lemma_usi_roundtrip(ply.sente);
    lemma_usi_roundtrip(ply.gote);
    lemma_parse_decimal(n);
    let e = Seq::<char>::empty();
    let sp = seq![' '];
    let a = sp + u1 + sp;
    let b = sp + u2;
    let r = a + seq!['|'] + b;
    assert(ply_line(n, ply) =~= d + seq![':'] + r);
    lemma_split_once_at(d, ':', r);
    assert(e + d + e =~= d);
    lemma_trim_around(e, d, e);
    assert(!a.contains('|')) by {
        if a.contains('|') {
            let k = choose|k: int| 0 <= k < a.len() && a[k] == '|';
            if 1 <= k <= u1.len() {
                assert(a[k] == u1[k - 1]);
            }
        }
    }
    lemma_split_once_at(a, '|', b);
    assert(u1[0] == u1[0]);
    assert(!is_ws(u1[0]) && !is_ws(u1.last())) by {
        assert(u1.last() == u1[u1.len() - 1]);
    }
    assert(!is_ws(u2[0]) && !is_ws(u2.last())) by {
        assert(u2.last() == u2[u2.len() - 1]);
    }
    lemma_trim_around(sp, u1, sp);
    assert(b =~= sp + u2 + e);
    lemma_trim_around(sp, u2, e);
}

/// The line of a turn: not empty, no newline, trimmed, ending in neither `\r` nor whitespace.
proof fn lemma_ply_line_plain(n: u32, ply: Ply)
    requires
        ply.sente.wf(),
        ply.gote.wf(),
    ensures
        ply_line(n, ply).len() > 0,
        !ply_line(n, ply).contains('\n'),
        ply_line(n, ply).last() != '\r',
        trim(ply_line(n, ply)) == ply_line(n, ply),
{
    let l = ply_line(n, ply);
    let d = decimal(n as nat);
    let u1 = usi_action(ply.sente);
    let u2 = usi_action(ply.gote);
    lemma_decimal_plain(n as nat);
    lemma_usi_plain(ply.sente);
    lemma_usi_plain(ply.gote);
    lemma_usi_chars(ply.sente);
    lemma_usi_chars(ply.gote);
    assert(l.last() == u2.last());
    assert(u2.last() == u2[u2.len() - 1]);
    assert(usi_text_char(u2[u2.len() - 1]));
    assert(!l.contains('\n')) by {
        if l.contains('\n') {
            let k = choose|k: int| 0 <= k < l.len() && l[k] == '\n';
            assert(is_ws(l[k]));
            if k < d.len() {
                assert(l[k] == d[k]);
            } else if d.len() + 2 <= k < d.len() + 2 + u1.len() {
                assert(l[k] == u1[k - d.len() - 2]);
            } else if d.len() + 5 + u1.len() <= k {
                assert(l[k] == u2[k - d.len() - 5 - u1.len()]);
            }
        }
    }
    let e = Seq::<char>::empty();
    assert(e + l + e =~= l);
    assert(l[0] == d[0]);
    lemma_trim_around(e, l, e);
}

/// The lines of turns `i` onward.
pub open spec fn ply_lines_seq(plies: Seq<Ply>, n: int, i: int) -> Seq<Seq<char>>
    decreases plies.len() - i,
{
    if i >= plies.len() || i < 0 {
        Seq::empty()
    } else {
        seq![ply_line((n + i) as u32, plies[i])] + ply_lines_seq(plies, n, i + 1)
    }
}

pub(crate) proof fn lemma_lines_of_plies(x: Seq<char>, plies: Seq<Ply>, n: int, i: int)
    requires
        x.len() > 0,
        !x.contains('\n'),
        x.last() != '\r',
        plies_wf(plies),
        0 <= i <= plies.len(),
    ensures
        lines(x + plies_text(plies, n, i)) == seq![x] + ply_lines_seq(plies, n, i),
    decreases plies.len() - i,
{
    if i >= plies.len() {
        assert(x + plies_text(plies, n, i) =~= x);
        lemma_lines_single(x);
        assert(seq![x] + ply_lines_seq(plies, n, i) =~= seq![x]);
    } else {
        let l = ply_line((n + i) as u32, plies[i]);
        assert(plies[i].sente.wf() && plies[i].gote.wf());
        lemma_ply_line_plain((n + i) as u32, plies[i]);
        let rest = plies_text(plies, n, i + 1);
        assert(x + plies_text(plies, n, i) =~= x + seq!['\n'] + (l + rest));
        lemma_lines_cons(x, l + rest);
        assert(strip_cr(x) == x);
        lemma_lines_of_plies(l, plies, n, i + 1);
        assert(seq![x] + (seq![l] + ply_lines_seq(plies, n, i + 1)) =~= seq![x] + ply_lines_seq(
            plies,
            n,
            i,
        ));
    }
}

proof fn lemma_parse_plies(plies: Seq<Ply>, n: int, ls: Seq<Seq<char>>, j: int)
    requires
        plies_wf(plies),
        0 <= j <= plies.len(),
        ls.len() == plies.len() + 1,
        forall|k: int| 0 <= k < plies.len() ==> #[trigger] ls[k + 1] == ply_line((n + k) as u32, plies[k]),
    ensures
        parse_ply_lines(ls, j + 1) == Some(plies.skip(j)),
    decreases plies.len() - j,
{
    if j >= plies.len() {
        assert(plies.skip(j) =~= Seq::<Ply>::empty());
    } else {
        let l = ply_line((n + j) as u32, plies[j]);
        assert(ls[j + 1] == l);
        assert(plies[j].sente.wf() && plies[j].gote.wf());
        lemma_ply_line_plain((n + j) as u32, plies[j]);
        lemma_ply_roundtrip((n + j) as u32, plies[j]);
        lemma_parse_plies(plies, n, ls, j + 1);
        assert(seq![plies[j]] + plies.skip(j + 1) =~= plies.skip(j));
    }
}

pub(crate) proof fn lemma_ply_lines_seq(plies: Seq<Ply>, n: int, i: int)
    requires
        0 <= i <= plies.len(),
    ensures
        ply_lines_seq(plies, n, i).len() == plies.len() - i,
        forall|k: int|
            0 <= k < plies.len() - i ==> #[trigger] ply_lines_seq(plies, n, i)[k] == ply_line(
                (n + i + k) as u32,
                plies[i + k],
            ),
    decreases plies.len() - i,
{
    if i < plies.len() {
        lemma_ply_lines_seq(plies, n, i + 1);
        assert forall|k: int| 0 <= k < plies.len() - i implies #[trigger] ply_lines_seq(
            plies,
            n,
            i,
        )[k] == ply_line((n + i + k) as u32, plies[i + k]) by {
            if k > 0 {
                assert(ply_lines_seq(plies, n, i)[k] == ply_lines_seq(plies, n, i + 1)[k - 1]);
                assert(n + (i + 1) + (k - 1) == n + i + k);
            }
        }
    }
}

/// The SFEN text of a position has no newline and ends in a digit.
pub(crate) proof fn lemma_sfen_plain(pos: Position)
    ensures
        !position_sfen(pos).contains('\n'),
        position_sfen(pos).len() > 0,
        is_digit(position_sfen(pos).last()),
{
    let bs = board_sfen(pos.board);
    let hs = hands_sfen(pos.hand_sente, pos.hand_gote);
    let d = decimal(pos.move_number as nat);
    lemma_board_roundtrip(pos.board);
    lemma_decimal_plain(pos.move_number as nat);
    assert(!bs.contains('\n')) by {
        if bs.contains('\n') {
            let k = choose|k: int| 0 <= k < bs.len() && bs[k] == '\n';
            assert(row_char(bs[k]) || bs[k] == '/');
        }
    }
    let a = hand_groups(pos.hand_sente, Side::Sente, 0);
    let b = hand_groups(pos.hand_gote, Side::Gote, 0);
    lemma_groups_text(pos.hand_sente, Side::Sente, 0);
    lemma_groups_text(pos.hand_gote, Side::Gote, 0);
    lemma_row_text_concat(a, b);
    assert(!hs.contains('\n')) by {
        if hs.contains('\n') {
            let k = choose|k: int| 0 <= k < hs.len() && hs[k] == '\n';
            if (a + b).len() == 0 {
                assert(hs[k] == '-');
            } else {
                assert(row_char((a + b)[k]));
            }
        }
    }
    let mid = seq![' ', 'b', ' '];
    assert(!mid.contains('\n')) by {
        if mid.contains('\n') {
            let k = choose|k: int| 0 <= k < mid.len() && mid[k] == '\n';
        }
    }
    assert(!seq![' '].contains('\n')) by {
        if seq![' '].contains('\n') {
            let k = choose|k: int| 0 <= k < 1 && seq![' '][k] == '\n';
        }
    }
    lemma_not_contains_concat(bs, mid, '\n');
    lemma_not_contains_concat(bs + mid, hs, '\n');
    lemma_not_contains_concat(bs + mid + hs, seq![' '], '\n');
    lemma_not_contains_concat(bs + mid + hs + seq![' '], d, '\n');
    assert(position_sfen(pos).last() == d.last());
}

/// Law: reading the text of a game record gives back its starting position
/// and its turns.
pub proof fn lemma_kifu_roundtrip(init: Position, plies: Seq<Ply>)
    requires
        plies_wf(plies),
    ensures
        parse_kifu_text(kifu_text(init, plies)) == Some((init, plies)),
{
    let n = init.move_number as int;
    let sf = position_sfen(init);
    let h = sfen_tag() + sf;
    lemma_sfen_plain(init);
    lemma_sfen_roundtrip(init);
    assert(!sfen_tag().contains('\n')) by {
        if sfen_tag().contains('\n') {
            let k = choose|k: int| 0 <= k < 5 && sfen_tag()[k] == '\n';
        }
    }
    lemma_not_contains_concat(sfen_tag(), sf, '\n');
    assert(h.last() == sf.last());
    assert(kifu_text(init, plies) == h + plies_text(plies, n, 0));
    lemma_lines_of_plies(h, plies, n, 0);
    let ls = lines(kifu_text(init, plies));
    lemma_ply_lines_seq(plies, n, 0);
    assert(ls == seq![h] + ply_lines_seq(plies, n, 0));
    assert(ls[0] == h);
    assert(h.take(5) =~= sfen_tag());
    assert(h.skip(5) =~= sf);
    assert forall|k: int| 0 <= k < plies.len() implies #[trigger] ls[k + 1] == ply_line(
        (n + k) as u32,
        plies[k],
    ) by {
        assert(ls[k + 1] == ply_lines_seq(plies, n, 0)[k]);
    }
    lemma_parse_plies(plies, n, ls, 0);
    assert(plies.skip(0) =~= plies);
}

// ---------------------------------------------------------------------------
// Archives
// ---------------------------------------------------------------------------

/// A header value that reads back as itself: not empty, on one line, not
/// ending in whitespace, and not `-`.
pub open spec fn plain_value(t: Seq<char>) -> bool {
    &&& t.len() > 0
    &&& !t.contains('\n')
    &&& !is_ws(t.last())
    &&& t != seq!['-']
}

/// An optional header value that reads back as itself.
pub open spec fn plain_opt(v: Option<Seq<char>>) -> bool {
    match v {
        Some(t) => plain_value(t),
        None => true,
    }
}

/// A line that is its own trim, followed by a newline and more text.
proof fn lemma_plain_line(x: Seq<char>, y: Seq<char>)
    requires
        x.len() > 0,
        !is_ws(x[0]),
        !is_ws(x.last()),
        !x.contains('\n'),
    ensures
        trim(x) == x,
        lines(x + seq!['\n'] + y) == seq![x] + lines(y),
{
    let e = Seq::<char>::empty();
    assert(e + x + e =~= x);
    lemma_trim_around(e, x, e);
    lemma_lines_cons(x, y);
    assert(x.last() != '\r');
}

/// A literal word without whitespace or newline followed by a space and a value.
proof fn lemma_keyed(key: Seq<char>, value: Seq<char>)
    requires
        key.len() > 0,
        forall|k: int| 0 <= k < key.len() ==> !is_ws(#[trigger] key[k]) && key[k] != '\n',
        value.len() > 0,
        !value.contains('\n'),
        !is_ws(value.last()),
    ensures
        split_once(key + seq![' '] + value, ' ') == Some((key, value)),
        !(key + seq![' '] + value).contains('\n'),
        !is_ws((key + seq![' '] + value)[0]),
        !is_ws((key + seq![' '] + value).last()),
        (key + seq![' '] + value).len() > 0,
{
    let line = key + seq![' '] + value;
    assert(!key.contains(' ')) by {
        if key.contains(' ') {
            let k = choose|k: int| 0 <= k < key.len() && key[k] == ' ';
            assert(!is_ws(key[k]));
        }
    }
    lemma_split_once_at(key, ' ', value);
    assert(!key.contains('\n')) by {
        if key.contains('\n') {
            let k = choose|k: int| 0 <= k < key.len() && key[k] == '\n';
        }
    }
    assert(!seq![' '].contains('\n')) by {
        if seq![' '].contains('\n') {
            let k = choose|k: int| 0 <= k < 1 && seq![' '][k] == '\n';
        }
    }
    lemma_not_contains_concat(key, seq![' '], '\n');
    lemma_not_contains_concat(key + seq![' '], value, '\n');
    assert(line[0] == key[0]);
    assert(line.last() == value.last());
}

/// The decimal digits of a number as a header value.
proof fn lemma_number_value(n: nat)
    ensures
        decimal(n).len() > 0,
        !decimal(n).contains('\n'),
        !decimal(n).contains('.'),
        !decimal(n).contains(' '),
        !is_ws(decimal(n).last()),
{
    lemma_decimal_plain(n);
    lemma_decimal_text(n);
    lemma_row_text_excludes(decimal(n));
    let d = decimal(n);
    assert(d.last() == d[d.len() - 1]);
    if d.contains('.') {
        let k = choose|k: int| 0 <= k < d.len() && d[k] == '.';
        assert(row_char(d[k]));
    }
}

/// The names of result kinds and outcomes are plain words.
proof fn lemma_result_words(r: ArchiveResult)
    ensures
        kind_text(r.kind).len() > 0,
        outcome_text(r.outcome).len() > 0,
        forall|k: int| 0 <= k < kind_text(r.kind).len() ==> !is_ws(#[trigger] kind_text(r.kind)[k])
            && kind_text(r.kind)[k] != '\n',
        forall|k: int|
            0 <= k < outcome_text(r.outcome).len() ==> !is_ws(#[trigger] outcome_text(r.outcome)[k])
                && outcome_text(r.outcome)[k] != '\n',
{
    reveal_strlit("mate");
    reveal_strlit("king_death");
    reveal_strlit("swap_draw");
    reveal_strlit("sennichite");
    reveal_strlit("max_turns");
    reveal_strlit("resign");
    reveal_strlit("unfinished");
    reveal_strlit("other");
    reveal_strlit("sente_wins");
    reveal_strlit("gote_wins");
    reveal_strlit("draw");
    reveal_strlit("none");
    match r.kind {
        ResultKind::Mate => {
            assert("mate"@ =~= seq!['m', 'a', 't', 'e']);
        },
        ResultKind::KingDeath => {
            assert("king_death"@ =~= seq!['k', 'i', 'n', 'g', '_', 'd', 'e', 'a', 't', 'h']);
        },
        ResultKind::SwapDraw => {
            assert("swap_draw"@ =~= seq!['s', 'w', 'a', 'p', '_', 'd', 'r', 'a', 'w']);
        },
        ResultKind::Sennichite => {
            assert("sennichite"@ =~= seq!['s', 'e', 'n', 'n', 'i', 'c', 'h', 'i', 't', 'e']);
        },
        ResultKind::MaxTurns => {
            assert("max_turns"@ =~= seq!['m', 'a', 'x', '_', 't', 'u', 'r', 'n', 's']);
        },
        ResultKind::Resign => {
            assert("resign"@ =~= seq!['r', 'e', 's', 'i', 'g', 'n']);
        },
        ResultKind::Unfinished => {
            assert("unfinished"@ =~= seq!['u', 'n', 'f', 'i', 'n', 'i', 's', 'h', 'e', 'd']);
        },
        ResultKind::Other => {
            assert("other"@ =~= seq!['o', 't', 'h', 'e', 'r']);
        },
    }
    match r.outcome {
        Outcome::SenteWins => {
            assert("sente_wins"@ =~= seq!['s', 'e', 'n', 't', 'e', '_', 'w', 'i', 'n', 's']);
        },
        Outcome::GoteWins => {
            assert("gote_wins"@ =~= seq!['g', 'o', 't', 'e', '_', 'w', 'i', 'n', 's']);
        },
        Outcome::Draw => {
            assert("draw"@ =~= seq!['d', 'r', 'a', 'w']);
        },
        Outcome::Undecided => {
            assert("none"@ =~= seq!['n', 'o', 'n', 'e']);
        },
    }
}

proof fn lemma_value_plain(v: Option<Seq<char>>)
    requires
        plain_opt(v),
    ensures
        value_text(v).len() > 0,
        !value_text(v).contains('\n'),
        !is_ws(value_text(v).last()),
        value_of_text(value_text(v)) == v,
{
    match v {
        Some(t) => {},
        None => {
            assert(!seq!['-'].contains('\n')) by {
                if seq!['-'].contains('\n') {
                    let k = choose|k: int| 0 <= k < 1 && seq!['-'][k] == '\n';
                }
            }
        },
    }
}

/// A line that is its own trim, not empty, on one line.
pub open spec fn plain_line(x: Seq<char>) -> bool {
    &&& x.len() > 0
    &&& !is_ws(x[0])
    &&& !is_ws(x.last())
    &&& !x.contains('\n')
}

proof fn lemma_literals()
    ensures
        MAGIC@ == seq![
            'f', 'u', 'k', 'a', 'n', 'z', 'e', 'n', '-', 's', 'h', 'o', 'g', 'i', '-', 'a', 'r',
            'c', 'h', 'i', 'v', 'e',
        ],
        "rule"@ == seq!['r', 'u', 'l', 'e'],
        "protocol"@ == seq!['p', 'r', 'o', 't', 'o', 'c', 'o', 'l'],
        "app"@ == seq!['a', 'p', 'p'],
        "sente"@ == seq!['s', 'e', 'n', 't', 'e'],
        "gote"@ == seq!['g', 'o', 't', 'e'],
        "result"@ == seq!['r', 'e', 's', 'u', 'l', 't'],
        "rule "@ == "rule"@ + seq![' '],
        "protocol "@ == "protocol"@ + seq![' '],
        "app "@ == "app"@ + seq![' '],
        "sente "@ == "sente"@ + seq![' '],
        "gote "@ == "gote"@ + seq![' '],
        "result "@ == "result"@ + seq![' '],
        "sfen "@ == sfen_tag(),
{
    reveal_strlit("fukanzen-shogi-archive");
    reveal_strlit("rule ");
    reveal_strlit("protocol ");
    reveal_strlit("app ");
    reveal_strlit("sente ");
    reveal_strlit("gote ");
    reveal_strlit("result ");
    reveal_strlit("rule");
    reveal_strlit("protocol");
    reveal_strlit("app");
    reveal_strlit("sente");
    reveal_strlit("gote");
    reveal_strlit("result");
    reveal_strlit("sfen ");
    assert(MAGIC@ =~= seq![
        'f', 'u', 'k', 'a', 'n', 'z', 'e', 'n', '-', 's', 'h', 'o', 'g', 'i', '-', 'a', 'r',
        'c', 'h', 'i', 'v', 'e',
    ]);
    assert("rule"@ =~= seq!['r', 'u', 'l', 'e']);
    assert("protocol"@ =~= seq!['p', 'r', 'o', 't', 'o', 'c', 'o', 'l']);
    assert("app"@ =~= seq!['a', 'p', 'p']);
    assert("sente"@ =~= seq!['s', 'e', 'n', 't', 'e']);
    assert("gote"@ =~= seq!['g', 'o', 't', 'e']);
    assert("result"@ =~= seq!['r', 'e', 's', 'u', 'l', 't']);
    assert("rule "@ =~= "rule"@ + seq![' ']);
    assert("protocol "@ =~= "protocol"@ + seq![' ']);
    assert("app "@ =~= "app"@ + seq![' ']);
    assert("sente "@ =~= "sente"@ + seq![' ']);
    assert("gote "@ =~= "gote"@ + seq![' ']);
    assert("result "@ =~= "result"@ + seq![' ']);
    assert("sfen "@ =~= sfen_tag());
}

proof fn lemma_keyword(w: Seq<char>)
    requires
        w.len() > 0,
        forall|k: int| 0 <= k < w.len() ==> ('a' <= #[trigger] w[k] <= 'z' || w[k] == '-'),
    ensures
        forall|k: int| 0 <= k < w.len() ==> !is_ws(#[trigger] w[k]) && w[k] != '\n',
{
}

/// Each header line reads as its key and its value.
proof fn lemma_header_keys(m: MetaView)
    requires
        plain_opt(m.app),
        plain_opt(m.sente),
        plain_opt(m.gote),
    ensures
        forall|i: int| 0 <= i < 7 ==> plain_line(#[trigger] header_lines(m)[i]),
        split_once(header_lines(m)[0], ' ') == Some((MAGIC@, decimal(1))),
        split_once(header_lines(m)[1], ' ') == Some(("rule"@, decimal(m.rule.0 as nat) + seq!['.'] + decimal(m.rule.1 as nat))),
        split_once(header_lines(m)[2], ' ') == Some(("protocol"@, decimal(m.protocol as nat))),
        split_once(header_lines(m)[3], ' ') == Some(("app"@, value_text(m.app))),
        split_once(header_lines(m)[4], ' ') == Some(("sente"@, value_text(m.sente))),
        split_once(header_lines(m)[5], ' ') == Some(("gote"@, value_text(m.gote))),
        split_once(header_lines(m)[6], ' ') == Some(("result"@, kind_text(m.result.kind) + seq![' '] + outcome_text(m.result.outcome))),
{
    lemma_literals();
    let sp = seq![' '];
    let hl = header_lines(m);
    let ra = decimal(m.rule.0 as nat);
    let rb = decimal(m.rule.1 as nat);
    let kt = kind_text(m.result.kind);
    let ot = outcome_text(m.result.outcome);
    let v1 = ra + seq!['.'] + rb;
    let v6 = kt + sp + ot;
    lemma_number_value(1);
    lemma_number_value(m.rule.0 as nat);
    lemma_number_value(m.rule.1 as nat);
    lemma_number_value(m.protocol as nat);
    lemma_value_plain(m.app);
    lemma_value_plain(m.sente);
    lemma_value_plain(m.gote);
    lemma_result_words(m.result);
    lemma_keyword(MAGIC@);
    lemma_keyword("rule"@);
    lemma_keyword("protocol"@);
    lemma_keyword("app"@);
    lemma_keyword("sente"@);
    lemma_keyword("gote"@);
    lemma_keyword("result"@);
    assert(!seq!['.'].contains('\n')) by {
        if seq!['.'].contains('\n') {
            let k = choose|k: int| 0 <= k < 1 && seq!['.'][k] == '\n';
        }
    }
    lemma_not_contains_concat(ra, seq!['.'], '\n');
    lemma_not_contains_concat(ra + seq!['.'], rb, '\n');
    assert(v1.last() == rb.last());
    assert(!kt.contains('\n')) by {
        if kt.contains('\n') {
            let k = choose|k: int| 0 <= k < kt.len() && kt[k] == '\n';
        }
    }
    assert(!ot.contains('\n')) by {
        if ot.contains('\n') {
            let k = choose|k: int| 0 <= k < ot.len() && ot[k] == '\n';
        }
    }
    assert(!sp.contains('\n')) by {
        if sp.contains('\n') {
            let k = choose|k: int| 0 <= k < 1 && sp[k] == '\n';
        }
    }
    lemma_not_contains_concat(kt, sp, '\n');
    lemma_not_contains_concat(kt + sp, ot, '\n');
    assert(v6.last() == ot.last());
    assert(ot.last() == ot[ot.len() - 1]);
    assert(hl[0] =~= MAGIC@ + sp + decimal(1));
    assert(hl[1] =~= "rule"@ + sp + v1);
    assert(hl[2] =~= "protocol"@ + sp + decimal(m.protocol as nat));
    assert(hl[3] =~= "app"@ + sp + value_text(m.app));
    assert(hl[4] =~= "sente"@ + sp + value_text(m.sente));
    assert(hl[5] =~= "gote"@ + sp + value_text(m.gote));
    assert(hl[6] =~= "result"@ + sp + v6);
    lemma_keyed(MAGIC@, decimal(1));
    lemma_keyed("rule"@, v1);
    lemma_keyed("protocol"@, decimal(m.protocol as nat));
    lemma_keyed("app"@, value_text(m.app));
    lemma_keyed("sente"@, value_text(m.sente));
    lemma_keyed("gote"@, value_text(m.gote));
    lemma_keyed("result"@, v6);
}

proof fn lemma_lines_join_nl(ls: Seq<Seq<char>>, i: int, tail: Seq<char>)
    requires
        0 <= i <= ls.len(),
        forall|k: int| 0 <= k < ls.len() ==> plain_line(#[trigger] ls[k]),
    ensures
        lines(join_nl(ls, i, tail)) == ls.skip(i) + lines(tail),
    decreases ls.len() - i,
{
    if i < ls.len() {
        lemma_lines_join_nl(ls, i + 1, tail);
        assert(plain_line(ls[i]));
        lemma_plain_line(ls[i], join_nl(ls, i + 1, tail));
        assert(ls.skip(i) =~= seq![ls[i]] + ls.skip(i + 1));
    } else {
        assert(ls.skip(i) =~= Seq::<Seq<char>>::empty());
    }
}

proof fn lemma_header_text(m: MetaView, k: Seq<char>)
    ensures
        header_text(m) + k == join_nl(header_lines(m), 0, k),
{
    lemma_joined(header_lines(m), 0, k);
    assert(joined(header_lines(m), 0) + join_nl(header_lines(m), 0, k) =~= join_nl(
        header_lines(m),
        0,
        k,
    ));
}

/// The lines of an archive: its header lines, then the lines of its record.
proof fn lemma_archive_lines(init: Position, plies: Seq<Ply>, m: MetaView)
    requires
        plain_opt(m.app),
        plain_opt(m.sente),
        plain_opt(m.gote),
    ensures
        lines(archive_text(init, plies, m)) == header_lines(m) + lines(kifu_text(init, plies)),
{
    lemma_header_keys(m);
    let hl = header_lines(m);
    let k = kifu_text(init, plies);
    lemma_header_text(m, k);
    lemma_lines_join_nl(hl, 0, k);
    assert(hl.skip(0) =~= hl);
}

/// The state after the header lines of `m`.
pub open spec fn headers_of(m: MetaView) -> crate::archive::HeaderState {
    crate::archive::HeaderState {
        rule: Some(m.rule),
        protocol: Some(m.protocol),
        app: m.app,
        sente: m.sente,
        gote: m.gote,
        result: Some(m.result),
    }
}

proof fn lemma_apply_headers(m: MetaView)
    requires
        plain_opt(m.app),
        plain_opt(m.sente),
        plain_opt(m.gote),
    ensures
        apply_header(apply_header(apply_header(apply_header(apply_header(apply_header(
            crate::archive::no_headers(),
            header_lines(m)[1],
        ), header_lines(m)[2]), header_lines(m)[3]), header_lines(m)[4]), header_lines(m)[5]),
        header_lines(m)[6]) == headers_of(m),
{
    lemma_header_keys(m);
    lemma_literals();
    lemma_value_plain(m.app);
    lemma_value_plain(m.sente);
    lemma_value_plain(m.gote);
    lemma_number_value(m.rule.0 as nat);
    let ra = decimal(m.rule.0 as nat);
    let rb = decimal(m.rule.1 as nat);
    lemma_split_once_at(ra, '.', rb);
    lemma_parse_decimal(m.rule.0);
    lemma_parse_decimal(m.rule.1);
    lemma_parse_decimal(m.protocol);
    let kt = kind_text(m.result.kind);
    let ot = outcome_text(m.result.outcome);
    lemma_result_words(m.result);
    lemma_result_names(m.result.kind, m.result.outcome);
    assert(!kt.contains(' ')) by {
        if kt.contains(' ') {
            let k = choose|k: int| 0 <= k < kt.len() && kt[k] == ' ';
        }
    }
    lemma_split_once_at(kt, ' ', ot);
    let hl = header_lines(m);
    let st1 = apply_header(crate::archive::no_headers(), hl[1]);
    let st2 = apply_header(st1, hl[2]);
    let st3 = apply_header(st2, hl[3]);
    let st4 = apply_header(st3, hl[4]);
    let st5 = apply_header(st4, hl[5]);
    let st6 = apply_header(st5, hl[6]);
    assert(st1.rule == Some(m.rule));
    assert(st2 == crate::archive::HeaderState { protocol: Some(m.protocol), ..st1 });
    assert(st3 == crate::archive::HeaderState { app: m.app, ..st2 });
    assert(st4 == crate::archive::HeaderState { sente: m.sente, ..st3 });
    assert(st5 == crate::archive::HeaderState { gote: m.gote, ..st4 });
    assert(st6 == crate::archive::HeaderState { result: Some(m.result), ..st5 });
}

/// Law: reading the text of an archive gives back the record and the header,
/// when each optional header value is plain (see `plain_value`).
#[verifier::spinoff_prover]
#[verifier::rlimit(40)]
pub proof fn lemma_archive_roundtrip(init: Position, plies: Seq<Ply>, m: MetaView)
    requires
        plies_wf(plies),
        plain_opt(m.app),
        plain_opt(m.sente),
        plain_opt(m.gote),
    ensures
        parse_archive(archive_text(init, plies, m)) == Some((init, plies, m)),
{
    lemma_literals();
    lemma_archive_lines(init, plies, m);
    lemma_header_keys(m);
    lemma_apply_headers(m);
    let hl = header_lines(m);
    let n = init.move_number as int;
    let h = sfen_tag() + position_sfen(init);
    lemma_sfen_plain(init);
    assert(!sfen_tag().contains('\n')) by {
        if sfen_tag().contains('\n') {
            let k = choose|k: int| 0 <= k < 5 && sfen_tag()[k] == '\n';
        }
    }
    lemma_not_contains_concat(sfen_tag(), position_sfen(init), '\n');
    assert(h.last() == position_sfen(init).last());
    assert(kifu_text(init, plies) == h + plies_text(plies, n, 0));
    lemma_lines_of_plies(h, plies, n, 0);
    lemma_ply_lines_seq(plies, n, 0);
    let ls = lines(archive_text(init, plies, m));
    assert(ls.len() == 8 + plies.len());
    assert(forall|i: int| 0 <= i < 7 ==> ls[i] == hl[i]);
    assert(ls[7] == h);
    assert forall|k: int| 0 <= k < plies.len() implies #[trigger] ls[8 + k] == ply_line(
        (n + k) as u32,
        plies[k],
    ) by {
        assert(ls[8 + k] == ply_lines_seq(plies, n, 0)[k]);
    }
    assert(plain_line(hl[0]));
    assert(trim(ls[0]) == hl[0]) by {
        lemma_plain_line(hl[0], Seq::<char>::empty());
    }
    assert(!has_prefix(hl[0], "sfen "@)) by {
        assert(hl[0][0] == 'f');
    }
    assert(h[0] == 's');
    assert(plain_line(h)) by {
        assert(h.last() == h[h.len() - 1]);
    }
    lemma_plain_line(h, Seq::<char>::empty());
    assert(has_prefix(h, "sfen "@)) by {
        assert(h.take(5) =~= sfen_tag());
    }
    lemma_scan_headers(ls, m);
    lemma_join_record(ls, plies, n, h);
    lemma_kifu_roundtrip(init, plies);
}

proof fn lemma_scan_step(ls: Seq<Seq<char>>, i: int, st: crate::archive::HeaderState, line: Seq<char>)
    requires
        0 <= i < ls.len(),
        trim(ls[i]) == line,
        line.len() > 0,
        !has_prefix(line, "sfen "@),
    ensures
        scan_headers(ls, i, st) == scan_headers(ls, i + 1, apply_header(st, line)),
{
}

#[verifier::spinoff_prover]
#[verifier::rlimit(40)]
proof fn lemma_scan_headers(ls: Seq<Seq<char>>, m: MetaView)
    requires
        plain_opt(m.app),
        plain_opt(m.sente),
        plain_opt(m.gote),
        ls.len() >= 8,
        forall|i: int| 1 <= i < 7 ==> ls[i] == header_lines(m)[i],
        trim(ls[7]) == ls[7],
        ls[7].len() > 0,
        has_prefix(ls[7], "sfen "@),
    ensures
        scan_headers(ls, 1, crate::archive::no_headers()) == (headers_of(m), Some(7int)),
{
    lemma_header_keys(m);
    lemma_apply_headers(m);
    lemma_literals();
    let hl = header_lines(m);
    assert forall|i: int| 1 <= i < 7 implies trim(#[trigger] hl[i]) == hl[i] && !has_prefix(
        hl[i],
        "sfen "@,
    ) by {
        lemma_plain_line(hl[i], Seq::<char>::empty());
        if has_prefix(hl[i], "sfen "@) {
            assert(hl[i].take(5)[0] == 's');
            assert(hl[i].take(5)[1] == 'f');
            if i == 4 {
                assert(hl[i][1] == 'e');
            } else {
                assert(hl[i][0] != 's');
            }
        }
    }
    let st0 = crate::archive::no_headers();
    let st1 = apply_header(st0, hl[1]);
    let st2 = apply_header(st1, hl[2]);
    let st3 = apply_header(st2, hl[3]);
    let st4 = apply_header(st3, hl[4]);
    let st5 = apply_header(st4, hl[5]);
    let st6 = apply_header(st5, hl[6]);
    assert(scan_headers(ls, 7, st6) == (st6, Some(7int)));
    assert(trim(hl[1]) == hl[1] && trim(hl[2]) == hl[2] && trim(hl[3]) == hl[3]);
    assert(trim(hl[4]) == hl[4] && trim(hl[5]) == hl[5] && trim(hl[6]) == hl[6]);
    assert(plain_line(hl[1]) && plain_line(hl[2]) && plain_line(hl[3]));
    assert(plain_line(hl[4]) && plain_line(hl[5]) && plain_line(hl[6]));
    lemma_scan_step(ls, 6, st5, hl[6]);
    lemma_scan_step(ls, 5, st4, hl[5]);
    lemma_scan_step(ls, 4, st3, hl[4]);
    lemma_scan_step(ls, 3, st2, hl[3]);
    lemma_scan_step(ls, 2, st1, hl[2]);
    lemma_scan_step(ls, 1, st0, hl[1]);
}

/// Joining the record lines of an archive gives back the text of the record.
proof fn lemma_join_record(ls: Seq<Seq<char>>, plies: Seq<Ply>, n: int, h: Seq<char>)
    requires
        ls.len() == 8 + plies.len(),
        ls[7] == h,
        forall|k: int| 0 <= k < plies.len() ==> #[trigger] ls[8 + k] == ply_line((n + k) as u32, plies[k]),
    ensures
        join_from(ls, 7) == h + plies_text(plies, n, 0),
{
    if plies.len() == 0 {
        assert(h + plies_text(plies, n, 0) =~= h);
    } else {
        lemma_join_plies(ls, plies, n, 0);
        assert(h + plies_text(plies, n, 0) =~= h + seq!['\n'] + (ply_line(n as u32, plies[0])
            + plies_text(plies, n, 1)));
        assert(ls[8] == ply_line((n + 0) as u32, plies[0]));
    }
}

proof fn lemma_join_plies(ls: Seq<Seq<char>>, plies: Seq<Ply>, n: int, j: int)
    requires
        ls.len() == 8 + plies.len(),
        0 <= j < plies.len(),
        forall|k: int| 0 <= k < plies.len() ==> #[trigger] ls[8 + k] == ply_line((n + k) as u32, plies[k]),
    ensures
        join_from(ls, 8 + j) == ply_line((n + j) as u32, plies[j]) + plies_text(plies, n, j + 1),
    decreases plies.len() - j,
{
    assert(ls[8 + j] == ply_line((n + j) as u32, plies[j]));
    if j == plies.len() - 1 {
        assert(ply_line((n + j) as u32, plies[j]) + plies_text(plies, n, j + 1) =~= ply_line(
            (n + j) as u32,
            plies[j],
        ));
    } else {
        lemma_join_plies(ls, plies, n, j + 1);
        assert(ply_line((n + j) as u32, plies[j]) + plies_text(plies, n, j + 1) =~= ply_line(
            (n + j) as u32,
            plies[j],
        ) + seq!['\n'] + (ply_line((n + j + 1) as u32, plies[j + 1]) + plies_text(
            plies,
            n,
            j + 2,
        )));
    }
}

// ---------------------------------------------------------------------------
// Hashing and repetition bytes
// ---------------------------------------------------------------------------

/// Law: two positions have the same canonical bytes exactly when they are the
/// same position (board, hands and turn number).
pub proof fn lemma_canonical_bytes_identify(p: Position, q: Position)
    ensures
        (encode_utf8(position_sfen(p)) == encode_utf8(position_sfen(q))) <==> (p == q),
{
    if encode_utf8(position_sfen(p)) == encode_utf8(position_sfen(q)) {
        encode_utf8_decode_utf8(position_sfen(p));
        encode_utf8_decode_utf8(position_sfen(q));
        lemma_sfen_roundtrip(p);
        lemma_sfen_roundtrip(q);
    }
}

/// Law: two positions have the same content bytes exactly when their boards
/// and hands are the same, whatever their turn numbers.
pub proof fn lemma_content_bytes_identify(p: Position, q: Position)
    ensures
        (encode_utf8(content_sfen(p)) == encode_utf8(content_sfen(q))) <==> (p.board == q.board
            && p.hand_sente == q.hand_sente && p.hand_gote == q.hand_gote),
{
    if encode_utf8(content_sfen(p)) == encode_utf8(content_sfen(q)) {
        encode_utf8_decode_utf8(content_sfen(p));
        encode_utf8_decode_utf8(content_sfen(q));
        let bp = board_sfen(p.board);
        let bq = board_sfen(q.board);
        let hp = hands_sfen(p.hand_sente, p.hand_gote);
        let hq = hands_sfen(q.hand_sente, q.hand_gote);
        lemma_board_roundtrip(p.board);
        lemma_board_roundtrip(q.board);
        lemma_hands_roundtrip(p.hand_sente, p.hand_gote);
        lemma_hands_roundtrip(q.hand_sente, q.hand_gote);
        assert(!bp.contains(' ')) by {
            if bp.contains(' ') {
                let k = choose|k: int| 0 <= k < bp.len() && bp[k] == ' ';
                assert(row_char(bp[k]) || bp[k] == '/');
            }
        }
        assert(!bq.contains(' ')) by {
            if bq.contains(' ') {
                let k = choose|k: int| 0 <= k < bq.len() && bq[k] == ' ';
                assert(row_char(bq[k]) || bq[k] == '/');
            }
        }
        lemma_split_once_at(bp, ' ', hp);
        lemma_split_once_at(bq, ' ', hq);
        assert(content_sfen(p) == bp + seq![' '] + hp);
        assert(content_sfen(q) == bq + seq![' '] + hq);
    }
}

} // verus!
