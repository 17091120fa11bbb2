//! The archive format: a game record under a header that names the rule and
//! protocol versions, the application, the players and the result.
use vstd::prelude::*;

use crate::kifu::Kifu;
use crate::serialize::{kifu_from_string, kifu_text, kifu_to_string, parse_kifu_text, plies_wf};
use crate::text::{
    chars_eq, chars_of, decimal, has_prefix, joined, lines, lines_of, parse_u32, parse_u32_chars,
    push_char, push_decimal, push_str, split_index, split_once, starts_with, sub_vec, trim,
    trim_vec,
};
use crate::types::Ply;
use crate::board::Position;

verus! {

/// The version of the archive format.
pub const ARCHIVE_FORMAT_VERSION: u32 = 1;

/// The first word of an archive.
pub const MAGIC: &'static str = "fukanzen-shogi-archive";

/// How a game ended.
#[derive(Debug, Clone, Copy, PartialEq, Eq, Structural)]
pub enum ResultKind {
    Mate,
    KingDeath,
    SwapDraw,
    Sennichite,
    MaxTurns,
    Resign,
    Unfinished,
    Other,
}

/// Who won.
#[derive(Debug, Clone, Copy, PartialEq, Eq, Structural)]
pub enum Outcome {
    SenteWins,
    GoteWins,
    Draw,
    Undecided,
}

/// The name of a result kind in an archive.
pub open spec fn kind_text(k: ResultKind) -> Seq<char> {
    match k {
        ResultKind::Mate => "mate"@,
        ResultKind::KingDeath => "king_death"@,
        ResultKind::SwapDraw => "swap_draw"@,
        ResultKind::Sennichite => "sennichite"@,
        ResultKind::MaxTurns => "max_turns"@,
        ResultKind::Resign => "resign"@,
        ResultKind::Unfinished => "unfinished"@,
        ResultKind::Other => "other"@,
    }
}

/// The result kind with a given name.
pub open spec fn kind_of_text(s: Seq<char>) -> Option<ResultKind> {
    if s == "mate"@ {
        Some(ResultKind::Mate)
    } else if s == "king_death"@ {
        Some(ResultKind::KingDeath)
    } else if s == "swap_draw"@ {
        Some(ResultKind::SwapDraw)
    } else if s == "sennichite"@ {
        Some(ResultKind::Sennichite)
    } else if s == "max_turns"@ {
        Some(ResultKind::MaxTurns)
    } else if s == "resign"@ {
        Some(ResultKind::Resign)
    } else if s == "unfinished"@ {
        Some(ResultKind::Unfinished)
    } else if s == "other"@ {
        Some(ResultKind::Other)
    } else {
        None
    }
}

/// The name of an outcome in an archive.
pub open spec fn outcome_text(o: Outcome) -> Seq<char> {
    match o {
        Outcome::SenteWins => "sente_wins"@,
        Outcome::GoteWins => "gote_wins"@,
        Outcome::Draw => "draw"@,
        Outcome::Undecided => "none"@,
    }
}

/// The outcome with a given name.
pub open spec fn outcome_of_text(s: Seq<char>) -> Option<Outcome> {
    if s == "sente_wins"@ {
        Some(Outcome::SenteWins)
    } else if s == "gote_wins"@ {
        Some(Outcome::GoteWins)
    } else if s == "draw"@ {
        Some(Outcome::Draw)
    } else if s == "none"@ {
        Some(Outcome::Undecided)
    } else {
        None
    }
}

fn text_is(v: &[char], lit: &str) -> (b: bool)
    ensures
        b == (v@ == lit@),
{
    let w = chars_of(lit);
    chars_eq(v, &w)
}

impl ResultKind {
    /// The name of the kind in an archive.
    pub fn to_str(&self) -> (s: &'static str)
        ensures
            s@ == kind_text(*self),
    {
        match self {
            ResultKind::Mate => "mate",
            ResultKind::KingDeath => "king_death",
            ResultKind::SwapDraw => "swap_draw",
            ResultKind::Sennichite => "sennichite",
            ResultKind::MaxTurns => "max_turns",
            ResultKind::Resign => "resign",
            ResultKind::Unfinished => "unfinished",
            ResultKind::Other => "other",
        }
    }

    /// The kind with a given name, if there is one.
    pub fn from_str(s: &str) -> (r: Option<Self>)
        ensures
            r == kind_of_text(s@),
    {
        let v = chars_of(s);
        kind_from_chars(&v)
    }
}

fn kind_from_chars(v: &[char]) -> (r: Option<ResultKind>)
    ensures
        r == kind_of_text(v@),
{
    if text_is(v, "mate") {
        Some(ResultKind::Mate)
    } else if text_is(v, "king_death") {
        Some(ResultKind::KingDeath)
    } else if text_is(v, "swap_draw") {
        Some(ResultKind::SwapDraw)
    } else if text_is(v, "sennichite") {
        Some(ResultKind::Sennichite)
    } else if text_is(v, "max_turns") {
        Some(ResultKind::MaxTurns)
    } else if text_is(v, "resign") {
        Some(ResultKind::Resign)
    } else if text_is(v, "unfinished") {
        Some(ResultKind::Unfinished)
    } else if text_is(v, "other") {
        Some(ResultKind::Other)
    } else {
        None
    }
}

impl Outcome {
    /// The name of the outcome in an archive.
    pub fn to_str(&self) -> (s: &'static str)
        ensures
            s@ == outcome_text(*self),
    {
        match self {
            Outcome::SenteWins => "sente_wins",
            Outcome::GoteWins => "gote_wins",
            Outcome::Draw => "draw",
            Outcome::Undecided => "none",
        }
    }

    /// The outcome with a given name, if there is one.
    pub fn from_str(s: &str) -> (r: Option<Self>)
        ensures
            r == outcome_of_text(s@),
    {
        let v = chars_of(s);
        outcome_from_chars(&v)
    }
}

fn outcome_from_chars(v: &[char]) -> (r: Option<Outcome>)
    ensures
        r == outcome_of_text(v@),
{
    if text_is(v, "sente_wins") {
        Some(Outcome::SenteWins)
    } else if text_is(v, "gote_wins") {
        Some(Outcome::GoteWins)
    } else if text_is(v, "draw") {
        Some(Outcome::Draw)
    } else if text_is(v, "none") {
        Some(Outcome::Undecided)
    } else {
        None
    }
}

/// Law: every result kind and every outcome reads back from its name.
pub proof fn lemma_result_names(k: ResultKind, o: Outcome)
    ensures
        kind_of_text(kind_text(k)) == Some(k),
        outcome_of_text(outcome_text(o)) == Some(o),
{
    reveal_strlit("mate");
    reveal_strlit("king_death");
    reveal_strlit("swap_draw");
    reveal_strlit("sennichite");
    reveal_strlit("max_turns");
    reveal_strlit("resign");
    reveal_strlit("unfinished");
    reveal_strlit("other");
    reveal_strlit("sente_wins");
    reveal_strlit("gote_wins");
    reveal_strlit("draw");
    reveal_strlit("none");
    assert("mate"@.len() == 4 && "king_death"@.len() == 10 && "swap_draw"@.len() == 9);
    assert("sennichite"@.len() == 10 && "max_turns"@.len() == 9 && "resign"@.len() == 6);
    assert("unfinished"@.len() == 10 && "other"@.len() == 5);
    assert("sennichite"@[0] != "king_death"@[0] && "unfinished"@[0] != "king_death"@[0]);
    assert("unfinished"@[0] != "sennichite"@[0] && "max_turns"@[0] != "swap_draw"@[0]);
    assert("sente_wins"@.len() == 10 && "gote_wins"@.len() == 9 && "draw"@.len() == 4);
    assert("none"@.len() == 4 && "draw"@[0] != "none"@[0]);
    match k {
        ResultKind::Mate => {},
        ResultKind::KingDeath => {},
        ResultKind::SwapDraw => {},
        ResultKind::Sennichite => {},
        ResultKind::MaxTurns => {},
        ResultKind::Resign => {},
        ResultKind::Unfinished => {},
        ResultKind::Other => {},
    }
}

/// The result line of an archive.
#[derive(Debug, Clone, Copy, PartialEq, Eq, Structural)]
pub struct ArchiveResult {
    pub kind: ResultKind,
    pub outcome: Outcome,
}

/// The header of an archive.
#[derive(Debug, PartialEq)]
pub struct ArchiveMeta {
    pub rule: (u32, u32),
    pub protocol: u32,
    pub app: Option<String>,
    pub sente: Option<String>,
    pub gote: Option<String>,
    pub result: ArchiveResult,
}

/// The header of an archive, with its texts as character sequences.
pub struct MetaView {
    pub rule: (u32, u32),
    pub protocol: u32,
    pub app: Option<Seq<char>>,
    pub sente: Option<Seq<char>>,
    pub gote: Option<Seq<char>>,
    pub result: ArchiveResult,
}

/// An optional text as characters.
pub open spec fn opt_chars(s: Option<String>) -> Option<Seq<char>> {
    match s {
        Some(t) => Some(t@),
        None => None,
    }
}

impl View for ArchiveMeta {
    type V = MetaView;

    open spec fn view(&self) -> MetaView {
        MetaView {
            rule: self.rule,
            protocol: self.protocol,
            app: opt_chars(self.app),
            sente: opt_chars(self.sente),
            gote: opt_chars(self.gote),
            result: self.result,
        }
    }
}

// ---------------------------------------------------------------------------
// Writing
// ---------------------------------------------------------------------------

/// An optional header value: the text, or `-` for none.
pub open spec fn value_text(v: Option<Seq<char>>) -> Seq<char> {
    match v {
        Some(t) => t,
        None => seq!['-'],
    }
}

/// The header lines of an archive.
pub open spec fn header_lines(m: MetaView) -> Seq<Seq<char>> {
    seq![
        MAGIC@ + seq![' '] + decimal(ARCHIVE_FORMAT_VERSION as nat),
        "rule "@ + decimal(m.rule.0 as nat) + seq!['.'] + decimal(m.rule.1 as nat),
        "protocol "@ + decimal(m.protocol as nat),
        "app "@ + value_text(m.app),
        "sente "@ + value_text(m.sente),
        "gote "@ + value_text(m.gote),
        "result "@ + kind_text(m.result.kind) + seq![' '] + outcome_text(m.result.outcome),
    ]
}

/// The header of an archive: its lines, each followed by a newline.
pub open spec fn header_text(m: MetaView) -> Seq<char> {
    joined(header_lines(m), 7)
}

/// The text of an archive: the header, then the text of the record.
pub open spec fn archive_text(init: Position, plies: Seq<Ply>, m: MetaView) -> Seq<char> {
    header_text(m) + kifu_text(init, plies)
}

fn push_value(s: &mut String, v: &Option<String>)
    ensures
        final(s)@ == old(s)@ + value_text(opt_chars(*v)),
{
    match v {
        Some(t) => push_str(s, t.as_str()),
        None => {
            push_char(s, '-');
            assert(final(s)@ =~= old(s)@ + seq!['-']);
        },
    }
}

/// The text of an archive (see `archive_text`).
pub fn kifu_to_archive(kifu: &Kifu, meta: &ArchiveMeta) -> (s: String)
    requires
        plies_wf(kifu.plies@),
        kifu.initial_position.move_number + kifu.plies@.len() <= u32::MAX,
    ensures
        s@ == archive_text(kifu.initial_position, kifu.plies@, meta@),
{
    let ghost hl = header_lines(meta@);
    let mut s = String::new();
    push_str(&mut s, MAGIC);
    push_char(&mut s, ' ');
    push_decimal(&mut s, ARCHIVE_FORMAT_VERSION);
    assert(s@ =~= hl[0]);
    push_char(&mut s, '\n');
    assert(joined(hl, 0) == Seq::<char>::empty());
    assert(s@ =~= joined(hl, 1));
    let ghost before = s@;
    push_str(&mut s, "rule ");
    push_decimal(&mut s, meta.rule.0);
    push_char(&mut s, '.');
    push_decimal(&mut s, meta.rule.1);
    push_char(&mut s, '\n');
    assert(s@ =~= before + hl[1] + seq!['\n']);
    assert(s@ =~= joined(hl, 2));
    let ghost before = s@;
    push_str(&mut s, "protocol ");
    push_decimal(&mut s, meta.protocol);
    push_char(&mut s, '\n');
    assert(s@ =~= before + hl[2] + seq!['\n']);
    assert(s@ =~= joined(hl, 3));
    let ghost before = s@;
    push_str(&mut s, "app ");
    push_value(&mut s, &meta.app);
    push_char(&mut s, '\n');
    assert(s@ =~= before + hl[3] + seq!['\n']);
    assert(s@ =~= joined(hl, 4));
    let ghost before = s@;
    push_str(&mut s, "sente ");
    push_value(&mut s, &meta.sente);
    push_char(&mut s, '\n');
    assert(s@ =~= before + hl[4] + seq!['\n']);
    assert(s@ =~= joined(hl, 5));
    let ghost before = s@;
    push_str(&mut s, "gote ");
    push_value(&mut s, &meta.gote);
    push_char(&mut s, '\n');
    assert(s@ =~= before + hl[5] + seq!['\n']);
    assert(s@ =~= joined(hl, 6));
    let ghost before = s@;
    push_str(&mut s, "result ");
    push_str(&mut s, meta.result.kind.to_str());
    push_char(&mut s, ' ');
    push_str(&mut s, meta.result.outcome.to_str());
    push_char(&mut s, '\n');
    assert(s@ =~= before + hl[6] + seq!['\n']);
    assert(s@ =~= joined(hl, 7));
    let body = kifu_to_string(kifu);
    push_str(&mut s, body.as_str());
    s
}

// ---------------------------------------------------------------------------
// Reading
// ---------------------------------------------------------------------------

/// What the header lines read so far have set.
pub struct HeaderState {
    pub rule: Option<(u32, u32)>,
    pub protocol: Option<u32>,
    pub app: Option<Seq<char>>,
    pub sente: Option<Seq<char>>,
    pub gote: Option<Seq<char>>,
    pub result: Option<ArchiveResult>,
}

/// Nothing read yet.
pub open spec fn no_headers() -> HeaderState {
    HeaderState { rule: None, protocol: None, app: None, sente: None, gote: None, result: None }
}

/// An optional header value: none for `-`.
pub open spec fn value_of_text(v: Seq<char>) -> Option<Seq<char>> {
    if v == seq!['-'] {
        None
    } else {
        Some(v)
    }
}

/// The effect of one header line `<key> <value>`. A `rule` or `result` line
/// that does not read leaves the state alone; a `protocol` line that does not
/// read clears the protocol; unknown keys are ignored.
pub open spec fn apply_header(st: HeaderState, line: Seq<char>) -> HeaderState {
    match split_once(line, ' ') {
        None => st,
        Some((key, value)) => if key == "rule"@ {
            match split_once(value, '.') {
                Some((a, b)) => match (parse_u32(a), parse_u32(b)) {
                    (Some(x), Some(y)) => HeaderState { rule: Some((x, y)), ..st },
                    _ => st,
                },
                None => st,
            }
        } else if key == "protocol"@ {
            HeaderState { protocol: parse_u32(value), ..st }
        } else if key == "app"@ {
            HeaderState { app: value_of_text(value), ..st }
        } else if key == "sente"@ {
            HeaderState { sente: value_of_text(value), ..st }
        } else if key == "gote"@ {
            HeaderState { gote: value_of_text(value), ..st }
        } else if key == "result"@ {
            match split_once(value, ' ') {
                Some((ks, os)) => match (kind_of_text(ks), outcome_of_text(os)) {
                    (Some(k), Some(o)) => HeaderState {
                        result: Some(ArchiveResult { kind: k, outcome: o }),
                        ..st
                    },
                    _ => st,
                },
                None => st,
            }
        } else {
            st
        },
    }
}

/// Reads header lines from line `i` on, each trimmed, skipping blank ones,
/// up to the first line that starts with `sfen `; gives the state and where
/// the record starts (none if no line starts it).
pub open spec fn scan_headers(ls: Seq<Seq<char>>, i: int, st: HeaderState) -> (HeaderState, Option<int>)
    decreases ls.len() - i,
{
    if i >= ls.len() || i < 0 {
        (st, None)
    } else {
        let line = trim(ls[i]);
        if line.len() == 0 {
            scan_headers(ls, i + 1, st)
        } else if has_prefix(line, "sfen "@) {
            (st, Some(i))
        } else {
            scan_headers(ls, i + 1, apply_header(st, line))
        }
    }
}

/// Lines `i` onward joined by newlines.
pub open spec fn join_from(ls: Seq<Seq<char>>, i: int) -> Seq<char>
    decreases ls.len() - i,
{
    if i >= ls.len() || i < 0 {
        Seq::empty()
    } else if i == ls.len() - 1 {
        ls[i]
    } else {
        ls[i] + seq!['\n'] + join_from(ls, i + 1)
    }
}

/// The header given to a record without one: the rules of this crate, no
/// protocol, no names, unfinished.
pub open spec fn plain_record_meta() -> MetaView {
    MetaView {
        rule: crate::RULE_VERSION,
        protocol: 0,
        app: None,
        sente: None,
        gote: None,
        result: ArchiveResult { kind: ResultKind::Unfinished, outcome: Outcome::Undecided },
    }
}

/// Reads an archive. A text whose first line starts with `sfen ` is a bare
/// record. Otherwise the first word must be the magic word; the header lines
/// follow up to the record, and the rule, protocol and result must be set.
pub open spec fn parse_archive(s: Seq<char>) -> Option<(Position, Seq<Ply>, MetaView)> {
    let ls = lines(s);
    if ls.len() == 0 {
        None
    } else if has_prefix(trim(ls[0]), "sfen "@) {
        match parse_kifu_text(s) {
            Some((init, plies)) => Some((init, plies, plain_record_meta())),
            None => None,
        }
    } else {
        match split_once(trim(ls[0]), ' ') {
            None => None,
            Some((word, _)) => if word != MAGIC@ {
                None
            } else {
                let (st, start) = scan_headers(ls, 1, no_headers());
                match start {
                    None => None,
                    Some(b) => match parse_kifu_text(join_from(ls, b)) {
                        None => None,
                        Some((init, plies)) => match (st.rule, st.protocol, st.result) {
                            (Some(rule), Some(protocol), Some(result)) => Some(
                                (
                                    init,
                                    plies,
                                    MetaView {
                                        rule,
                                        protocol,
                                        app: st.app,
                                        sente: st.sente,
                                        gote: st.gote,
                                        result,
                                    },
                                ),
                            ),
                            _ => None,
                        },
                    },
                }
            },
        }
    }
}

/// The turns of an archive read from text are well formed.
pub proof fn lemma_parsed_archive_wf(s: Seq<char>)
    ensures
        parse_archive(s) matches Some((init, plies, m)) ==> plies_wf(plies),
{
    crate::serialize::lemma_parsed_kifu_wf(s);
    let ls = lines(s);
    if ls.len() > 0 {
        let (st, start) = scan_headers(ls, 1, no_headers());
        if let Some(b) = start {
            crate::serialize::lemma_parsed_kifu_wf(join_from(ls, b));
        }
    }
}

struct Headers {
    rule: Option<(u32, u32)>,
    protocol: Option<u32>,
    app: Option<String>,
    sente: Option<String>,
    gote: Option<String>,
    result: Option<ArchiveResult>,
}

impl View for Headers {
    type V = HeaderState;

    closed spec fn view(&self) -> HeaderState {
        HeaderState {
            rule: self.rule,
            protocol: self.protocol,
            app: opt_chars(self.app),
            sente: opt_chars(self.sente),
            gote: opt_chars(self.gote),
            result: self.result,
        }
    }
}

fn value_from(v: &[char]) -> (r: Option<String>)
    ensures
        opt_chars(r) == value_of_text(v@),
{
    if v.len() == 1 && v[0] == '-' {
        assert(v@ =~= seq!['-']);
        None
    } else {
        assert(v@ != seq!['-']);
        Some(crate::text::string_of(v))
    }
}

fn apply_header_line(h: &mut Headers, line: &[char])
    ensures
        final(h)@ == apply_header(old(h)@, line@),
{
    let i = match split_index(line, ' ') {
        Some(i) => i,
        None => {
            return ;
        },
    };
    let key = sub_vec(line, 0, i);
    let value = sub_vec(line, i + 1, line.len());
    assert(key@ == line@.take(i as int));
    assert(value@ == line@.skip(i + 1));
    if text_is(&key, "rule") {
        if let Some(j) = split_index(&value, '.') {
            let a = sub_vec(&value, 0, j);
            let b = sub_vec(&value, j + 1, value.len());
            assert(a@ == value@.take(j as int));
            assert(b@ == value@.skip(j + 1));
            if let (Some(x), Some(y)) = (parse_u32_chars(&a), parse_u32_chars(&b)) {
                h.rule = Some((x, y));
            }
        }
    } else if text_is(&key, "protocol") {
        h.protocol = parse_u32_chars(&value);
    } else if text_is(&key, "app") {
        h.app = value_from(&value);
    } else if text_is(&key, "sente") {
        h.sente = value_from(&value);
    } else if text_is(&key, "gote") {
        h.gote = value_from(&value);
    } else if text_is(&key, "result") {
        if let Some(j) = split_index(&value, ' ') {
            let ks = sub_vec(&value, 0, j);
            let os = sub_vec(&value, j + 1, value.len());
            assert(ks@ == value@.take(j as int));
            assert(os@ == value@.skip(j + 1));
            if let (Some(k), Some(o)) = (kind_from_chars(&ks), outcome_from_chars(&os)) {
                h.result = Some(ArchiveResult { kind: k, outcome: o });
            }
        }
    }
}

fn join_lines(ls: &Vec<Vec<char>>, gl: Ghost<Seq<Seq<char>>>, b: usize) -> (s: String)
    requires
        ls@.len() == gl@.len(),
        forall|k: int| 0 <= k < ls@.len() ==> (#[trigger] ls@[k])@ == gl@[k],
        b < ls@.len(),
    ensures
        s@ == join_from(gl@, b as int),
{
    let mut s = String::new();
    let mut i = b;
    while i < ls.len()
        invariant
            b <= i <= ls@.len() == gl@.len(),
            forall|k: int| 0 <= k < ls@.len() ==> (#[trigger] ls@[k])@ == gl@[k],
            b < i < ls@.len() ==> s@ + seq!['\n'] + join_from(gl@, i as int) == join_from(
                gl@,
                b as int,
            ),
            i == b ==> s@ == Seq::<char>::empty(),
            i == ls@.len() ==> s@ == join_from(gl@, b as int),
        decreases ls@.len() - i,
    {
        let ghost before = s@;
        assert(ls@[i as int]@ == gl@[i as int]);
        if i > b {
            push_char(&mut s, '\n');
        }
        crate::text::push_chars(&mut s, ls[i].as_slice());
        proof {
            if i == ls@.len() - 1 {
                if i > b {
                    assert(s@ =~= before + seq!['\n'] + join_from(gl@, i as int));
                } else {
                    assert(s@ =~= join_from(gl@, b as int));
                }
            } else {
                if i > b {
                    assert(s@ + seq!['\n'] + join_from(gl@, i + 1) =~= before + seq!['\n']
                        + join_from(gl@, i as int));
                } else {
                    assert(s@ + seq!['\n'] + join_from(gl@, i + 1) =~= join_from(gl@, b as int));
                }
            }
        }
        i += 1;
    }
    s
}

fn scan(ls: &Vec<Vec<char>>, gl: Ghost<Seq<Seq<char>>>, i: usize, h: Headers) -> (r: (Headers, Option<usize>))
    requires
        ls@.len() == gl@.len(),
        forall|k: int| 0 <= k < ls@.len() ==> (#[trigger] ls@[k])@ == gl@[k],
    ensures
        scan_headers(gl@, i as int, h@) == (r.0@, match r.1 {
            Some(b) => Some(b as int),
            None => None::<int>,
        }),
        r.1 matches Some(b) ==> b < ls@.len(),
    decreases ls@.len() - i,
{
    if i >= ls.len() {
        return (h, None);
    }
    assert(ls@[i as int]@ == gl@[i as int]);
    let line = trim_vec(ls[i].as_slice());
    if line.len() == 0 {
        return scan(ls, gl, i + 1, h);
    }
    let tag = ['s', 'f', 'e', 'n', ' '];
    proof {
        reveal_strlit("sfen ");
        assert(tag@ =~= "sfen "@);
    }
    if starts_with(&line, &tag) {
        return (h, Some(i));
    }
    let mut h2 = h;
    apply_header_line(&mut h2, &line);
    scan(ls, gl, i + 1, h2)
}

/// Reads an archive (see `parse_archive`).
pub fn archive_to_kifu(s: &str) -> (r: Option<(Kifu, ArchiveMeta)>)
    ensures
        match parse_archive(s@) {
            Some((init, plies, m)) => r matches Some((k, meta)) && k.initial_position == init
                && k.plies@ == plies && meta@ == m,
            None => r is None,
        },
{
    let v = chars_of(s);
    let ls = lines_of(&v);
    let ghost gl = lines(v@);
    if ls.len() == 0 {
        return None;
    }
    assert(ls@[0]@ == gl[0]);
    let first = trim_vec(ls[0].as_slice());
    let tag = ['s', 'f', 'e', 'n', ' '];
    proof {
        reveal_strlit("sfen ");
        assert(tag@ =~= "sfen "@);
    }
    if starts_with(&first, &tag) {
        return match kifu_from_string(s) {
            Some(k) => Some(
                (
                    k,
                    ArchiveMeta {
                        rule: crate::RULE_VERSION,
                        protocol: 0,
                        app: None,
                        sente: None,
                        gote: None,
                        result: ArchiveResult {
                            kind: ResultKind::Unfinished,
                            outcome: Outcome::Undecided,
                        },
                    },
                ),
            ),
            None => None,
        };
    }
    let i = match split_index(&first, ' ') {
        Some(i) => i,
        None => {
            return None;
        },
    };
    let word = sub_vec(&first, 0, i);
    assert(word@ == first@.take(i as int));
    if !text_is(&word, MAGIC) {
        return None;
    }
    let h = Headers { rule: None, protocol: None, app: None, sente: None, gote: None, result: None };
    let (h, start) = scan(&ls, Ghost(gl), 1, h);
    let b = match start {
        Some(b) => b,
        None => {
            return None;
        },
    };
    let body = join_lines(&ls, Ghost(gl), b);
    let kifu = match kifu_from_string(body.as_str()) {
        Some(k) => k,
        None => {
            return None;
        },
    };
    match (h.rule, h.protocol, h.result) {
        (Some(rule), Some(protocol), Some(result)) => Some(
            (kifu, ArchiveMeta { rule, protocol, app: h.app, sente: h.sente, gote: h.gote, result }),
        ),
        _ => None,
    }
}

} // verus!
