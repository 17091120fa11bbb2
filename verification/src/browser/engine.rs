//! The engine for a browser front end: resolving a turn, the state of a
//! position, legal actions, and archives, each from and to text.
use vstd::prelude::*;

use crate::archive::{
    archive_text, archive_to_kifu, kifu_to_archive, kind_of_text, kind_text,
    lemma_parsed_archive_wf, opt_chars, outcome_of_text, outcome_text, ArchiveMeta, ArchiveResult,
    MetaView, Outcome, ResultKind,
};
use crate::board::Position;
use crate::browser::json::{escaped, push_escaped, push_quoted, quoted};
use crate::movegen::is_legal;
use crate::resolve::{
    can_resolve, hands_have_room, resolvable, resolve, spec_resolve, ResolutionEvent,
};
use crate::serialize::{parse_sfen, plies_wf, position_sfen, position_to_sfen, sfen_to_position};
use crate::kifu::{replay_spec, replayable, Kifu};
use crate::terminate::{
    check_status, evaluate, record_terminal, result_of_terminal, status_of, terminal_to_result,
    GameStatus, Terminal, MAX_TURNS,
};
use crate::text::{
    chars_of, decimal, parse_u32, parse_u32_chars, push_char, push_decimal, push_str, split_index,
    split_once, sub_vec,
};
use crate::types::{parse_action, usi_action, Action, Ply, Side};

verus! {

broadcast use vstd::string::group_string_axioms;

/// A failed reply: `{"ok":false,"error":"<reason>"}`.
pub open spec fn failure_reply(reason: Seq<char>) -> Seq<char> {
    "{\"ok\":false,\"error\":\""@ + reason + "\"}"@
}

fn failure(prefix: &str, detail: &str) -> (r: String)
    ensures
        r@ == failure_reply(prefix@ + escaped(detail@)),
{
    let mut out = String::new();
    push_str(&mut out, "{\"ok\":false,\"error\":\"");
    push_str(&mut out, prefix);
    push_escaped(&mut out, detail);
    push_str(&mut out, "\"}");
    assert(out@ =~= failure_reply(prefix@ + escaped(detail@)));
    out
}

fn failure_plain(reason: &str) -> (r: String)
    ensures
        r@ == failure_reply(reason@),
{
    let mut out = String::new();
    push_str(&mut out, "{\"ok\":false,\"error\":\"");
    push_str(&mut out, reason);
    push_str(&mut out, "\"}");
    assert(out@ =~= failure_reply(reason@));
    out
}

// ---------------------------------------------------------------------------
// Resolving a turn
// ---------------------------------------------------------------------------

/// The name of the main event of a turn.
pub open spec fn event_name(e: ResolutionEvent) -> Seq<char> {
    match e {
        ResolutionEvent::Normal { .. } => "normal"@,
        ResolutionEvent::Clash { .. } => "clash"@,
        ResolutionEvent::SenteDied => "sente_died"@,
        ResolutionEvent::GoteDied => "gote_died"@,
        ResolutionEvent::BothDied => "both_died"@,
    }
}

fn event_str(e: &ResolutionEvent) -> (s: &'static str)
    ensures
        s@ == event_name(*e),
{
    match e {
        ResolutionEvent::Normal { .. } => "normal",
        ResolutionEvent::Clash { .. } => "clash",
        ResolutionEvent::SenteDied => "sente_died",
        ResolutionEvent::GoteDied => "gote_died",
        ResolutionEvent::BothDied => "both_died",
    }
}

/// The reply to a turn: the next position and the main event when the
/// position and both actions read and the turn can be resolved; otherwise
/// the first thing that went wrong.
pub open spec fn resolve_reply(sfen: Seq<char>, sente: Seq<char>, gote: Seq<char>) -> Seq<char> {
    match parse_sfen(sfen) {
        None => failure_reply("bad sfen: "@ + escaped(sfen)),
        Some(pos) => match parse_action(sente) {
            None => failure_reply("bad sente_usi: "@ + escaped(sente)),
            Some(s) => match parse_action(gote) {
                None => failure_reply("bad gote_usi: "@ + escaped(gote)),
                Some(g) => if resolvable(pos, s, g) {
                    let r = spec_resolve(pos, s, g);
                    "{\"ok\":true,\"sfen\":\""@ + escaped(position_sfen(r.next))
                        + "\",\"event\":\""@ + event_name(r.event) + "\"}"@
                } else {
                    failure_reply("unresolvable turn"@)
                },
            },
        },
    }
}

/// Resolves one turn given as SFEN and two USI actions (see `resolve_reply`).
pub fn resolve_ply(sfen: &str, sente_usi: &str, gote_usi: &str) -> (r: String)
    ensures
        r@ == resolve_reply(sfen@, sente_usi@, gote_usi@),
{
    let pos = match sfen_to_position(sfen) {
        Some(p) => p,
        None => {
            return failure("bad sfen: ", sfen);
        },
    };
    let sente = match Action::from_usi(sente_usi) {
        Some(a) => a,
        None => {
            return failure("bad sente_usi: ", sente_usi);
        },
    };
    let gote = match Action::from_usi(gote_usi) {
        Some(a) => a,
        None => {
            return failure("bad gote_usi: ", gote_usi);
        },
    };
    if !can_resolve(&pos, sente, gote) {
        return failure_plain("unresolvable turn");
    }
    let res = resolve(&pos, sente, gote);
    let next = position_to_sfen(&res.next);
    let mut out = String::new();
    push_str(&mut out, "{\"ok\":true,\"sfen\":\"");
    push_escaped(&mut out, next.as_str());
    push_str(&mut out, "\",\"event\":\"");
    push_str(&mut out, event_str(&res.event));
    push_str(&mut out, "\"}");
    assert(out@ =~= resolve_reply(sfen@, sente_usi@, gote_usi@));
    out
}

// ---------------------------------------------------------------------------
// The state of a position
// ---------------------------------------------------------------------------

/// The name of a game state.
pub open spec fn status_name(s: GameStatus) -> Seq<char> {
    match s {
        GameStatus::Ongoing => "ongoing"@,
        GameStatus::SenteLoses => "sente_loses"@,
        GameStatus::GoteLoses => "gote_loses"@,
        GameStatus::Draw => "draw"@,
    }
}

/// The state of a position before the actions are chosen; `error` when the
/// text is not SFEN or a hand is too full to take another piece.
pub open spec fn status_reply(sfen: Seq<char>) -> Seq<char> {
    match parse_sfen(sfen) {
        Some(pos) => if pos.has_room() {
            status_name(status_of(pos))
        } else {
            "error"@
        },
        None => "error"@,
    }
}

/// The state of a position given as SFEN (see `status_reply`).
pub fn game_status(sfen: &str) -> (r: String)
    ensures
        r@ == status_reply(sfen@),
{
    let pos = match sfen_to_position(sfen) {
        Some(p) => p,
        None => {
            return crate::text::string_of_str("error");
        },
    };
    if !hands_have_room(&pos) {
        return crate::text::string_of_str("error");
    }
    let name = match check_status(&pos) {
        GameStatus::Ongoing => "ongoing",
        GameStatus::SenteLoses => "sente_loses",
        GameStatus::GoteLoses => "gote_loses",
        GameStatus::Draw => "draw",
    };
    crate::text::string_of_str(name)
}

// ---------------------------------------------------------------------------
// Legal actions
// ---------------------------------------------------------------------------

/// The camp named `sente` or `gote`.
pub open spec fn side_named(s: Seq<char>) -> Option<Side> {
    if s == "sente"@ {
        Some(Side::Sente)
    } else if s == "gote"@ {
        Some(Side::Gote)
    } else {
        None
    }
}

/// The USI texts of actions in quotes, separated by commas.
pub open spec fn usi_items(v: Seq<Action>) -> Seq<char>
    decreases v.len(),
{
    if v.len() == 0 {
        Seq::empty()
    } else if v.len() == 1 {
        seq!['"'] + usi_action(v[0]) + seq!['"']
    } else {
        usi_items(v.drop_last()) + seq![',', '"'] + usi_action(v.last()) + seq!['"']
    }
}

/// A JSON array of the USI texts of actions.
pub open spec fn usi_array(v: Seq<Action>) -> Seq<char> {
    seq!['['] + usi_items(v) + seq![']']
}

/// `r` is a JSON array of USI texts that names exactly the legal actions of
/// `side` on `pos`, each at least once.
pub open spec fn lists_legal(r: Seq<char>, pos: Position, side: Side) -> bool {
    exists|v: Seq<Action>|
        (forall|a: Action| #[trigger] v.contains(a) <==> is_legal(pos, side, a)) && r
            == usi_array(v)
}

fn side_from(s: &str) -> (r: Option<Side>)
    ensures
        r == side_named(s@),
{
    let v = chars_of(s);
    let sente = ['s', 'e', 'n', 't', 'e'];
    let gote = ['g', 'o', 't', 'e'];
    proof {
        reveal_strlit("sente");
        reveal_strlit("gote");
        assert(sente@ =~= "sente"@);
        assert(gote@ =~= "gote"@);
    }
    if crate::text::chars_eq(&v, &sente) {
        Some(Side::Sente)
    } else if crate::text::chars_eq(&v, &gote) {
        Some(Side::Gote)
    } else {
        None
    }
}

/// The legal actions of a camp as a JSON array of USI texts; `[]` when the
/// text is not SFEN, the camp is neither `sente` nor `gote`, or a hand is too
/// full to take another piece.
pub fn legal_actions(sfen: &str, side: &str) -> (r: String)
    ensures
        match (parse_sfen(sfen@), side_named(side@)) {
            (Some(pos), Some(s)) => if pos.has_room() {
                lists_legal(r@, pos, s)
            } else {
                r@ == "[]"@
            },
            _ => r@ == "[]"@,
        },
{
    let pos = match sfen_to_position(sfen) {
        Some(p) => p,
        None => {
            return crate::text::string_of_str("[]");
        },
    };
    let s = match side_from(side) {
        Some(s) => s,
        None => {
            return crate::text::string_of_str("[]");
        },
    };
    if !hands_have_room(&pos) {
        return crate::text::string_of_str("[]");
    }
    let actions = crate::movegen::legal_actions(&pos, s);
    let mut out = String::new();
    push_char(&mut out, '[');
    let mut i: usize = 0;
    while i < actions.len()
        invariant
            i <= actions@.len(),
            forall|k: int| 0 <= k < actions@.len() ==> (#[trigger] actions@[k]).wf(),
            out@ == seq!['['] + usi_items(actions@.take(i as int)),
        decreases actions.len() - i,
    {
        let ghost before = out@;
        if i > 0 {
            push_char(&mut out, ',');
        }
        push_char(&mut out, '"');
        let u = actions[i].to_usi();
        push_str(&mut out, u.as_str());
        push_char(&mut out, '"');
        proof {
            let t = actions@.take(i + 1);
            assert(t.drop_last() =~= actions@.take(i as int));
            assert(t.last() == actions@[i as int]);
            if i == 0 {
                assert(t.len() == 1);
                assert(out@ =~= seq!['['] + usi_items(t));
            } else {
                assert(out@ =~= seq!['['] + usi_items(t));
            }
        }
        i += 1;
    }
    push_char(&mut out, ']');
    proof {
        assert(actions@.take(actions@.len() as int) =~= actions@);
        assert(out@ =~= usi_array(actions@));
    }
    out
}

/// The turn limit of a game.
pub fn max_turns() -> (n: usize)
    ensures
        n == MAX_TURNS,
{
    MAX_TURNS
}

// ---------------------------------------------------------------------------
// Reading an archive
// ---------------------------------------------------------------------------

/// One turn as JSON: `{"s":"<sente usi>","g":"<gote usi>"}`.
pub open spec fn ply_json(p: Ply) -> Seq<char> {
    "{\"s\":"@ + quoted(usi_action(p.sente)) + ",\"g\":"@ + quoted(usi_action(p.gote)) + seq!['}']
}

/// The turns as JSON objects, separated by commas.
pub open spec fn plies_json(plies: Seq<Ply>) -> Seq<char>
    decreases plies.len(),
{
    if plies.len() == 0 {
        Seq::empty()
    } else if plies.len() == 1 {
        ply_json(plies[0])
    } else {
        plies_json(plies.drop_last()) + seq![','] + ply_json(plies.last())
    }
}

/// An optional text as JSON: a string, or `null`.
pub open spec fn text_or_null(v: Option<Seq<char>>) -> Seq<char> {
    match v {
        Some(t) => quoted(t),
        None => "null"@,
    }
}

/// The header of an archive as JSON.
pub open spec fn meta_json(m: MetaView) -> Seq<char> {
    "{\"rule\":\""@ + decimal(m.rule.0 as nat) + seq!['.'] + decimal(m.rule.1 as nat)
        + "\",\"protocol\":"@ + decimal(m.protocol as nat) + ",\"app\":"@ + text_or_null(m.app)
        + ",\"sente\":"@ + text_or_null(m.sente) + ",\"gote\":"@ + text_or_null(m.gote)
        + ",\"result\":{\"kind\":\""@ + kind_text(m.result.kind) + "\",\"outcome\":\""@
        + outcome_text(m.result.outcome) + "\"}}"@
}

/// The reply to an archive text: its starting position, turns and header,
/// when it reads and has no more turns than the turn limit.
pub open spec fn archive_reply(text: Seq<char>) -> Seq<char> {
    match crate::archive::parse_archive(text) {
        None => failure_reply("parse_failed"@),
        Some((init, plies, m)) => if plies.len() > MAX_TURNS {
            failure_reply("too_many_plies"@)
        } else {
            "{\"ok\":true,\"initial_sfen\":"@ + quoted(position_sfen(init)) + ",\"plies\":["@
                + plies_json(plies) + "],\"meta\":"@ + meta_json(m) + seq!['}']
        },
    }
}

fn push_text_or_null(out: &mut String, v: &Option<String>)
    ensures
        final(out)@ == old(out)@ + text_or_null(crate::archive::opt_chars(*v)),
{
    match v {
        Some(t) => push_quoted(out, t.as_str()),
        None => push_str(out, "null"),
    }
}

#[verifier::rlimit(40)]
fn push_meta(out: &mut String, m: &crate::archive::ArchiveMeta)
    ensures
        final(out)@ == old(out)@ + meta_json(m@),
{
    let ghost start = out@;
    push_str(out, "{\"rule\":\"");
    push_decimal(out, m.rule.0);
    push_char(out, '.');
    push_decimal(out, m.rule.1);
    push_str(out, "\",\"protocol\":");
    push_decimal(out, m.protocol);
    push_str(out, ",\"app\":");
    push_text_or_null(out, &m.app);
    push_str(out, ",\"sente\":");
    push_text_or_null(out, &m.sente);
    push_str(out, ",\"gote\":");
    push_text_or_null(out, &m.gote);
    push_str(out, ",\"result\":{\"kind\":\"");
    push_str(out, m.result.kind.to_str());
    push_str(out, "\",\"outcome\":\"");
    push_str(out, m.result.outcome.to_str());
    push_str(out, "\"}}");
    assert(out@ =~= start + meta_json(m@));
}

fn push_plies(out: &mut String, plies: &Vec<Ply>)
    requires
        plies_wf(plies@),
    ensures
        final(out)@ == old(out)@ + plies_json(plies@),
{
    let mut i: usize = 0;
    while i < plies.len()
        invariant
            i <= plies@.len(),
            plies_wf(plies@),
            out@ == old(out)@ + plies_json(plies@.take(i as int)),
        decreases plies.len() - i,
    {
        let ghost before = out@;
        if i > 0 {
            push_char(out, ',');
        }
        let p = plies[i];
        assert(p.sente.wf() && p.gote.wf());
        push_str(out, "{\"s\":");
        let su = p.sente.to_usi();
        push_quoted(out, su.as_str());
        push_str(out, ",\"g\":");
        let gu = p.gote.to_usi();
        push_quoted(out, gu.as_str());
        push_char(out, '}');
        proof {
            let t = plies@.take(i + 1);
            assert(t.drop_last() =~= plies@.take(i as int));
            assert(t.last() == plies@[i as int]);
            if i == 0 {
                assert(t.len() == 1);
                assert(plies@.take(0) =~= Seq::<Ply>::empty());
                assert(out@ =~= old(out)@ + plies_json(t));
            } else {
                assert(out@ =~= old(out)@ + plies_json(t));
            }
        }
        i += 1;
    }
    assert(plies@.take(plies@.len() as int) =~= plies@);
}

/// Reads an archive text and replies with its contents as JSON (see
/// `archive_reply`).
pub fn parse_archive(text: &str) -> (r: String)
    ensures
        r@ == archive_reply(text@),
{
    proof {
        lemma_parsed_archive_wf(text@);
    }
    let (kifu, meta) = match archive_to_kifu(text) {
        Some(v) => v,
        None => {
            return failure_plain("parse_failed");
        },
    };
    if kifu.plies.len() > MAX_TURNS {
        return failure_plain("too_many_plies");
    }
    let init = position_to_sfen(&kifu.initial_position);
    let mut out = String::new();
    push_str(&mut out, "{\"ok\":true,\"initial_sfen\":");
    push_quoted(&mut out, init.as_str());
    push_str(&mut out, ",\"plies\":[");
    push_plies(&mut out, &kifu.plies);
    push_str(&mut out, "],\"meta\":");
    push_meta(&mut out, &meta);
    push_char(&mut out, '}');
    assert(out@ =~= archive_reply(text@));
    out
}

// ---------------------------------------------------------------------------
// Requests that carry a game
// ---------------------------------------------------------------------------

/// One turn of a request: the USI texts of both actions, each absent when
/// the request does not hold it as a string.
#[derive(Debug, Clone, PartialEq)]
pub struct PlyRequest {
    pub s: Option<String>,
    pub g: Option<String>,
}

/// A request for the end of a game: the starting position and the turns.
#[derive(Debug, Clone, PartialEq)]
pub struct TerminalRequest {
    pub initial_sfen: Option<String>,
    pub plies: Option<Vec<PlyRequest>>,
}

/// A request for an archive: the game, the versions, the players and the
/// result, each field absent when the request does not hold it in the
/// expected form (a string, an array, or a non-negative integer).
#[derive(Debug, Clone, PartialEq)]
pub struct ArchiveRequest {
    pub initial_sfen: Option<String>,
    pub plies: Option<Vec<PlyRequest>>,
    pub rule: Option<String>,
    pub protocol: Option<u64>,
    pub app: Option<String>,
    pub sente: Option<String>,
    pub gote: Option<String>,
    pub result_kind: Option<String>,
    pub result_outcome: Option<String>,
}

/// What is wrong with the first turn of a request that does not read: an
/// action missing, or the action of turn `i` that is not USI.
#[derive(Debug, Clone, Copy, PartialEq, Eq, Structural)]
pub enum PlyFault {
    MissingSente,
    MissingGote,
    BadSente(usize),
    BadGote(usize),
}

/// The turn that request `p` (the `i`-th) names, or what is wrong with it:
/// both actions are checked for presence first, then read in order.
pub open spec fn ply_of(p: PlyRequest, i: int) -> Result<Ply, PlyFault> {
    match (p.s, p.g) {
        (None, _) => Err(PlyFault::MissingSente),
        (_, None) => Err(PlyFault::MissingGote),
        (Some(s), Some(g)) => match parse_action(s@) {
            None => Err(PlyFault::BadSente(i as usize)),
            Some(a) => match parse_action(g@) {
                None => Err(PlyFault::BadGote(i as usize)),
                Some(b) => Ok(Ply { sente: a, gote: b }),
            },
        },
    }
}

/// The turns that the first `n` requests name, or the fault of the first one
/// that does not read.
pub open spec fn plies_of(ps: Seq<PlyRequest>, n: int) -> Result<Seq<Ply>, PlyFault>
    decreases n,
{
    if n <= 0 {
        Ok(Seq::empty())
    } else {
        match plies_of(ps, n - 1) {
            Err(f) => Err(f),
            Ok(v) => match ply_of(ps[n - 1], n - 1) {
                Err(f) => Err(f),
                Ok(p) => Ok(v.push(p)),
            },
        }
    }
}

proof fn lemma_fault_stays(ps: Seq<PlyRequest>, n: int, m: int, f: PlyFault)
    requires
        n <= m,
        plies_of(ps, n) == Err::<Seq<Ply>, PlyFault>(f),
    ensures
        plies_of(ps, m) == Err::<Seq<Ply>, PlyFault>(f),
    decreases m - n,
{
    if n < m {
        lemma_fault_stays(ps, n, m - 1, f);
    }
}

/// The text of an optional string (empty when absent).
pub open spec fn text_of(o: Option<String>) -> Seq<char> {
    match o {
        Some(t) => t@,
        None => Seq::empty(),
    }
}

fn read_plies(ps: &Vec<PlyRequest>) -> (r: Result<Vec<Ply>, PlyFault>)
    ensures
        match plies_of(ps@, ps@.len() as int) {
            Ok(v) => r matches Ok(w) && w@ == v,
            Err(f) => r == Err::<Vec<Ply>, PlyFault>(f),
        },
        r matches Ok(w) ==> plies_wf(w@),
        r matches Err(PlyFault::BadSente(i)) ==> i < ps@.len(),
        r matches Err(PlyFault::BadGote(i)) ==> i < ps@.len(),
{
    let mut out: Vec<Ply> = Vec::new();
    let mut i: usize = 0;
    while i < ps.len()
        invariant
            i <= ps@.len(),
            plies_of(ps@, i as int) == Ok::<Seq<Ply>, PlyFault>(out@),
            plies_wf(out@),
        decreases ps.len() - i,
    {
        let p = &ps[i];
        assert(*p == ps@[i as int]);
        let s_usi = match &p.s {
            Some(t) => t,
            None => {
                proof {
                    lemma_fault_stays(ps@, i + 1, ps@.len() as int, PlyFault::MissingSente);
                }
                return Err(PlyFault::MissingSente);
            },
        };
        let g_usi = match &p.g {
            Some(t) => t,
            None => {
                proof {
                    lemma_fault_stays(ps@, i + 1, ps@.len() as int, PlyFault::MissingGote);
                }
                return Err(PlyFault::MissingGote);
            },
        };
        let sente = match Action::from_usi(s_usi.as_str()) {
            Some(a) => a,
            None => {
                proof {
                    lemma_fault_stays(ps@, i + 1, ps@.len() as int, PlyFault::BadSente(i));
                }
                return Err(PlyFault::BadSente(i));
            },
        };
        let gote = match Action::from_usi(g_usi.as_str()) {
            Some(a) => a,
            None => {
                proof {
                    lemma_fault_stays(ps@, i + 1, ps@.len() as int, PlyFault::BadGote(i));
                }
                return Err(PlyFault::BadGote(i));
            },
        };
        out.push(Ply { sente, gote });
        i += 1;
    }
    Ok(out)
}

// ---------------------------------------------------------------------------
// Building an archive
// ---------------------------------------------------------------------------

/// The version `<major>.<minor>` read from text.
pub open spec fn rule_of(s: Seq<char>) -> Option<(u32, u32)> {
    match split_once(s, '.') {
        Some((a, b)) => match (parse_u32(a), parse_u32(b)) {
            (Some(x), Some(y)) => Some((x, y)),
            _ => None,
        },
        None => None,
    }
}

/// The result kind that an optional name names.
pub open spec fn kind_named(o: Option<String>) -> Option<ResultKind> {
    match o {
        Some(t) => kind_of_text(t@),
        None => None,
    }
}

/// The outcome that an optional name names.
pub open spec fn outcome_named(o: Option<String>) -> Option<Outcome> {
    match o {
        Some(t) => outcome_of_text(t@),
        None => None,
    }
}

/// The message for a turn of an archive request that does not read.
pub open spec fn fault_text(ps: Seq<PlyRequest>, f: PlyFault) -> Seq<char> {
    match f {
        PlyFault::MissingSente => "ERROR: missing ply.s"@,
        PlyFault::MissingGote => "ERROR: missing ply.g"@,
        PlyFault::BadSente(i) => "ERROR: bad ply.s: "@ + text_of(ps[i as int].s),
        PlyFault::BadGote(i) => "ERROR: bad ply.g: "@ + text_of(ps[i as int].g),
    }
}

/// The game and header that a request asks for, or `ERROR: <reason>` for the
/// first field that is missing or does not read, in the order: starting
/// position, turns, rule, protocol, result kind, result outcome. The
/// protocol number is taken modulo 2^32. A game whose turn numbers would
/// pass `u32::MAX` is refused.
pub open spec fn build_parts(q: ArchiveRequest) -> Result<(Position, Seq<Ply>, MetaView), Seq<char>> {
    match q.initial_sfen {
        None => Err("ERROR: missing initial_sfen"@),
        Some(t) => match parse_sfen(t@) {
            None => Err("ERROR: bad initial_sfen"@),
            Some(init) => match q.plies {
                None => Err("ERROR: missing plies"@),
                Some(ps) => match plies_of(ps@, ps@.len() as int) {
                    Err(f) => Err(fault_text(ps@, f)),
                    Ok(plies) => match q.rule {
                        None => Err("ERROR: missing rule"@),
                        Some(r) => match rule_of(r@) {
                            None => Err("ERROR: bad rule"@),
                            Some(rule) => match q.protocol {
                                None => Err("ERROR: missing protocol"@),
                                Some(p) => match kind_named(q.result_kind) {
                                    None => Err("ERROR: bad result.kind"@),
                                    Some(kind) => match outcome_named(q.result_outcome) {
                                        None => Err("ERROR: bad result.outcome"@),
                                        Some(outcome) => if init.move_number + plies.len()
                                            <= u32::MAX {
                                            Ok(
                                                (
                                                    init,
                                                    plies,
                                                    MetaView {
                                                        rule,
                                                        protocol: p as u32,
                                                        app: opt_chars(q.app),
                                                        sente: opt_chars(q.sente),
                                                        gote: opt_chars(q.gote),
                                                        result: ArchiveResult { kind, outcome },
                                                    },
                                                ),
                                            )
                                        } else {
                                            Err("ERROR: turn numbers overflow"@)
                                        },
                                    },
                                },
                            },
                        },
                    },
                },
            },
        },
    }
}

/// The archive text that a request asks for (see `build_parts`), or the
/// message of what is wrong with it.
pub open spec fn build_reply(q: ArchiveRequest) -> Seq<char> {
    match build_parts(q) {
        Ok((init, plies, m)) => archive_text(init, plies, m),
        Err(e) => e,
    }
}

/// The turns that requests name are well formed.
pub proof fn lemma_plies_of_wf(ps: Seq<PlyRequest>, n: int)
    ensures
        plies_of(ps, n) matches Ok(v) ==> plies_wf(v),
    decreases n,
{
    if n > 0 {
        lemma_plies_of_wf(ps, n - 1);
        let p = ps[n - 1];
        if let (Some(s), Some(g)) = (p.s, p.g) {
            crate::types::lemma_parse_action_wf(s@);
            crate::types::lemma_parse_action_wf(g@);
        }
        if let Ok(v) = plies_of(ps, n) {
            let prev = plies_of(ps, n - 1)->Ok_0;
            assert forall|i: int| 0 <= i < v.len() implies (#[trigger] v[i]).sente.wf()
                && v[i].gote.wf() by {
                if i < v.len() - 1 {
                    assert(v[i] == prev[i]);
                }
            }
        }
    }
}

/// Law: an archive built from a request reads back as the request's game and
/// header, when the free texts of the header (application and players) read
/// back as themselves (see `plain_opt`).
pub proof fn lemma_build_then_parse(q: ArchiveRequest)
    requires
        build_parts(q) is Ok,
        crate::roundtrip::plain_opt(opt_chars(q.app)),
        crate::roundtrip::plain_opt(opt_chars(q.sente)),
        crate::roundtrip::plain_opt(opt_chars(q.gote)),
    ensures
        crate::archive::parse_archive(build_reply(q)) == Some(build_parts(q)->Ok_0),
{
    let ps = q.plies->0;
    lemma_plies_of_wf(ps@, ps@.len() as int);
    let (init, plies, m) = build_parts(q)->Ok_0;
    crate::roundtrip::lemma_archive_roundtrip(init, plies, m);
}

fn read_rule(s: &str) -> (r: Option<(u32, u32)>)
    ensures
        r == rule_of(s@),
{
    let v = chars_of(s);
    let j = match split_index(&v, '.') {
        Some(j) => j,
        None => {
            return None;
        },
    };
    let a = sub_vec(&v, 0, j);
    let b = sub_vec(&v, j + 1, v.len());
    assert(a@ == v@.take(j as int));
    assert(b@ == v@.skip(j + 1));
    match (parse_u32_chars(&a), parse_u32_chars(&b)) {
        (Some(x), Some(y)) => Some((x, y)),
        _ => None,
    }
}

fn build_fault(ps: &Vec<PlyRequest>, f: PlyFault) -> (r: String)
    requires
        f matches PlyFault::BadSente(i) ==> i < ps@.len(),
        f matches PlyFault::BadGote(i) ==> i < ps@.len(),
    ensures
        r@ == fault_text(ps@, f),
{
    let mut out = String::new();
    match f {
        PlyFault::MissingSente => push_str(&mut out, "ERROR: missing ply.s"),
        PlyFault::MissingGote => push_str(&mut out, "ERROR: missing ply.g"),
        PlyFault::BadSente(i) => {
            push_str(&mut out, "ERROR: bad ply.s: ");
            if let Some(t) = &ps[i].s {
                push_str(&mut out, t.as_str());
            }
        },
        PlyFault::BadGote(i) => {
            push_str(&mut out, "ERROR: bad ply.g: ");
            if let Some(t) = &ps[i].g {
                push_str(&mut out, t.as_str());
            }
        },
    }
    assert(out@ =~= fault_text(ps@, f));
    out
}

fn copy_text(o: &Option<String>) -> (r: Option<String>)
    ensures
        opt_chars(r) == opt_chars(*o),
{
    match o {
        Some(t) => Some(crate::text::string_of_str(t.as_str())),
        None => None,
    }
}

/// Builds the archive text that a request asks for (see `build_reply`).
pub fn build_archive(request: &ArchiveRequest) -> (r: String)
    ensures
        r@ == build_reply(*request),
{
    let t = match &request.initial_sfen {
        Some(t) => t,
        None => {
            return crate::text::string_of_str("ERROR: missing initial_sfen");
        },
    };
    let initial = match sfen_to_position(t.as_str()) {
        Some(p) => p,
        None => {
            return crate::text::string_of_str("ERROR: bad initial_sfen");
        },
    };
    let ps = match &request.plies {
        Some(ps) => ps,
        None => {
            return crate::text::string_of_str("ERROR: missing plies");
        },
    };
    let plies = match read_plies(ps) {
        Ok(v) => v,
        Err(f) => {
            return build_fault(ps, f);
        },
    };
    let r = match &request.rule {
        Some(r) => r,
        None => {
            return crate::text::string_of_str("ERROR: missing rule");
        },
    };
    let rule = match read_rule(r.as_str()) {
        Some(x) => x,
        None => {
            return crate::text::string_of_str("ERROR: bad rule");
        },
    };
    let protocol = match request.protocol {
        Some(p) => p as u32,
        None => {
            return crate::text::string_of_str("ERROR: missing protocol");
        },
    };
    let kind = match &request.result_kind {
        Some(k) => ResultKind::from_str(k.as_str()),
        None => None,
    };
    let kind = match kind {
        Some(k) => k,
        None => {
            return crate::text::string_of_str("ERROR: bad result.kind");
        },
    };
    let outcome = match &request.result_outcome {
        Some(o) => Outcome::from_str(o.as_str()),
        None => None,
    };
    let outcome = match outcome {
        Some(o) => o,
        None => {
            return crate::text::string_of_str("ERROR: bad result.outcome");
        },
    };
    if plies.len() > (u32::MAX - initial.move_number) as usize {
        return crate::text::string_of_str("ERROR: turn numbers overflow");
    }
    let meta = ArchiveMeta {
        rule,
        protocol,
        app: copy_text(&request.app),
        sente: copy_text(&request.sente),
        gote: copy_text(&request.gote),
        result: ArchiveResult { kind, outcome },
    };
    let kifu = Kifu { initial_position: initial, plies };
    kifu_to_archive(&kifu, &meta)
}

// ---------------------------------------------------------------------------
// The end of a game
// ---------------------------------------------------------------------------

/// A failed reply about the end of a game: `{"status":"error","error":"<reason>"}`.
pub open spec fn terminal_failure(reason: Seq<char>) -> Seq<char> {
    "{\"status\":\"error\",\"error\":\""@ + reason + "\"}"@
}

/// The reason given for a turn of a request that does not read.
pub open spec fn fault_reason(ps: Seq<PlyRequest>, f: PlyFault) -> Seq<char> {
    match f {
        PlyFault::MissingSente => "missing ply.s"@,
        PlyFault::MissingGote => "missing ply.g"@,
        PlyFault::BadSente(i) => "bad ply.s: "@ + escaped(text_of(ps[i as int].s)),
        PlyFault::BadGote(i) => "bad ply.g: "@ + escaped(text_of(ps[i as int].g)),
    }
}

/// The reply for an end of the game: `ongoing`, or the result kind and the
/// outcome.
pub open spec fn terminal_json(t: Terminal) -> Seq<char> {
    match result_of_terminal(t) {
        None => "{\"status\":\"ongoing\"}"@,
        Some((k, o)) => "{\"status\":\"terminal\",\"kind\":\""@ + kind_text(k)
            + "\",\"outcome\":\""@ + outcome_text(o) + "\"}"@,
    }
}

/// The reply to a request for the end of a game. `None` stands for a request
/// text that is not JSON. The turns must replay one after the other, and the
/// hands of the last position must have room for one more piece.
pub open spec fn terminal_reply(req: Option<TerminalRequest>) -> Seq<char> {
    match req {
        None => terminal_failure("invalid_json"@),
        Some(q) => match q.initial_sfen {
            None => terminal_failure("missing initial_sfen"@),
            Some(t) => match parse_sfen(t@) {
                None => terminal_failure("bad initial_sfen"@),
                Some(init) => match q.plies {
                    None => terminal_failure("missing plies"@),
                    Some(ps) => match plies_of(ps@, ps@.len() as int) {
                        Err(f) => terminal_failure(fault_reason(ps@, f)),
                        Ok(plies) => if replayable(init, plies, plies.len() as int) && replay_spec(
                            init,
                            plies,
                            plies.len(),
                        ).has_room() {
                            terminal_json(record_terminal(init, plies))
                        } else {
                            terminal_failure("unresolvable turn"@)
                        },
                    },
                },
            },
        },
    }
}

fn terminal_fail(reason: &str) -> (r: String)
    ensures
        r@ == terminal_failure(reason@),
{
    let mut out = String::new();
    push_str(&mut out, "{\"status\":\"error\",\"error\":\"");
    push_str(&mut out, reason);
    push_str(&mut out, "\"}");
    assert(out@ =~= terminal_failure(reason@));
    out
}

fn terminal_fault(ps: &Vec<PlyRequest>, f: PlyFault) -> (r: String)
    requires
        f matches PlyFault::BadSente(i) ==> i < ps@.len(),
        f matches PlyFault::BadGote(i) ==> i < ps@.len(),
    ensures
        r@ == terminal_failure(fault_reason(ps@, f)),
{
    let mut out = String::new();
    push_str(&mut out, "{\"status\":\"error\",\"error\":\"");
    match f {
        PlyFault::MissingSente => push_str(&mut out, "missing ply.s"),
        PlyFault::MissingGote => push_str(&mut out, "missing ply.g"),
        PlyFault::BadSente(i) => {
            push_str(&mut out, "bad ply.s: ");
            match &ps[i].s {
                Some(t) => push_escaped(&mut out, t.as_str()),
                None => {},
            }
        },
        PlyFault::BadGote(i) => {
            push_str(&mut out, "bad ply.g: ");
            match &ps[i].g {
                Some(t) => push_escaped(&mut out, t.as_str()),
                None => {},
            }
        },
    }
    push_str(&mut out, "\"}");
    proof {
        assert(escaped(Seq::<char>::empty()) =~= Seq::<char>::empty());
    }
    assert(out@ =~= terminal_failure(fault_reason(ps@, f)));
    out
}

/// Evaluates the end of a game from a request (see `terminal_reply`).
pub fn evaluate_terminal(request: &Option<TerminalRequest>) -> (r: String)
    ensures
        r@ == terminal_reply(*request),
{
    let q = match request {
        Some(q) => q,
        None => {
            return terminal_fail("invalid_json");
        },
    };
    let t = match &q.initial_sfen {
        Some(t) => t,
        None => {
            return terminal_fail("missing initial_sfen");
        },
    };
    let initial = match sfen_to_position(t.as_str()) {
        Some(p) => p,
        None => {
            return terminal_fail("bad initial_sfen");
        },
    };
    let ps = match &q.plies {
        Some(ps) => ps,
        None => {
            return terminal_fail("missing plies");
        },
    };
    let plies = match read_plies(ps) {
        Ok(v) => v,
        Err(f) => {
            return terminal_fault(ps, f);
        },
    };
    let kifu = Kifu { initial_position: initial, plies };
    if !kifu.is_replayable() {
        return terminal_fail("unresolvable turn");
    }
    let last = kifu.current();
    if !hands_have_room(&last) {
        return terminal_fail("unresolvable turn");
    }
    let end = evaluate(&kifu);
    let mut out = String::new();
    match terminal_to_result(&end) {
        None => push_str(&mut out, "{\"status\":\"ongoing\"}"),
        Some((k, o)) => {
            push_str(&mut out, "{\"status\":\"terminal\",\"kind\":\"");
            push_str(&mut out, k.to_str());
            push_str(&mut out, "\",\"outcome\":\"");
            push_str(&mut out, o.to_str());
            push_str(&mut out, "\"}");
        },
    }
    assert(out@ =~= terminal_reply(*request));
    out
}

} // verus!
