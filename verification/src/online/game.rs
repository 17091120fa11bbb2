//! One online game on one side, as steps: each takes what happened (a
//! message of the other side, a message of the room server, a broken or
//! restored connection, our own action) and gives the next state and the
//! messages to send. Waiting, sending and drawing are the caller's.
use vstd::prelude::*;

use crate::archive::{kind_text, outcome_text, Outcome, ResultKind};
use crate::board::Position;
use crate::browser::session::{os_random_nonce, version_json, version_tuple};
use crate::desk::state::{after_resolve, cur, is_fresh, App, AppView};
use crate::desk::{DrawReason, GameOverKind, Phase, WinReason};
use crate::kifu::Kifu;
use crate::link::{DoSystemMsg, NetEvent};
use crate::movegen::legal_actions;
use crate::notation::{ja_notation, notation};
use crate::online::{turn_actions_are_legal, OnlinePhase};
use crate::protocol::auth::SecretHash;
use crate::protocol::client::{feed_step, ClientSession, ClientState, SessionError, SessionEvent};
use crate::protocol::commit::Nonce;
use crate::protocol::hash::{board_hash, position_hash, BoardHash};
use crate::protocol::recovery::RecoverySession;
use crate::protocol::report::{describe_session_error, session_error_text};
use crate::protocol::result::{game_result, game_result_of};
use crate::protocol::session::TurnState;
use crate::protocol::wire::{hex_text, WireMessage};
use crate::serialize::{position_sfen, position_to_sfen};
use crate::text::{push_str, string_of_str};
use crate::types::{usi_action, Action, Ply, Side};

verus! {

/// What a step asks the caller to send.
pub enum Outgoing {
    /// A message of the game channel, to the other side.
    Wire(WireMessage),
    /// A text for the spectators of the room.
    Spectate(String),
}

/// An online game on one side. `resigned` holds the last turn when it holds
/// a resignation: the game record is the desk's record, then that turn.
pub struct OnlineGame {
    pub side: Side,
    pub phase: OnlinePhase,
    pub session: ClientSession,
    pub app: App,
    pub resigned: Option<Ply>,
    /// Our action was fixed when the connection broke.
    pub move_rolled_back: bool,
    /// Turns and the result go to the spectators too.
    pub broadcasting: bool,
}

/// The action that `side` has fixed on the desk.
pub open spec fn own_action(v: AppView, side: Side) -> Option<Action> {
    match side {
        Side::Sente => v.sente_action,
        Side::Gote => v.gote_action,
    }
}

/// The turns of the game record.
pub open spec fn record_plies(v: AppView, resigned: Option<Ply>) -> Seq<Ply> {
    match resigned {
        Some(p) => v.plies.push(p),
        None => v.plies,
    }
}

/// The record as a `Kifu` value's contents: starting position and turns.
pub open spec fn is_record(k: Kifu, v: AppView, resigned: Option<Ply>) -> bool {
    k.initial_position == v.initial && k.plies@ == record_plies(v, resigned)
}

/// The phase after failing with `reason`, as a value.
pub open spec fn aborted(reason: Seq<char>, p: OnlinePhase) -> bool {
    p matches OnlinePhase::Aborted(r) && r@ == reason
}

/// Why the game stops when the system gives no random bytes for a commitment.
pub open spec fn random_failure() -> Seq<char> {
    "乱数の取得に失敗しました"@
}

/// The steps send exactly an abort with `reason`.
pub open spec fn sends_abort(out: Seq<Outgoing>, reason: Seq<char>) -> bool {
    &&& out.len() == 1
    &&& out[0] matches Outgoing::Wire(WireMessage::Abort { reason: r }) && r@ == reason
}

/// The text that opens a spectated game: the versions and the start.
pub open spec fn spectate_meta(app_version: Seq<char>, start: Position) -> Seq<char> {
    "{\"type\":\"spectate_meta\",\"version\":"@ + version_json(app_version)
        + ",\"initial_sfen\":\""@ + position_sfen(start) + "\"}"@
}

/// The text that shows a turn to the spectators.
pub open spec fn spectate_turn(s: Action, g: Action) -> Seq<char> {
    "{\"type\":\"spectate_turn\",\"s\":\""@ + usi_action(s) + "\",\"g\":\""@ + usi_action(g)
        + "\"}"@
}

/// The text that shows the result to the spectators.
pub open spec fn spectate_result(k: ResultKind, o: Outcome) -> Seq<char> {
    "{\"type\":\"spectate_result\",\"kind\":\""@ + kind_text(k) + "\",\"outcome\":\""@
        + outcome_text(o) + "\"}"@
}

/// The end shown on the desk for a result; `None` for the results that the
/// desk has no words for (both resigning, the turn limit, others).
pub open spec fn game_over_of(k: ResultKind, o: Outcome) -> Option<GameOverKind> {
    match (k, o) {
        (ResultKind::Resign, Outcome::SenteWins) => Some(GameOverKind::SenteWins(WinReason::Resign)),
        (ResultKind::Resign, Outcome::GoteWins) => Some(GameOverKind::GoteWins(WinReason::Resign)),
        (ResultKind::KingDeath, Outcome::SenteWins) => Some(GameOverKind::SenteWins(WinReason::KingDied)),
        (ResultKind::KingDeath, Outcome::GoteWins) => Some(GameOverKind::GoteWins(WinReason::KingDied)),
        (ResultKind::Mate, Outcome::SenteWins) => Some(GameOverKind::SenteWins(WinReason::Checkmate)),
        (ResultKind::Mate, Outcome::GoteWins) => Some(GameOverKind::GoteWins(WinReason::Checkmate)),
        (ResultKind::Mate, Outcome::Draw) => Some(GameOverKind::Draw(DrawReason::BothCheckmate)),
        (ResultKind::SwapDraw, Outcome::Draw) => Some(GameOverKind::Draw(DrawReason::BothKingDied)),
        (ResultKind::Sennichite, Outcome::Draw) => Some(GameOverKind::Draw(DrawReason::Sennichite)),
        _ => None,
    }
}

/// The end shown on the desk for a result (see `game_over_of`).
pub fn game_over_from_result(k: ResultKind, o: Outcome) -> (r: Option<GameOverKind>)
    ensures
        r == game_over_of(k, o),
{
    match (k, o) {
        (ResultKind::Resign, Outcome::SenteWins) => Some(GameOverKind::SenteWins(WinReason::Resign)),
        (ResultKind::Resign, Outcome::GoteWins) => Some(GameOverKind::GoteWins(WinReason::Resign)),
        (ResultKind::KingDeath, Outcome::SenteWins) => Some(GameOverKind::SenteWins(WinReason::KingDied)),
        (ResultKind::KingDeath, Outcome::GoteWins) => Some(GameOverKind::GoteWins(WinReason::KingDied)),
        (ResultKind::Mate, Outcome::SenteWins) => Some(GameOverKind::SenteWins(WinReason::Checkmate)),
        (ResultKind::Mate, Outcome::GoteWins) => Some(GameOverKind::GoteWins(WinReason::Checkmate)),
        (ResultKind::Mate, Outcome::Draw) => Some(GameOverKind::Draw(DrawReason::BothCheckmate)),
        (ResultKind::SwapDraw, Outcome::Draw) => Some(GameOverKind::Draw(DrawReason::BothKingDied)),
        (ResultKind::Sennichite, Outcome::Draw) => Some(GameOverKind::Draw(DrawReason::Sennichite)),
        _ => None,
    }
}

fn copy_plies(v: &Vec<Ply>) -> (r: Vec<Ply>)
    ensures
        r@ == v@,
{
    let mut r: Vec<Ply> = Vec::new();
    let mut i: usize = 0;
    while i < v.len()
        invariant
            i <= v@.len(),
            r@ == v@.take(i as int),
        decreases v.len() - i,
    {
        r.push(v[i]);
        i += 1;
    }
    assert(v@.take(v@.len() as int) =~= v@);
    r
}

fn concat(a: String, b: &str) -> (r: String)
    ensures
        r@ == a@ + b@,
{
    let mut r = a;
    push_str(&mut r, b);
    r
}

/// The first message on the desk: the camp and that the connection is up,
/// or why the game cannot start.
pub open spec fn start_message(side: Side, failure: Option<Seq<char>>) -> Seq<char> {
    match failure {
        Some(m) => m + " — [q] でポータルへ戻る"@,
        None => (if side == Side::Sente {
            "先手: "@
        } else {
            "後手: "@
        }) + "接続完了 — 着手を入力してください"@,
    }
}

/// An optional text as characters.
pub open spec fn opt_text(s: Option<String>) -> Option<Seq<char>> {
    match s {
        Some(t) => Some(t@),
        None => None,
    }
}

/// The message after a step that reconnected: whether our fixed action was
/// dropped.
pub open spec fn resume_message(rolled_back: bool) -> Seq<char> {
    if rolled_back {
        "着手をキャンセルしました — 再度入力してください"@
    } else {
        "着手を入力してください"@
    }
}

/// The desk after a reconnection: both actions dropped, our camp entering.
pub open spec fn resumed_desk(v: AppView, side: Side, rolled_back: bool) -> AppView {
    AppView {
        sente_action: None,
        gote_action: None,
        phase: if side == Side::Sente {
            Phase::SenteInput
        } else {
            Phase::GoteInput
        },
        cursor_rank: if side == Side::Sente {
            v.cursor_rank
        } else {
            1
        },
        message: resume_message(rolled_back),
        ..v
    }
}

/// The board hash of the desk's position, in the reconnection message.
pub open spec fn is_reconnect_msg(m: WireMessage, s: ClientState, v: AppView) -> bool {
    m matches WireMessage::Reconnect { auth_hash, board_hash } && auth_hash@ == hex_text(
        s.my_auth_hash,
    ) && board_hash@ == hex_text(position_hash(cur(v)))
}

/// Some position of the record, from the start, has hash `h`.
pub open spec fn has_resume_point(v: AppView, h: Seq<u8>) -> bool {
    exists|n: int|
        0 <= n <= v.plies.len() && #[trigger] position_hash(
            crate::kifu::replay_spec(v.initial, v.plies, n as nat),
        ) == h
}

/// The desk after a completed turn that is resolved: both actions entered and
/// resolved, and, unless the game is over, our camp entering again.
pub open spec fn desk_after_turn(v: AppView, side: Side, s: Action, g: Action) -> AppView {
    let w = after_resolve(AppView { sente_action: Some(s), gote_action: Some(g), ..v });
    if w.phase is GameOver {
        w
    } else {
        AppView {
            phase: if side == Side::Gote {
                Phase::GoteInput
            } else {
                w.phase
            },
            cursor_rank: if side == Side::Gote {
                1
            } else {
                w.cursor_rank
            },
            message: "次の着手を入力してください"@,
            ..w
        }
    }
}

impl OnlineGame {
    /// The game is well formed: the session and the desk are.
    pub open spec fn wf(&self) -> bool {
        &&& self.session.wf()
        &&& self.app.wf()
        &&& self.resigned matches Some(p) ==> (p.sente is Resign || p.gote is Resign)
    }

    /// The game after the handshake: a fresh desk, gote's cursor on its own
    /// side, and the phase waiting for our action, or stopped with the
    /// failure of the handshake. When broadcasting, the spectators are sent
    /// the versions (the application's is the caller's) and the start.
    pub fn start(
        side: Side,
        session: ClientSession,
        failure: Option<String>,
        broadcasting: bool,
        app_version: &str,
    ) -> (r: (OnlineGame, Vec<Outgoing>))
        requires
            session.wf(),
        ensures
            r.0.wf(),
            r.0.side == side,
            r.0.session == session,
            r.0.resigned is None,
            !r.0.move_rolled_back,
            r.0.broadcasting == broadcasting,
            match failure {
                Some(m) => aborted(m@, r.0.phase),
                None => r.0.phase == OnlinePhase::WaitingMyMove,
            },
            r.0.app@.message == start_message(side, opt_text(failure)),
            r.0.app@.phase == (if side == Side::Gote {
                Phase::GoteInput
            } else {
                Phase::SenteInput
            }),
            r.0.app@.cursor_rank == (if side == Side::Gote {
                1u8
            } else {
                9u8
            }),
            is_fresh(
                AppView {
                    phase: Phase::SenteInput,
                    cursor_rank: 9,
                    message: "'?'キーでヘルプを表示"@,
                    ..r.0.app@
                },
            ),
            broadcasting ==> (r.1@.len() == 1 && (r.1@[0] matches Outgoing::Spectate(t) && t@
                == spectate_meta(app_version@, r.0.app@.initial))),
            !broadcasting ==> r.1@.len() == 0,
    {
        let mut app = App::new();
        if side == Side::Gote {
            app.phase = Phase::GoteInput;
            app.cursor_rank = 1;
            app.cursor_file = 5;
        }
        let phase = match &failure {
            Some(m) => {
                app.message = concat(string_of_str(m.as_str()), " — [q] でポータルへ戻る");
                OnlinePhase::Aborted(string_of_str(m.as_str()))
            },
            None => {
                let prefix = if side == Side::Sente {
                    "先手: "
                } else {
                    "後手: "
                };
                app.message = concat(string_of_str(prefix), "接続完了 — 着手を入力してください");
                OnlinePhase::WaitingMyMove
            },
        };
        let mut out: Vec<Outgoing> = Vec::new();
        if broadcasting {
            let ver = version_tuple(app_version);
            let sfen = position_to_sfen(&app.kifu.initial_position);
            let mut t = String::new();
            push_str(&mut t, "{\"type\":\"spectate_meta\",\"version\":");
            push_str(&mut t, ver.as_str());
            push_str(&mut t, ",\"initial_sfen\":\"");
            push_str(&mut t, sfen.as_str());
            push_str(&mut t, "\"}");
            assert(t@ =~= spectate_meta(app_version@, app@.initial));
            out.push(Outgoing::Spectate(t));
        }
        let game = OnlineGame {
            side,
            phase,
            session,
            app,
            resigned: None,
            move_rolled_back: false,
            broadcasting,
        };
        (game, out)
    }

    /// The game record: the desk's record, then the resigned turn if any.
    fn record(&self) -> (k: Kifu)
        ensures
            is_record(k, self.app@, self.resigned),
    {
        let mut plies = copy_plies(&self.app.kifu.plies);
        if let Some(p) = self.resigned {
            plies.push(p);
        }
        Kifu { initial_position: self.app.kifu.initial_position, plies }
    }

    fn abort(&mut self, reason: String) -> (out: Vec<Outgoing>)
        ensures
            aborted(reason@, final(self).phase),
            sends_abort(out@, reason@),
            final(self).side == old(self).side,
            final(self).session == old(self).session,
            final(self).app == old(self).app,
            final(self).resigned == old(self).resigned,
            final(self).move_rolled_back == old(self).move_rolled_back,
            final(self).broadcasting == old(self).broadcasting,
    {
        let copy = string_of_str(reason.as_str());
        self.phase = OnlinePhase::Aborted(reason);
        let mut out: Vec<Outgoing> = Vec::new();
        out.push(Outgoing::Wire(WireMessage::Abort { reason: copy }));
        out
    }
}

/// The result of a turn that holds a resignation: both resigning is a draw.
pub open spec fn resign_result(s: Action, g: Action) -> (ResultKind, Outcome) {
    if s is Resign && g is Resign {
        (ResultKind::Resign, Outcome::Draw)
    } else if s is Resign {
        (ResultKind::Resign, Outcome::GoteWins)
    } else {
        (ResultKind::Resign, Outcome::SenteWins)
    }
}

/// Everything of the game but the phase, the session and the desk is as it was.
pub open spec fn keeps_setting(o: OnlineGame, n: OnlineGame) -> bool {
    &&& n.side == o.side
    &&& n.move_rolled_back == o.move_rolled_back
    &&& n.broadcasting == o.broadcasting
}

/// Only the desk's message changed.
pub open spec fn only_message(o: OnlineGame, n: OnlineGame, msg: Seq<char>) -> bool {
    &&& keeps_setting(o, n)
    &&& n.phase == o.phase
    &&& n.session.state() == o.session.state()
    &&& n.resigned == o.resigned
    &&& n.app@ == AppView { message: msg, ..o.app@ }
}

/// Nothing changed.
pub open spec fn unchanged(o: OnlineGame, n: OnlineGame) -> bool {
    &&& keeps_setting(o, n)
    &&& n.phase == o.phase
    &&& n.session.state() == o.session.state()
    &&& n.resigned == o.resigned
    &&& n.app@ == o.app@
}

/// The game stopped with `reason`, which is sent to the other side; the rest
/// is as it was.
pub open spec fn aborts_with(o: OnlineGame, n: OnlineGame, out: Seq<Outgoing>, reason: Seq<char>) -> bool {
    &&& keeps_setting(o, n)
    &&& aborted(reason, n.phase)
    &&& sends_abort(out, reason)
    &&& n.session.state() == o.session.state()
    &&& n.resigned == o.resigned
    &&& n.app@ == o.app@
}

/// Why no reveal can be made from session state `s`.
pub open spec fn reveal_failure(s: ClientState) -> SessionError {
    if s.turn is None {
        SessionError::NoActiveTurn
    } else {
        SessionError::Protocol(crate::protocol::session::ProtocolError::RevealBeforeBothCommitted)
    }
}

/// Why no acknowledgement can be made from session state `s`.
pub open spec fn ack_failure(s: ClientState) -> SessionError {
    if s.turn is None {
        SessionError::NoActiveTurn
    } else {
        SessionError::Protocol(crate::protocol::session::ProtocolError::AckBeforePeerReveal)
    }
}

/// The session can reveal our action.
pub open spec fn can_reveal(s: ClientState) -> bool {
    s.turn matches Some(t) && t.both_committed()
}

/// The session can acknowledge the other side's reveal.
pub open spec fn can_ack(s: ClientState) -> bool {
    s.turn matches Some(t) && t.peer_action is Some
}

/// Our reveal was sent: the message carries our action, nonce and board hash,
/// and the session marks it.
pub open spec fn revealed(o: OnlineGame, n: OnlineGame, out: Seq<Outgoing>) -> bool {
    let t = o.session.state().turn->0;
    &&& keeps_setting(o, n)
    &&& n.phase == OnlinePhase::WaitingPeerReveal
    &&& n.resigned == o.resigned
    &&& n.app@ == AppView { message: "Reveal 送信済み — 相手の Reveal 待ち..."@, ..o.app@ }
    &&& n.session.state() == (ClientState {
        turn: Some(TurnState { local_revealed: true, ..t }),
        ..o.session.state()
    })
    &&& out.len() == 1
    &&& out[0] matches Outgoing::Wire(WireMessage::Reveal { action, nonce, board_hash })
        && action@ == usi_action(t.local_action->0) && nonce@ == hex_text((t.local_nonce->0).0@)
        && board_hash@ == hex_text(t.current_pos_hash.0@)
}

/// Our acknowledgement was sent, and the session marks it.
pub open spec fn acked(o: OnlineGame, n: OnlineGame, out: Seq<Outgoing>) -> bool {
    let t = o.session.state().turn->0;
    &&& keeps_setting(o, n)
    &&& n.phase == OnlinePhase::WaitingPeerAck
    &&& n.resigned == o.resigned
    &&& n.app@ == AppView { message: "Ack 送信済み — 相手の Ack 待ち..."@, ..o.app@ }
    &&& n.session.state() == (ClientState {
        turn: Some(TurnState { local_acked: true, ..t }),
        ..o.session.state()
    })
    &&& out.len() == 1
    &&& out[0] matches Outgoing::Wire(WireMessage::Ack)
}

/// A completed turn was taken: a resignation ends the game by its result
/// (when the desk has words for it); otherwise both actions must be legal on
/// the desk's position and the turn must resolve, else the game stops; a
/// resolved turn goes on the desk and, unless the game is over, our camp
/// enters its next action.
pub open spec fn turn_taken(o: OnlineGame, n: OnlineGame, s: Action, g: Action, out: Seq<Outgoing>) -> bool {
    let v = o.app@;
    let pos = cur(v);
    if s is Resign || g is Resign {
        let (k, oc) = resign_result(s, g);
        &&& keeps_setting(o, n)
        &&& n.phase == o.phase
        &&& n.session.state() == o.session.state()
        &&& n.resigned == Some(Ply { sente: s, gote: g })
        &&& n.app@ == (match game_over_of(k, oc) {
            Some(end) => AppView { phase: Phase::GameOver(end), ..v },
            None => v,
        })
        &&& out.len() == 0
    } else if !(crate::movegen::is_legal(pos, Side::Sente, s) && crate::movegen::is_legal(
        pos,
        Side::Gote,
        g,
    )) {
        aborts_with(o, n, out, "相手から非合法な着手を受信しました"@)
    } else {
        let w = after_resolve(AppView { sente_action: Some(s), gote_action: Some(g), ..v });
        if w.plies.len() == v.plies.len() {
            &&& keeps_setting(o, n)
            &&& aborted(crate::desk::state::refused_turn_message(), n.phase)
            &&& sends_abort(out, crate::desk::state::refused_turn_message())
            &&& n.session.state() == o.session.state()
            &&& n.resigned == o.resigned
            &&& n.app@ == w
        } else {
            &&& keeps_setting(o, n)
            &&& n.phase == (if w.phase is GameOver {
                o.phase
            } else {
                OnlinePhase::WaitingMyMove
            })
            &&& n.session.state() == o.session.state()
            &&& n.resigned == o.resigned
            &&& n.app@ == desk_after_turn(v, o.side, s, g)
            &&& out.len() == 0
        }
    }
}

impl OnlineGame {
    /// Takes a turn that both sides completed (see `turn_taken`).
    fn take_turn(&mut self, s: Action, g: Action) -> (out: Vec<Outgoing>)
        requires
            old(self).wf(),
            s.wf(),
            g.wf(),
        ensures
            final(self).wf(),
            turn_taken(*old(self), *final(self), s, g, out@),
    {
        if s.is_resign() || g.is_resign() {
            let ply = Ply { sente: s, gote: g };
            self.resigned = Some(ply);
            let record = self.record();
            match game_result(&record) {
                Some((kind, outcome)) => {
                    if let Some(end) = game_over_from_result(kind, outcome) {
                        self.app.phase = Phase::GameOver(end);
                    }
                },
                None => {},
            }
            return Vec::new();
        }
        let pos = self.app.current_pos();
        if !turn_actions_are_legal(&pos, s, g) {
            return self.abort(string_of_str("相手から非合法な着手を受信しました"));
        }
        let before = self.app.kifu.plies.len();
        self.app.sente_action = Some(s);
        self.app.gote_action = Some(g);
        self.app.resolve_turn();
        if self.app.kifu.plies.len() == before {
            return self.abort(string_of_str("この組手は解決できません"));
        }
        if !matches!(self.app.phase, Phase::GameOver(_)) {
            self.phase = OnlinePhase::WaitingMyMove;
            if self.side == Side::Gote {
                self.app.phase = Phase::GoteInput;
                self.app.cursor_rank = 1;
            }
            self.app.message = string_of_str("次の着手を入力してください");
        }
        Vec::new()
    }
}

/// How a game record ended: a resignation in the last turn, else the end
/// that the board shows; none while it goes on.
pub open spec fn record_result(init: Position, plies: Seq<Ply>) -> Option<(ResultKind, Outcome)> {
    if plies.len() > 0 && (plies.last().sente is Resign || plies.last().gote is Resign) {
        Some(resign_result(plies.last().sente, plies.last().gote))
    } else {
        crate::terminate::result_of_terminal(crate::terminate::record_terminal(init, plies))
    }
}

/// The result for the spectators after a turn: sent when broadcasting and
/// the game is over on the desk, if the record has one.
pub open spec fn turn_result_texts(n: OnlineGame) -> Seq<Seq<char>> {
    match record_result(n.app@.initial, record_plies(n.app@, n.resigned)) {
        Some((k, oc)) => if n.broadcasting && n.app@.phase is GameOver {
            seq![spectate_result(k, oc)]
        } else {
            Seq::empty()
        },
        None => Seq::empty(),
    }
}

/// The steps send `texts` to the spectators, in order, and nothing else.
pub open spec fn spectates(out: Seq<Outgoing>, texts: Seq<Seq<char>>) -> bool {
    &&& out.len() == texts.len()
    &&& forall|i: int| 0 <= i < out.len() ==> (#[trigger] out[i] matches Outgoing::Spectate(t) && t@ == texts[i])
}

/// The reaction to what the session made of a message of the other side
/// (`r`); `o` is the game after the session took the message.
/// - both commitments in: our reveal goes out (or the game stops, when none
///   can be made); the other's commitment alone, or early: a message;
/// - both reveals in: our acknowledgement goes out (or the game stops);
/// - a completed turn: see `turn_taken`; when broadcasting, the spectators
///   are sent the turn before, and the result after, when the game is over;
/// - the other side's abort: the game stops with its reason;
/// - a reconnection request: accepted when a position of the record has the
///   board hash it names, else the game stops with `hash_mismatch`;
/// - our reconnection accepted: the game stops when no position of the record
///   has the agreed hash;
/// - an identity that does not match: the game stops with `auth_mismatch`;
///   another failure: the game stops with its text.
pub open spec fn reacted(o: OnlineGame, n: OnlineGame, r: Result<SessionEvent, SessionError>, out: Seq<Outgoing>) -> bool {
    match r {
        Ok(SessionEvent::PeerCommitted { both_committed }) => if both_committed {
            if can_reveal(o.session.state()) {
                revealed(o, n, out)
            } else {
                aborts_with(o, n, out, "reveal 生成エラー: "@ + session_error_text(reveal_failure(o.session.state())))
            }
        } else {
            only_message(o, n, "相手のコミット受信済み — 自分の着手を確定してください"@) && out.len() == 0
        },
        Ok(SessionEvent::PeerCommitBuffered) => only_message(o, n, "相手のコミット受信済み — 着手を入力してください"@)
            && out.len() == 0,
        Ok(SessionEvent::PeerRevealed { both_revealed }) => if both_revealed {
            if can_ack(o.session.state()) {
                acked(o, n, out)
            } else {
                aborts_with(o, n, out, "ack エラー: "@ + session_error_text(ack_failure(o.session.state())))
            }
        } else {
            unchanged(o, n) && out.len() == 0
        },
        Ok(SessionEvent::TurnComplete { sente, gote }) => {
            let pre = if o.broadcasting {
                seq![spectate_turn(sente, gote)]
            } else {
                Seq::<Seq<char>>::empty()
            };
            let post = turn_result_texts(n);
            exists|taken: Seq<Outgoing>|
                #[trigger] turn_taken(o, n, sente, gote, taken) && out.len() == pre.len()
                    + taken.len() + post.len() && spectates(out.take(pre.len() as int), pre)
                    && out.subrange(pre.len() as int, (pre.len() + taken.len()) as int) == taken
                    && spectates(out.skip((pre.len() + taken.len()) as int), post)
        },
        Ok(SessionEvent::PeerAborted { reason }) => {
            &&& keeps_setting(o, n)
            &&& aborted("相手がアボート: "@ + reason@, n.phase)
            &&& n.session.state() == o.session.state()
            &&& n.resigned == o.resigned
            &&& n.app@ == o.app@
            &&& out.len() == 0
        },
        Ok(SessionEvent::PeerReconnectRequest { board_hash }) => if has_resume_point(o.app@, board_hash.0@) {
            &&& unchanged(o, n)
            &&& out.len() == 1
            &&& out[0] matches Outgoing::Wire(WireMessage::ReconnectAck { board_hash: b }) && b@ == hex_text(board_hash.0@)
        } else {
            aborts_with(o, n, out, "hash_mismatch"@)
        },
        Ok(SessionEvent::ReconnectAck { resume_hash }) => if has_resume_point(o.app@, resume_hash.0@) {
            unchanged(o, n) && out.len() == 0
        } else {
            &&& keeps_setting(o, n)
            &&& aborted("再接続: 再開局面が見つかりません"@, n.phase)
            &&& n.session.state() == o.session.state()
            &&& n.resigned == o.resigned
            &&& n.app@ == o.app@
            &&& out.len() == 0
        },
        Ok(SessionEvent::HandshakeDone { .. }) => unchanged(o, n) && out.len() == 0,
        Ok(SessionEvent::PeerAcked) => unchanged(o, n) && out.len() == 0,
        Err(SessionError::IdentityMismatch) => aborts_with(o, n, out, "auth_mismatch"@),
        Err(e) => aborts_with(o, n, out, "プロトコルエラー: "@ + session_error_text(e)),
    }
}

proof fn lemma_record_result(k: Kifu)
    ensures
        game_result_of(k) == record_result(k.initial_position, k.plies@),
{
}

fn push_spectate(out: &mut Vec<Outgoing>, t: String)
    ensures
        final(out)@.len() == old(out)@.len() + 1,
        final(out)@.take(old(out)@.len() as int) == old(out)@,
        final(out)@.last() matches Outgoing::Spectate(x) && x@ == t@,
{
    out.push(Outgoing::Spectate(t));
}

fn turn_text(s: Action, g: Action) -> (t: String)
    requires
        s.wf(),
        g.wf(),
    ensures
        t@ == spectate_turn(s, g),
{
    let mut t = String::new();
    push_str(&mut t, "{\"type\":\"spectate_turn\",\"s\":\"");
    let su = s.to_usi();
    push_str(&mut t, su.as_str());
    push_str(&mut t, "\",\"g\":\"");
    let gu = g.to_usi();
    push_str(&mut t, gu.as_str());
    push_str(&mut t, "\"}");
    assert(t@ =~= spectate_turn(s, g));
    t
}

fn result_text(k: ResultKind, o: Outcome) -> (t: String)
    ensures
        t@ == spectate_result(k, o),
{
    let mut t = String::new();
    push_str(&mut t, "{\"type\":\"spectate_result\",\"kind\":\"");
    push_str(&mut t, k.to_str());
    push_str(&mut t, "\",\"outcome\":\"");
    push_str(&mut t, o.to_str());
    push_str(&mut t, "\"}");
    assert(t@ =~= spectate_result(k, o));
    t
}

fn with_text(prefix: &str, e: &SessionError) -> (r: String)
    ensures
        r@ == prefix@ + session_error_text(*e),
{
    let mut r = string_of_str(prefix);
    let d = describe_session_error(e);
    push_str(&mut r, d.as_str());
    r
}

impl OnlineGame {
    /// Reacts to what the session made of a message of the other side (see
    /// `reacted`).
    #[verifier::spinoff_prover]
    #[verifier::rlimit(50)]
    pub fn react(&mut self, r: Result<SessionEvent, SessionError>) -> (out: Vec<Outgoing>)
        requires
            old(self).wf(),
            r matches Ok(SessionEvent::TurnComplete { sente, gote }) ==> sente.wf() && gote.wf(),
        ensures
            final(self).wf(),
            reacted(*old(self), *final(self), r, out@),
    {
        match r {
            Ok(SessionEvent::PeerCommitted { both_committed }) => {
                if both_committed {
                    match self.session.reveal_msg() {
                        Ok(m) => {
                            self.phase = OnlinePhase::WaitingPeerReveal;
                            self.app.message = string_of_str("Reveal 送信済み — 相手の Reveal 待ち...");
                            let mut out: Vec<Outgoing> = Vec::new();
                            out.push(Outgoing::Wire(m));
                            out
                        },
                        Err(e) => self.abort(with_text("reveal 生成エラー: ", &e)),
                    }
                } else {
                    self.app.message = string_of_str("相手のコミット受信済み — 自分の着手を確定してください");
                    Vec::new()
                }
            },
            Ok(SessionEvent::PeerCommitBuffered) => {
                self.app.message = string_of_str("相手のコミット受信済み — 着手を入力してください");
                Vec::new()
            },
            Ok(SessionEvent::PeerRevealed { both_revealed }) => {
                if both_revealed {
                    match self.session.ack_msg() {
                        Ok(m) => {
                            self.phase = OnlinePhase::WaitingPeerAck;
                            self.app.message = string_of_str("Ack 送信済み — 相手の Ack 待ち...");
                            let mut out: Vec<Outgoing> = Vec::new();
                            out.push(Outgoing::Wire(m));
                            out
                        },
                        Err(e) => self.abort(with_text("ack エラー: ", &e)),
                    }
                } else {
                    Vec::new()
                }
            },
            Ok(SessionEvent::TurnComplete { sente, gote }) => {
                let ghost o = *self;
                let mut out: Vec<Outgoing> = Vec::new();
                if self.broadcasting {
                    push_spectate(&mut out, turn_text(sente, gote));
                }
                let ghost pre = out@;
                let mut taken = self.take_turn(sente, gote);
                let ghost tk = taken@;
                out.append(&mut taken);
                let ghost mid = out@;
                assert(mid == pre + tk);
                if self.broadcasting && matches!(self.app.phase, Phase::GameOver(_)) {
                    let record = self.record();
                    proof {
                        lemma_record_result(record);
                    }
                    if let Some((k, oc)) = game_result(&record) {
                        push_spectate(&mut out, result_text(k, oc));
                    }
                }
                proof {
                    let n = *self;
                    let pt = if o.broadcasting {
                        seq![spectate_turn(sente, gote)]
                    } else {
                        Seq::<Seq<char>>::empty()
                    };
                    let post = turn_result_texts(n);
                    assert(out@.take(mid.len() as int) =~= mid);
                    assert forall|j: int| 0 <= j < mid.len() implies out@[j] == mid[j] by {
                        assert(out@.take(mid.len() as int)[j] == out@[j]);
                    }
                    assert(out@.take(pre.len() as int) =~= pre);
                    assert(mid.subrange(pre.len() as int, mid.len() as int) =~= tk);
                    assert(out@.subrange(pre.len() as int, (pre.len() + tk.len()) as int) =~= tk);
                    assert(spectates(out@.take(pt.len() as int), pt));
                    assert(spectates(out@.skip((pt.len() + tk.len()) as int), post));
                    assert(turn_taken(o, n, sente, gote, tk));
                }
                out
            },
            Ok(SessionEvent::PeerAborted { reason }) => {
                let mut t = string_of_str("相手がアボート: ");
                push_str(&mut t, reason.as_str());
                self.phase = OnlinePhase::Aborted(t);
                Vec::new()
            },
            Ok(SessionEvent::PeerReconnectRequest { board_hash: bh }) => {
                if self.has_resume_point(bh) {
                    let mut out: Vec<Outgoing> = Vec::new();
                    out.push(Outgoing::Wire(self.session.reconnect_ack_msg(bh)));
                    out
                } else {
                    self.abort(string_of_str("hash_mismatch"))
                }
            },
            Ok(SessionEvent::ReconnectAck { resume_hash }) => {
                if !self.has_resume_point(resume_hash) {
                    self.phase = OnlinePhase::Aborted(string_of_str("再接続: 再開局面が見つかりません"));
                }
                Vec::new()
            },
            Ok(SessionEvent::HandshakeDone { .. }) => Vec::new(),
            Ok(SessionEvent::PeerAcked) => Vec::new(),
            Err(SessionError::IdentityMismatch) => self.abort(string_of_str("auth_mismatch")),
            Err(e) => self.abort(with_text("プロトコルエラー: ", &e)),
        }
    }

    /// Whether a position of the desk's record, from the start, has hash `h`.
    fn has_resume_point(&self, h: BoardHash) -> (b: bool)
        requires
            self.wf(),
        ensures
            b == has_resume_point(self.app@, h.0@),
    {
        let record = Kifu {
            initial_position: self.app.kifu.initial_position,
            plies: copy_plies(&self.app.kifu.plies),
        };
        let secret = match self.session.peer_auth_hash() {
            Some(x) => x,
            None => SecretHash([0u8; 32]),
        };
        let recovery = RecoverySession::new(record, secret);
        let found = recovery.find_resume_point(h);
        proof {
            if found is None {
                assert forall|n: int|
                    0 <= n <= self.app@.plies.len() implies #[trigger] position_hash(
                        crate::kifu::replay_spec(self.app@.initial, self.app@.plies, n as nat),
                    ) != h.0@ by {
                    assert(record.position_at(n) == crate::kifu::replay_spec(
                        self.app@.initial,
                        self.app@.plies,
                        n as nat,
                    ));
                }
            } else {
                let n = choose|n: int|
                    0 <= n <= record.plies@.len() && found->0 == record.position_at(n)
                        && position_hash(found->0) == h.0@ && forall|m: int|
                        0 <= m < n ==> position_hash(record.position_at(m)) != h.0@;
                assert(record.position_at(n) == crate::kifu::replay_spec(
                    self.app@.initial,
                    self.app@.plies,
                    n as nat,
                ));
            }
        }
        found.is_some()
    }
}

/// A message of the other side was taken: the session moved as `feed_step`
/// says and the game reacted to its answer (see `reacted`).
pub open spec fn took_message(o: OnlineGame, n: OnlineGame, w: WireMessage, out: Seq<Outgoing>) -> bool {
    exists|mid: OnlineGame, res: Result<SessionEvent, SessionError>|
        #[trigger] feed_step(o.session.state(), mid.session.state(), res, w) && keeps_setting(o, mid)
            && mid.phase == o.phase && mid.resigned == o.resigned && mid.app@ == o.app@
            && reacted(mid, n, res, out)
}

/// After a reconnection: the phase waits for our action, both actions are
/// dropped from the desk, and the message tells whether ours was.
pub open spec fn resumed(o: OnlineGame, n: OnlineGame) -> bool {
    &&& n.side == o.side
    &&& n.broadcasting == o.broadcasting
    &&& !n.move_rolled_back
    &&& n.phase == OnlinePhase::WaitingMyMove
    &&& n.resigned == o.resigned
    &&& n.app@ == resumed_desk(o.app@, o.side, o.move_rolled_back)
}

/// The outcome of the handshake for the answer of the session to the other
/// side's hello: its camp, or the text of the failure.
pub open spec fn hello_result(r: Result<SessionEvent, SessionError>) -> Result<Side, Seq<char>> {
    match r {
        Ok(SessionEvent::HandshakeDone { peer_side }) => Ok(peer_side),
        Err(SessionError::VersionMismatch(o)) => Err(crate::online::mismatch_text(o)),
        Err(e) => Err("ハンドシェイク失敗: "@ + session_error_text(e)),
        Ok(_) => Err("ハンドシェイク: 予期しない応答"@),
    }
}

/// The outcome of the handshake (see `hello_result`).
pub fn hello_outcome(r: &Result<SessionEvent, SessionError>) -> (o: Result<Side, String>)
    ensures
        match (o, hello_result(*r)) {
            (Ok(a), Ok(b)) => a == b,
            (Err(a), Err(b)) => a@ == b,
            _ => false,
        },
{
    match r {
        Ok(SessionEvent::HandshakeDone { peer_side }) => Ok(*peer_side),
        Err(SessionError::VersionMismatch(o)) => Err(crate::online::format_version_mismatch(o)),
        Err(e) => Err(with_text("ハンドシェイク失敗: ", e)),
        Ok(_) => Err(string_of_str("ハンドシェイク: 予期しない応答")),
    }
}

/// What an event from the room server, while waiting for our camp, decides:
/// the camp assigned; a full room or a broken connection ends the wait with a
/// message; anything else is passed over (`None`).
pub open spec fn assignment_of(ev: NetEvent) -> Option<Result<Side, Seq<char>>> {
    match ev {
        NetEvent::System(DoSystemMsg::SideAssigned { side }) => Some(Ok(side)),
        NetEvent::System(DoSystemMsg::RoomFull) => Some(Err("この部屋は満室です"@)),
        NetEvent::Disconnected => Some(Err("接続が切断されました"@)),
        _ => None,
    }
}

/// What an event decides while waiting for our camp (see `assignment_of`).
pub fn side_assignment(ev: &NetEvent) -> (r: Option<Result<Side, String>>)
    ensures
        match (r, assignment_of(*ev)) {
            (None, None) => true,
            (Some(Ok(a)), Some(Ok(b))) => a == b,
            (Some(Err(a)), Some(Err(b))) => a@ == b,
            _ => false,
        },
{
    match ev {
        NetEvent::System(DoSystemMsg::SideAssigned { side }) => Some(Ok(*side)),
        NetEvent::System(DoSystemMsg::RoomFull) => Some(Err(string_of_str("この部屋は満室です"))),
        NetEvent::Disconnected => Some(Err(string_of_str("接続が切断されました"))),
        _ => None,
    }
}

/// What an event decides while waiting for the other side's hello: the hello
/// is handed on to be fed to the session; another message of the game channel
/// or a broken connection ends the handshake with a message; a message of the
/// room server is passed over (`None`).
pub open spec fn handshake_of(ev: NetEvent) -> Option<Result<WireMessage, Seq<char>>> {
    match ev {
        NetEvent::Message(m) => if m is Hello {
            Some(Ok(m))
        } else {
            Some(Err("ハンドシェイク: hello 以外を受信"@))
        },
        NetEvent::System(_) => None,
        NetEvent::Disconnected => Some(Err("ハンドシェイク中に切断"@)),
    }
}

/// What an event decides while waiting for the other side's hello (see
/// `handshake_of`).
pub fn handshake_step(ev: NetEvent) -> (r: Option<Result<WireMessage, String>>)
    ensures
        match (r, handshake_of(ev)) {
            (None, None) => true,
            (Some(Ok(a)), Some(Ok(b))) => a == b,
            (Some(Err(a)), Some(Err(b))) => a@ == b,
            _ => false,
        },
{
    match ev {
        NetEvent::Message(m) => {
            if let WireMessage::Hello { .. } = m {
                Some(Ok(m))
            } else {
                Some(Err(string_of_str("ハンドシェイク: hello 以外を受信")))
            }
        },
        NetEvent::System(_) => None,
        NetEvent::Disconnected => Some(Err(string_of_str("ハンドシェイク中に切断"))),
    }
}

impl OnlineGame {
    /// Takes a message of the other side (see `took_message`).
    pub fn on_message(&mut self, wire: WireMessage) -> (out: Vec<Outgoing>)
        requires
            old(self).wf(),
        ensures
            final(self).wf(),
            took_message(*old(self), *final(self), wire, out@),
    {
        let ghost o = *self;
        let ghost w = wire;
        let res = self.session.feed(wire);
        let ghost mid = *self;
        let ghost r = res;
        let out = self.react(res);
        assert(feed_step(o.session.state(), mid.session.state(), r, w));
        out
    }

    fn resume(&mut self)
        requires
            old(self).wf(),
        ensures
            final(self).wf(),
            resumed(*old(self), *final(self)),
            final(self).session == old(self).session,
    {
        self.phase = OnlinePhase::WaitingMyMove;
        self.app.sente_action = None;
        self.app.gote_action = None;
        match self.side {
            Side::Sente => {
                self.app.phase = Phase::SenteInput;
            },
            Side::Gote => {
                self.app.phase = Phase::GoteInput;
                self.app.cursor_rank = 1;
            },
        }
        if self.move_rolled_back {
            self.move_rolled_back = false;
            self.app.message = string_of_str("着手をキャンセルしました — 再度入力してください");
        } else {
            self.app.message = string_of_str("着手を入力してください");
        }
    }

    fn reconnect_message(&self) -> (m: WireMessage)
        requires
            self.wf(),
        ensures
            is_reconnect_msg(m, self.session.state(), self.app@),
    {
        let pos = self.app.current_pos();
        self.session.reconnect_msg(board_hash(&pos))
    }

    /// The connection broke. The first time: whether our action was fixed is
    /// kept, the turn in progress is dropped, and the caller starts to
    /// reconnect (`true`). While already disconnected nothing changes.
    pub fn on_disconnected(&mut self) -> (start: bool)
        requires
            old(self).wf(),
        ensures
            final(self).wf(),
            start == (old(self).phase != OnlinePhase::Disconnected),
            !start ==> unchanged(*old(self), *final(self)),
            start ==> {
                &&& final(self).side == old(self).side
                &&& final(self).broadcasting == old(self).broadcasting
                &&& final(self).move_rolled_back == own_action(old(self).app@, old(self).side) is Some
                &&& final(self).phase == OnlinePhase::Disconnected
                &&& final(self).session.state() == (ClientState {
                    turn: None,
                    pending_peer_commit: None,
                    ..old(self).session.state()
                })
                &&& final(self).resigned == old(self).resigned
                &&& final(self).app@ == AppView {
                    message: "接続が切断されました — 再接続中..."@,
                    ..old(self).app@
                }
            },
    {
        if matches!(self.phase, OnlinePhase::Disconnected) {
            return false;
        }
        let mine = match self.side {
            Side::Sente => self.app.sente_action,
            Side::Gote => self.app.gote_action,
        };
        self.move_rolled_back = mine.is_some();
        self.phase = OnlinePhase::Disconnected;
        self.session.abort_turn();
        self.app.message = string_of_str("接続が切断されました — 再接続中...");
        true
    }

    /// A message of the room server: the other side left or came back (a
    /// message), we came back (the reconnection message goes out and the
    /// turn starts again, see `resumed`), the room is full (the game stops),
    /// or our camp again (passed over).
    pub fn on_system(&mut self, sys: DoSystemMsg) -> (out: Vec<Outgoing>)
        requires
            old(self).wf(),
        ensures
            final(self).wf(),
            match sys {
                DoSystemMsg::PeerDisconnected => only_message(
                    *old(self),
                    *final(self),
                    "相手が切断しました。再接続を待っています…"@,
                ) && out@.len() == 0,
                DoSystemMsg::PeerReconnected => only_message(*old(self), *final(self), "相手が再接続しました。"@)
                    && out@.len() == 0,
                DoSystemMsg::YouReconnected => {
                    &&& resumed(*old(self), *final(self))
                    &&& final(self).session == old(self).session
                    &&& out@.len() == 1
                    &&& out@[0] matches Outgoing::Wire(m) && is_reconnect_msg(
                        m,
                        old(self).session.state(),
                        old(self).app@,
                    )
                },
                DoSystemMsg::RoomFull => {
                    &&& keeps_setting(*old(self), *final(self))
                    &&& aborted("この部屋は満室です"@, final(self).phase)
                    &&& final(self).session == old(self).session
                    &&& final(self).resigned == old(self).resigned
                    &&& final(self).app@ == old(self).app@
                    &&& out@.len() == 0
                },
                DoSystemMsg::SideAssigned { .. } => unchanged(*old(self), *final(self)) && out@.len() == 0,
            },
    {
        match sys {
            DoSystemMsg::PeerDisconnected => {
                self.app.message = string_of_str("相手が切断しました。再接続を待っています…");
                Vec::new()
            },
            DoSystemMsg::YouReconnected => {
                let m = self.reconnect_message();
                self.resume();
                let mut out: Vec<Outgoing> = Vec::new();
                out.push(Outgoing::Wire(m));
                out
            },
            DoSystemMsg::PeerReconnected => {
                self.app.message = string_of_str("相手が再接続しました。");
                Vec::new()
            },
            DoSystemMsg::RoomFull => {
                self.phase = OnlinePhase::Aborted(string_of_str("この部屋は満室です"));
                Vec::new()
            },
            DoSystemMsg::SideAssigned { .. } => Vec::new(),
        }
    }

    /// The caller's attempt to reconnect ended: over the room server (`Ok(true)`)
    /// the game waits for the server to say we are back; directly (`Ok(false)`)
    /// the reconnection message goes out and the turn starts again; on failure
    /// the game stops.
    pub fn on_reconnect(&mut self, result: Result<bool, String>) -> (out: Vec<Outgoing>)
        requires
            old(self).wf(),
        ensures
            final(self).wf(),
            match result {
                Ok(true) => only_message(
                    *old(self),
                    *final(self),
                    "再接続しました — 相手との再開を待っています..."@,
                ) && out@.len() == 0,
                Ok(false) => {
                    &&& resumed(*old(self), *final(self))
                    &&& final(self).session == old(self).session
                    &&& out@.len() == 1
                    &&& out@[0] matches Outgoing::Wire(m) && is_reconnect_msg(
                        m,
                        old(self).session.state(),
                        old(self).app@,
                    )
                },
                Err(reason) => {
                    &&& keeps_setting(*old(self), *final(self))
                    &&& aborted("再接続失敗: "@ + reason@, final(self).phase)
                    &&& final(self).session == old(self).session
                    &&& final(self).resigned == old(self).resigned
                    &&& final(self).app@ == AppView {
                        message: "再接続失敗: "@ + reason@ + " [q]終了"@,
                        ..old(self).app@
                    }
                    &&& out@.len() == 0
                },
            },
    {
        match result {
            Ok(true) => {
                self.app.message = string_of_str("再接続しました — 相手との再開を待っています...");
                Vec::new()
            },
            Ok(false) => {
                let m = self.reconnect_message();
                self.resume();
                let mut out: Vec<Outgoing> = Vec::new();
                out.push(Outgoing::Wire(m));
                out
            },
            Err(reason) => {
                let mut p = string_of_str("再接続失敗: ");
                push_str(&mut p, reason.as_str());
                let mut msg = string_of_str("再接続失敗: ");
                push_str(&mut msg, reason.as_str());
                push_str(&mut msg, " [q]終了");
                self.phase = OnlinePhase::Aborted(p);
                self.app.message = msg;
                Vec::new()
            },
        }
    }

    /// We resign: the resignation is our action of the turn, to go through
    /// the commitment like any other.
    pub fn declare_resign(&mut self)
        requires
            old(self).wf(),
        ensures
            final(self).wf(),
            keeps_setting(*old(self), *final(self)),
            final(self).phase == old(self).phase,
            final(self).session == old(self).session,
            final(self).resigned == old(self).resigned,
            final(self).app@ == (match old(self).side {
                Side::Sente => AppView {
                    sente_action: Some(Action::Resign),
                    message: "投了申告 — 相手の確定を待っています..."@,
                    ..old(self).app@
                },
                Side::Gote => AppView {
                    gote_action: Some(Action::Resign),
                    message: "投了申告 — 相手の確定を待っています..."@,
                    ..old(self).app@
                },
            }),
    {
        match self.side {
            Side::Sente => self.app.sente_action = Some(Action::Resign),
            Side::Gote => self.app.gote_action = Some(Action::Resign),
        }
        self.app.message = string_of_str("投了申告 — 相手の確定を待っています...");
    }
}

/// `v` lists exactly the legal actions of `side` on `pos`.
pub open spec fn lists_all_legal(v: Seq<Action>, pos: Position, side: Side) -> bool {
    forall|x: Action| #[trigger] v.contains(x) <==> crate::movegen::is_legal(pos, side, x)
}

/// The message that shows our fixed action in Japanese notation, the legal
/// actions of the position given to the notation in some order.
pub open spec fn notes_fixed(msg: Seq<char>, a: Action, side: Side, pos: Position) -> bool {
    exists|v: Seq<Action>|
        #[trigger] lists_all_legal(v, pos, side) && msg == "着手確定: "@ + notation(a, side, v, pos)
}

/// Our fixed action was committed with `nonce` (nothing happens while we have
/// none): the desk waits for the turn and shows the action; then the
/// commitment goes out (see `committed`), and our reveal right after it when
/// the other side's commitment had already come. Before the handshake the
/// game stops with the failure of the commitment.
pub open spec fn committed_own(o: OnlineGame, n: OnlineGame, nonce: Nonce, out: Seq<Outgoing>) -> bool {
    match own_action(o.app@, o.side) {
        None => unchanged(o, n) && out.len() == 0,
        Some(a) => {
            let pos = cur(o.app@);
            let st = o.session.state();
            &&& keeps_setting(o, n)
            &&& n.resigned == o.resigned
            &&& notes_fixed(n.app@.message, a, o.side, pos)
            &&& n.app@ == AppView { phase: Phase::ResolveReady, message: n.app@.message, ..o.app@ }
            &&& if !st.handshake_done {
                &&& aborted("commit エラー: "@ + session_error_text(SessionError::HandshakeNotDone), n.phase)
                &&& sends_abort(out, "commit エラー: "@ + session_error_text(SessionError::HandshakeNotDone))
                &&& n.session.state() == st
            } else {
                &&& out.len() >= 1
                &&& out[0] matches Outgoing::Wire(m) && exists|mid: ClientState|
                    #[trigger] crate::browser::session::committed(
                        st,
                        mid,
                        a,
                        pos,
                        m,
                        mid.turn->0.both_committed(),
                    ) && mid.turn->0.local_nonce == Some(nonce) && if mid.turn->0.both_committed() {
                        &&& out.len() == 2
                        &&& n.phase == OnlinePhase::WaitingPeerReveal
                        &&& n.session.state() == (ClientState {
                            turn: Some(TurnState { local_revealed: true, ..mid.turn->0 }),
                            ..mid
                        })
                        &&& out[1] matches Outgoing::Wire(WireMessage::Reveal { action, nonce: nn, board_hash })
                            && action@ == usi_action(a) && nn@ == hex_text(nonce.0@) && board_hash@
                            == hex_text(position_hash(pos))
                    } else {
                        &&& out.len() == 1
                        &&& n.phase == OnlinePhase::WaitingPeerCommit
                        &&& n.session.state() == mid
                    }
            }
        },
    }
}

impl OnlineGame {
    /// Commits our fixed action with `nonce` (see `committed_own`).
    pub fn commit_own(&mut self, nonce: Nonce) -> (out: Vec<Outgoing>)
        requires
            old(self).wf(),
        ensures
            final(self).wf(),
            committed_own(*old(self), *final(self), nonce, out@),
    {
        let mine = match self.side {
            Side::Sente => self.app.sente_action,
            Side::Gote => self.app.gote_action,
        };
        let action = match mine {
            Some(a) => a,
            None => {
                return Vec::new();
            },
        };
        let ghost o = *self;
        let pos = self.app.current_pos();
        let la = legal_actions(&pos, self.side);
        let nt = ja_notation(&action, self.side, la.as_slice(), &pos);
        self.app.phase = Phase::ResolveReady;
        self.app.message = concat(string_of_str("着手確定: "), nt.as_str());
        assert(lists_all_legal(la@, pos, self.side));
        let bh = board_hash(&pos);
        match self.session.commit(bh, action, nonce) {
            Ok(m) => {
                let ghost mid = self.session.state();
                let mut out: Vec<Outgoing> = Vec::new();
                out.push(Outgoing::Wire(m));
                self.phase = OnlinePhase::WaitingPeerCommit;
                if self.session.both_committed() {
                    if let Ok(r) = self.session.reveal_msg() {
                        out.push(Outgoing::Wire(r));
                        self.phase = OnlinePhase::WaitingPeerReveal;
                    }
                }
                assert(crate::browser::session::committed(
                    o.session.state(),
                    mid,
                    action,
                    pos,
                    m,
                    mid.turn->0.both_committed(),
                ));
                out
            },
            Err(e) => self.abort(with_text("commit エラー: ", &e)),
        }
    }

    /// Commits our fixed action with fresh random bytes.
    pub fn commit_own_random(&mut self) -> (out: Vec<Outgoing>)
        requires
            old(self).wf(),
        ensures
            final(self).wf(),
            own_action(old(self).app@, old(self).side) is None ==> unchanged(*old(self), *final(self))
                && out@.len() == 0,
            own_action(old(self).app@, old(self).side) is Some ==> {
                ||| exists|nonce: Nonce| #[trigger] committed_own(*old(self), *final(self), nonce, out@)
                ||| aborts_with(*old(self), *final(self), out@, random_failure())
            },
    {
        let has_action = match self.side {
            Side::Sente => self.app.sente_action.is_some(),
            Side::Gote => self.app.gote_action.is_some(),
        };
        if !has_action {
            return Vec::new();
        }
        match os_random_nonce() {
            Some(nonce) => self.commit_own(nonce),
            None => self.abort(string_of_str("乱数の取得に失敗しました")),
        }
    }
}

} // verus!
