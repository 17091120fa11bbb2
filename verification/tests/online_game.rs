use fukanzen_shogi::desk::{GameOverKind, Phase, WinReason};
use fukanzen_shogi::link::{DoSystemMsg, NetEvent};
use fukanzen_shogi::online::game::{hello_outcome, side_assignment, OnlineGame, Outgoing};
use fukanzen_shogi::online::OnlinePhase;
use fukanzen_shogi::protocol::client::{ClientSession, SessionError, SessionEvent};
use fukanzen_shogi::protocol::commit::Nonce;
use fukanzen_shogi::protocol::negotiate::{NegotiationOutcome, VersionTuple};
use fukanzen_shogi::protocol::session::ProtocolError;
use fukanzen_shogi::protocol::wire::WireMessage;
use fukanzen_shogi::types::{Action, Side};

fn usi(s: &str) -> Action {
    Action::from_usi(s).unwrap()
}

fn wires(out: Vec<Outgoing>) -> Vec<WireMessage> {
    out.into_iter()
        .filter_map(|o| match o {
            Outgoing::Wire(m) => Some(m),
            Outgoing::Spectate(_) => None,
        })
        .collect()
}

fn texts(out: &[Outgoing]) -> Vec<String> {
    out.iter()
        .filter_map(|o| match o {
            Outgoing::Spectate(t) => Some(t.clone()),
            Outgoing::Wire(_) => None,
        })
        .collect()
}

/// Two games whose sessions have exchanged hellos.
fn pair(broadcasting: bool) -> (OnlineGame, OnlineGame) {
    let mut a = ClientSession::new(Side::Sente, b"secret");
    let mut b = ClientSession::new(Side::Gote, b"secret");
    let ha = a.hello_msg();
    let hb = b.hello_msg();
    assert!(matches!(b.feed(ha), Ok(SessionEvent::HandshakeDone { peer_side: Side::Sente })));
    assert!(matches!(a.feed(hb), Ok(SessionEvent::HandshakeDone { peer_side: Side::Gote })));
    let (ga, _) = OnlineGame::start(Side::Sente, a, None, broadcasting, "0.8.0");
    let (gb, _) = OnlineGame::start(Side::Gote, b, None, false, "0.8.0");
    (ga, gb)
}

/// Plays one turn between the two games, sente committing first; returns
/// what sente's game sent at the end of the turn.
fn play_turn(a: &mut OnlineGame, b: &mut OnlineGame, sa: Action, gb: Action) -> Vec<Outgoing> {
    a.app.sente_action = Some(sa);
    b.app.gote_action = Some(gb);
    let ca = wires(a.commit_own(Nonce([1; 32])));
    assert_eq!(a.phase, OnlinePhase::WaitingPeerCommit);
    assert_eq!(ca.len(), 1);
    for m in ca {
        assert!(wires(b.on_message(m)).is_empty());
    }
    assert_eq!(b.app.message, "相手のコミット受信済み — 着手を入力してください");
    // The commitment of sente came first: gote reveals at once.
    let cb = wires(b.commit_own(Nonce([2; 32])));
    assert_eq!(cb.len(), 2);
    assert_eq!(b.phase, OnlinePhase::WaitingPeerReveal);
    let mut to_b = Vec::new();
    for m in cb {
        to_b.extend(wires(a.on_message(m)));
    }
    // Sente answered the commitment with its reveal, and the reveal with its ack.
    assert_eq!(to_b.len(), 2);
    let mut to_a = Vec::new();
    for m in to_b {
        to_a.extend(wires(b.on_message(m)));
    }
    let mut out_a = Vec::new();
    for m in to_a {
        out_a = a.on_message(m);
    }
    out_a
}

#[test]
fn handshake_outcomes() {
    assert_eq!(hello_outcome(&Ok(SessionEvent::HandshakeDone { peer_side: Side::Gote })), Ok(Side::Gote));
    assert_eq!(
        hello_outcome(&Err(SessionError::BadHex)),
        Err("ハンドシェイク失敗: BadHex".to_string())
    );
    assert_eq!(
        hello_outcome(&Ok(SessionEvent::PeerAcked)),
        Err("ハンドシェイク: 予期しない応答".to_string())
    );
    let o = NegotiationOutcome::Incompatible {
        mine: VersionTuple { rule: (0, 7), protocol: 3 },
        theirs: VersionTuple { rule: (0, 7), protocol: 2 },
        rule_mismatch: false,
        protocol_mismatch: true,
    };
    assert_eq!(
        hello_outcome(&Err(SessionError::VersionMismatch(o))),
        Err("版が異なるため対戦できません。プロトコル版: 自分 3 ≠ 相手 2".to_string())
    );
}

#[test]
fn side_assignment_outcomes() {
    assert_eq!(
        side_assignment(&NetEvent::System(DoSystemMsg::SideAssigned { side: Side::Gote })),
        Some(Ok(Side::Gote))
    );
    assert_eq!(
        side_assignment(&NetEvent::System(DoSystemMsg::RoomFull)),
        Some(Err("この部屋は満室です".to_string()))
    );
    assert_eq!(side_assignment(&NetEvent::Disconnected), Some(Err("接続が切断されました".to_string())));
    assert_eq!(side_assignment(&NetEvent::System(DoSystemMsg::PeerReconnected)), None);
    assert_eq!(side_assignment(&NetEvent::Message(WireMessage::Ack)), None);
}

#[test]
fn start_sets_up_the_desk() {
    let s = ClientSession::new(Side::Gote, b"k");
    let (g, out) = OnlineGame::start(Side::Gote, s, None, false, "1.0");
    assert!(out.is_empty());
    assert_eq!(g.phase, OnlinePhase::WaitingMyMove);
    assert_eq!(g.app.phase, Phase::GoteInput);
    assert_eq!(g.app.cursor_rank, 1);
    assert_eq!(g.app.message, "後手: 接続完了 — 着手を入力してください");

    let s = ClientSession::new(Side::Sente, b"k");
    let (g, out) = OnlineGame::start(Side::Sente, s, Some("版交渉失敗".to_string()), true, "1.0");
    assert_eq!(g.phase, OnlinePhase::Aborted("版交渉失敗".to_string()));
    assert_eq!(g.app.message, "版交渉失敗 — [q] でポータルへ戻る");
    assert_eq!(
        texts(&out),
        vec![r#"{"type":"spectate_meta","version":{"rule":"0.7","protocol":3,"app":"1.0"},"initial_sfen":"lnsgkgsnl/1r5b1/ppppppppp/9/9/9/PPPPPPPPP/1B5R1/LNSGKGSNL b - 1"}"#.to_string()]
    );
}

#[test]
fn a_turn_goes_through_both_games() {
    let (mut a, mut b) = pair(false);
    let out_a = play_turn(&mut a, &mut b, usi("7g7f"), usi("3c3d"));
    assert!(out_a.is_empty());
    assert_eq!(a.app.kifu.plies.len(), 1);
    assert_eq!(b.app.kifu.plies.len(), 1);
    assert_eq!(a.phase, OnlinePhase::WaitingMyMove);
    assert_eq!(b.phase, OnlinePhase::WaitingMyMove);
    assert_eq!(a.app.phase, Phase::SenteInput);
    assert_eq!(b.app.phase, Phase::GoteInput);
    assert_eq!(b.app.message, "次の着手を入力してください");
}

#[test]
fn broadcasting_side_sends_the_turn() {
    let (mut a, mut b) = pair(true);
    a.app.sente_action = Some(usi("7g7f"));
    b.app.gote_action = Some(usi("3c3d"));
    let ca = wires(a.commit_own(Nonce([1; 32])));
    for m in ca {
        b.on_message(m);
    }
    let cb = wires(b.commit_own(Nonce([2; 32])));
    let mut to_b = Vec::new();
    for m in cb {
        to_b.extend(wires(a.on_message(m)));
    }
    let mut to_a = Vec::new();
    for m in to_b {
        to_a.extend(wires(b.on_message(m)));
    }
    let mut spectated = Vec::new();
    for m in to_a {
        spectated.extend(texts(&a.on_message(m)));
    }
    assert_eq!(spectated, vec![r#"{"type":"spectate_turn","s":"7g7f","g":"3c3d"}"#.to_string()]);
}

#[test]
fn resignation_ends_the_game() {
    let (mut a, mut b) = pair(false);
    a.declare_resign();
    assert_eq!(a.app.sente_action, Some(Action::Resign));
    assert_eq!(a.app.message, "投了申告 — 相手の確定を待っています...");
    play_turn(&mut a, &mut b, Action::Resign, usi("3c3d"));
    assert_eq!(a.app.phase, Phase::GameOver(GameOverKind::GoteWins(WinReason::Resign)));
    assert_eq!(b.app.phase, Phase::GameOver(GameOverKind::GoteWins(WinReason::Resign)));
    assert!(a.resigned.is_some());
}

#[test]
fn illegal_reveal_stops_the_game() {
    let (mut a, mut b) = pair(false);
    // Gote claims a move from an empty square.
    let (_, _) = {
        a.app.sente_action = Some(usi("7g7f"));
        b.app.gote_action = Some(usi("5e5f"));
        let ca = wires(a.commit_own(Nonce([1; 32])));
        for m in ca {
            b.on_message(m);
        }
        let cb = wires(b.commit_own(Nonce([2; 32])));
        let mut to_b = Vec::new();
        for m in cb {
            to_b.extend(wires(a.on_message(m)));
        }
        let mut to_a = Vec::new();
        for m in to_b {
            to_a.extend(wires(b.on_message(m)));
        }
        let mut last = Vec::new();
        for m in to_a {
            last = wires(a.on_message(m));
        }
        (last, ())
    };
    // Gote's game stops first and tells sente's, which stops on its abort.
    assert_eq!(b.phase, OnlinePhase::Aborted("相手から非合法な着手を受信しました".to_string()));
    assert_eq!(
        a.phase,
        OnlinePhase::Aborted("相手がアボート: 相手から非合法な着手を受信しました".to_string())
    );
}

#[test]
fn react_failures() {
    let (mut a, _) = pair(false);
    let out = wires(a.react(Err(SessionError::Protocol(ProtocolError::CommitMismatch))));
    assert_eq!(
        out,
        vec![WireMessage::Abort { reason: "プロトコルエラー: Protocol(CommitMismatch)".to_string() }]
    );
    let (mut a, _) = pair(false);
    let out = wires(a.react(Err(SessionError::IdentityMismatch)));
    assert_eq!(out, vec![WireMessage::Abort { reason: "auth_mismatch".to_string() }]);
    let (mut a, _) = pair(false);
    let out = wires(a.react(Ok(SessionEvent::PeerCommitted { both_committed: true })));
    assert_eq!(out, vec![WireMessage::Abort { reason: "reveal 生成エラー: NoActiveTurn".to_string() }]);
    let (mut a, _) = pair(false);
    assert!(a.react(Ok(SessionEvent::PeerAborted { reason: "bye".to_string() })).is_empty());
    assert_eq!(a.phase, OnlinePhase::Aborted("相手がアボート: bye".to_string()));
}

#[test]
fn reconnection_requests() {
    let (mut a, b) = pair(false);
    let here = fukanzen_shogi::protocol::hash::board_hash(&a.app.current_pos());
    let out = wires(a.react(Ok(SessionEvent::PeerReconnectRequest { board_hash: here })));
    assert!(matches!(out.as_slice(), [WireMessage::ReconnectAck { .. }]));
    let nowhere = fukanzen_shogi::protocol::hash::BoardHash([7; 32]);
    let out = wires(a.react(Ok(SessionEvent::PeerReconnectRequest { board_hash: nowhere })));
    assert_eq!(out, vec![WireMessage::Abort { reason: "hash_mismatch".to_string() }]);
    drop(b);
}

#[test]
fn disconnection_and_resumption() {
    let (mut a, _) = pair(false);
    a.app.sente_action = Some(usi("7g7f"));
    a.commit_own(Nonce([3; 32]));
    assert!(a.on_disconnected());
    assert!(a.move_rolled_back);
    assert_eq!(a.phase, OnlinePhase::Disconnected);
    assert_eq!(a.app.message, "接続が切断されました — 再接続中...");
    assert!(!a.on_disconnected());

    let out = wires(a.on_system(DoSystemMsg::YouReconnected));
    assert!(matches!(out.as_slice(), [WireMessage::Reconnect { .. }]));
    assert_eq!(a.phase, OnlinePhase::WaitingMyMove);
    assert_eq!(a.app.sente_action, None);
    assert_eq!(a.app.phase, Phase::SenteInput);
    assert!(!a.move_rolled_back);
    assert_eq!(a.app.message, "着手をキャンセルしました — 再度入力してください");

    assert!(a.on_reconnect(Ok(true)).is_empty());
    assert_eq!(a.app.message, "再接続しました — 相手との再開を待っています...");
    assert!(a.on_reconnect(Err("timeout".to_string())).is_empty());
    assert_eq!(a.phase, OnlinePhase::Aborted("再接続失敗: timeout".to_string()));
    assert_eq!(a.app.message, "再接続失敗: timeout [q]終了");
}

#[test]
fn room_messages() {
    let (mut a, _) = pair(false);
    a.on_system(DoSystemMsg::PeerDisconnected);
    assert_eq!(a.app.message, "相手が切断しました。再接続を待っています…");
    a.on_system(DoSystemMsg::PeerReconnected);
    assert_eq!(a.app.message, "相手が再接続しました。");
    a.on_system(DoSystemMsg::RoomFull);
    assert_eq!(a.phase, OnlinePhase::Aborted("この部屋は満室です".to_string()));
}

#[test]
fn commit_before_handshake_stops_the_game() {
    let s = ClientSession::new(Side::Sente, b"k");
    let (mut g, _) = OnlineGame::start(Side::Sente, s, None, false, "1.0");
    g.app.sente_action = Some(usi("7g7f"));
    let out = wires(g.commit_own(Nonce([0; 32])));
    assert_eq!(out, vec![WireMessage::Abort { reason: "commit エラー: HandshakeNotDone".to_string() }]);
    assert_eq!(g.app.message, "着手確定: ７六歩");
    assert_eq!(g.app.phase, Phase::ResolveReady);
}
