use fukanzen_shogi::desk::keys::{Key, KeyPress};
use fukanzen_shogi::desk::state::Area;
use fukanzen_shogi::link::{ConnectMode, PortalResult};
use fukanzen_shogi::portal::{
    centered_rect, input_display, masked, menu_label, portal_step, Screen, MENU_LEN,
};
use fukanzen_shogi::types::Side;

fn key(code: Key) -> KeyPress {
    KeyPress { code, ctrl: false }
}

fn type_text(s: &mut Screen, text: &str) {
    for c in text.chars() {
        assert!(portal_step(s, key(Key::Char(c))).is_none());
    }
}

fn form_fields(s: &Screen) -> (String, String, usize, Option<String>) {
    match s {
        Screen::OnlineForm { addr_or_port, secret, focused, error, .. } => {
            (addr_or_port.clone(), secret.clone(), *focused, error.clone())
        }
        Screen::Menu { .. } => panic!("not the form"),
    }
}

#[test]
fn menu_moves_within_its_entries() {
    let mut s = Screen::Menu { selected: 0 };
    assert!(portal_step(&mut s, key(Key::Up)).is_none());
    assert!(matches!(s, Screen::Menu { selected: 0 }));
    for _ in 0..10 {
        portal_step(&mut s, key(Key::Down));
    }
    assert!(matches!(s, Screen::Menu { selected: 3 }));
    assert!(matches!(portal_step(&mut s, key(Key::Enter)), Some(PortalResult::Quit)));
    assert_eq!(MENU_LEN, 4);
    assert_eq!(menu_label(0), "ローカル検証卓");
    assert_eq!(menu_label(3), "終了");
}

#[test]
fn menu_picks() {
    let mut s = Screen::Menu { selected: 0 };
    assert!(matches!(portal_step(&mut s, key(Key::Char(' '))), Some(PortalResult::Local)));
    let mut s = Screen::Menu { selected: 1 };
    assert!(portal_step(&mut s, key(Key::Enter)).is_none());
    assert!(matches!(s, Screen::OnlineForm { listen: true, focused: 0, .. }));
    let mut s = Screen::Menu { selected: 2 };
    assert!(portal_step(&mut s, key(Key::Enter)).is_none());
    assert!(matches!(s, Screen::OnlineForm { listen: false, .. }));
    let mut s = Screen::Menu { selected: 1 };
    assert!(matches!(portal_step(&mut s, key(Key::Char('q'))), Some(PortalResult::Quit)));
    let mut s = Screen::Menu { selected: 1 };
    assert!(matches!(
        portal_step(&mut s, KeyPress { code: Key::Char('c'), ctrl: true }),
        Some(PortalResult::Quit)
    ));
}

#[test]
fn listen_form_submits_a_port() {
    let mut s = Screen::Menu { selected: 1 };
    portal_step(&mut s, key(Key::Enter));
    type_text(&mut s, "87x");
    portal_step(&mut s, key(Key::Backspace));
    type_text(&mut s, "65");
    portal_step(&mut s, key(Key::Enter));
    type_text(&mut s, "pw");
    let (addr, secret, focused, error) = form_fields(&s);
    assert_eq!((addr.as_str(), secret.as_str(), focused, error), ("8765", "pw", 1, None));
    match portal_step(&mut s, key(Key::Enter)) {
        Some(PortalResult::Online(c)) => {
            assert!(matches!(c.mode, ConnectMode::Listen(8765)));
            assert_eq!(c.local_side, Side::Sente);
            assert_eq!(c.secret, b"pw".to_vec());
        }
        _ => panic!("no configuration"),
    }
}

#[test]
fn connect_form_refuses_an_empty_address() {
    let mut s = Screen::Menu { selected: 2 };
    portal_step(&mut s, key(Key::Enter));
    portal_step(&mut s, key(Key::Tab));
    type_text(&mut s, "k");
    assert!(portal_step(&mut s, key(Key::Enter)).is_none());
    let (_, _, focused, error) = form_fields(&s);
    assert_eq!(focused, 0);
    assert_eq!(error.as_deref(), Some("接続先アドレスを入力してください (例: 192.168.1.10:8765)"));
    type_text(&mut s, " 10.0.0.2:9000 ");
    let (_, _, _, error) = form_fields(&s);
    assert_eq!(error, None);
    portal_step(&mut s, key(Key::Down));
    match portal_step(&mut s, key(Key::Enter)) {
        Some(PortalResult::Online(c)) => {
            assert!(matches!(c.mode, ConnectMode::Connect(ref a) if a == "10.0.0.2:9000"));
            assert_eq!(c.local_side, Side::Gote);
        }
        _ => panic!("no configuration"),
    }
    portal_step(&mut s, key(Key::Esc));
    assert!(matches!(s, Screen::Menu { selected: 0 }));
}

#[test]
fn listen_form_refuses_a_bad_port() {
    let mut s = Screen::Menu { selected: 1 };
    portal_step(&mut s, key(Key::Enter));
    type_text(&mut s, "99999");
    portal_step(&mut s, key(Key::Enter));
    assert!(portal_step(&mut s, key(Key::Enter)).is_none());
    let (_, _, _, error) = form_fields(&s);
    assert_eq!(error.as_deref(), Some("ポート番号は 1〜65535 の整数で入力してください"));
}

#[test]
fn field_texts() {
    assert_eq!(input_display("abc", true), "[abc▌]");
    assert_eq!(input_display("abc", false), "[abc]");
    assert_eq!(masked("pw"), "**");
    assert_eq!(masked("秘"), "***");
}

#[test]
fn centered_rectangles() {
    let area = Area { x: 0, y: 0, width: 100, height: 40 };
    assert_eq!(centered_rect(46, 12, area), Area { x: 27, y: 14, width: 46, height: 12 });
    let small = Area { x: 2, y: 3, width: 10, height: 5 };
    assert_eq!(centered_rect(46, 12, small), Area { x: 2, y: 3, width: 10, height: 5 });
}
