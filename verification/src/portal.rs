//! The start menu: the local desk or an online game, and the form that takes
//! the address (or port) and the shared secret. This module holds the keys'
//! effects and the texts of the fields; drawing is the caller's.
use vstd::prelude::*;
use vstd::utf8::encode_utf8;

use crate::desk::keys::{Key, KeyPress};
use crate::desk::state::Area;
use crate::link::{config_view, submit_result, try_submit, PortalResult};
use crate::text::{chars_of, push_char, push_str, string_of};

verus! {

/// The screen of the start menu.
#[derive(Debug, Clone)]
pub enum Screen {
    /// The menu, with the highlighted entry.
    Menu { selected: usize },
    /// The form of an online game: waiting on a port (`listen`) or connecting
    /// to an address; the field with the focus (0: address or port, 1: secret).
    OnlineForm {
        listen: bool,
        addr_or_port: String,
        secret: String,
        focused: usize,
        error: Option<String>,
    },
}

/// The screen as values.
pub enum ScreenView {
    Menu { selected: usize },
    OnlineForm {
        listen: bool,
        addr_or_port: Seq<char>,
        secret: Seq<char>,
        focused: usize,
        error: Option<Seq<char>>,
    },
}

impl View for Screen {
    type V = ScreenView;

    open spec fn view(&self) -> ScreenView {
        match self {
            Screen::Menu { selected } => ScreenView::Menu { selected: *selected },
            Screen::OnlineForm { listen, addr_or_port, secret, focused, error } => ScreenView::OnlineForm {
                listen: *listen,
                addr_or_port: addr_or_port@,
                secret: secret@,
                focused: *focused,
                error: match error {
                    Some(e) => Some(e@),
                    None => None,
                },
            },
        }
    }
}

/// The number of entries of the menu.
pub const MENU_LEN: usize = 4;

/// The label of menu entry `i`.
pub open spec fn menu_label_text(i: int) -> Seq<char> {
    if i == 0 {
        "ローカル検証卓"@
    } else if i == 1 {
        "通信対戦（先手・待ち受け）"@
    } else if i == 2 {
        "通信対戦（後手・接続）"@
    } else {
        "終了"@
    }
}

/// The label of menu entry `i` (see `menu_label_text`).
pub fn menu_label(i: usize) -> (s: &'static str)
    requires
        i < MENU_LEN,
    ensures
        s@ == menu_label_text(i as int),
{
    if i == 0 {
        "ローカル検証卓"
    } else if i == 1 {
        "通信対戦（先手・待ち受け）"
    } else if i == 2 {
        "通信対戦（後手・接続）"
    } else {
        "終了"
    }
}

/// A screen that can be shown: the menu highlights one of its entries, the
/// form focuses one of its two fields.
pub open spec fn screen_wf(s: ScreenView) -> bool {
    match s {
        ScreenView::Menu { selected } => selected < MENU_LEN,
        ScreenView::OnlineForm { focused, .. } => focused <= 1,
    }
}

/// An empty form.
pub open spec fn fresh_form(listen: bool) -> ScreenView {
    ScreenView::OnlineForm {
        listen,
        addr_or_port: Seq::empty(),
        secret: Seq::empty(),
        focused: 0,
        error: None,
    }
}

/// A choice on the start menu, as values.
pub enum ChoiceView {
    Desk,
    Quit,
    Online(crate::link::ConfigView),
}

/// What a key does on the start menu: the next screen, and the choice when
/// one is made (`Some`). Control-C quits everywhere.
/// - On the menu: up and down move the highlight within the entries; Enter or
///   space picks the entry (the desk, a form to wait on a port, a form to
///   connect, or quitting); `q` quits.
/// - On the form: Escape goes back to the menu; Tab, up and down move the
///   focus; Backspace deletes the last character of the focused field and
///   Enter on the first field moves to the second; a character is added to
///   the focused field (either clears the error). Enter on the second field
///   submits the form (see `submit_result`): an error is shown with the
///   focus back on the first field.
pub open spec fn portal_effect(s: ScreenView, k: KeyPress) -> (ScreenView, Option<ChoiceView>) {
    if k.ctrl && k.code == Key::Char('c') {
        (s, Some(ChoiceView::Quit))
    } else {
        match s {
            ScreenView::Menu { selected } => match k.code {
                Key::Up => (
                    ScreenView::Menu { selected: if selected > 0 { (selected - 1) as usize } else { selected } },
                    None,
                ),
                Key::Down => (
                    ScreenView::Menu {
                        selected: if selected < MENU_LEN - 1 { (selected + 1) as usize } else { selected },
                    },
                    None,
                ),
                Key::Enter | Key::Char(' ') => if selected == 0 {
                    (s, Some(ChoiceView::Desk))
                } else if selected == 1 {
                    (fresh_form(true), None)
                } else if selected == 2 {
                    (fresh_form(false), None)
                } else {
                    (s, Some(ChoiceView::Quit))
                },
                Key::Char('q') | Key::Char('Q') => (s, Some(ChoiceView::Quit)),
                _ => (s, None),
            },
            ScreenView::OnlineForm { listen, addr_or_port, secret, focused, error } => match k.code {
                Key::Esc => (ScreenView::Menu { selected: 0 }, None),
                Key::Tab | Key::Down | Key::Up => (
                    ScreenView::OnlineForm { listen, addr_or_port, secret, focused: (1 - focused) as usize, error },
                    None,
                ),
                Key::Backspace => (
                    if focused == 0 {
                        ScreenView::OnlineForm {
                            listen,
                            addr_or_port: if addr_or_port.len() > 0 { addr_or_port.drop_last() } else { addr_or_port },
                            secret,
                            focused,
                            error: None,
                        }
                    } else {
                        ScreenView::OnlineForm {
                            listen,
                            addr_or_port,
                            secret: if secret.len() > 0 { secret.drop_last() } else { secret },
                            focused,
                            error: None,
                        }
                    },
                    None,
                ),
                Key::Enter => if focused == 0 {
                    (ScreenView::OnlineForm { listen, addr_or_port, secret, focused: 1, error }, None)
                } else {
                    match submit_result(listen, addr_or_port, secret) {
                        Ok(c) => (s, Some(ChoiceView::Online(c))),
                        Err(m) => (
                            ScreenView::OnlineForm { listen, addr_or_port, secret, focused: 0, error: Some(m) },
                            None,
                        ),
                    }
                },
                Key::Char(c) => (
                    if focused == 0 {
                        ScreenView::OnlineForm {
                            listen,
                            addr_or_port: addr_or_port.push(c),
                            secret,
                            focused,
                            error: None,
                        }
                    } else {
                        ScreenView::OnlineForm {
                            listen,
                            addr_or_port,
                            secret: secret.push(c),
                            focused,
                            error: None,
                        }
                    },
                    None,
                ),
                _ => (s, None),
            },
        }
    }
}

/// The choice made is the one that the effect describes.
pub open spec fn choice_matches(r: Option<PortalResult>, s: ScreenView, k: KeyPress) -> bool {
    match portal_effect(s, k).1 {
        None => r is None,
        Some(ChoiceView::Desk) => r matches Some(PortalResult::Local),
        Some(ChoiceView::Quit) => r matches Some(PortalResult::Quit),
        Some(ChoiceView::Online(c)) => r matches Some(PortalResult::Online(config)) && config_view(config) == c,
    }
}

fn without_last(s: &String) -> (r: String)
    ensures
        r@ == (if s@.len() > 0 {
            s@.drop_last()
        } else {
            s@
        }),
{
    let v = chars_of(s.as_str());
    if v.len() == 0 {
        return String::new();
    }
    let w = crate::text::sub_vec(&v, 0, v.len() - 1);
    assert(w@ =~= v@.drop_last());
    string_of(&w)
}

/// Applies a key to the start menu (see `portal_effect` and `choice_matches`).
pub fn portal_step(screen: &mut Screen, key: KeyPress) -> (r: Option<PortalResult>)
    requires
        screen_wf(old(screen)@),
    ensures
        screen_wf(final(screen)@),
        final(screen)@ == portal_effect(old(screen)@, key).0,
        choice_matches(r, old(screen)@, key),
{
    if key.ctrl && key.code == Key::Char('c') {
        return Some(PortalResult::Quit);
    }
    let mut next: Option<Screen> = None;
    let mut result: Option<PortalResult> = None;
    match screen {
        Screen::Menu { selected } => match key.code {
            Key::Up => {
                if *selected > 0 {
                    *selected -= 1;
                }
            },
            Key::Down => {
                if *selected < MENU_LEN - 1 {
                    *selected += 1;
                }
            },
            Key::Enter | Key::Char(' ') => {
                if *selected == 0 {
                    result = Some(PortalResult::Local);
                } else if *selected == 1 {
                    next = Some(
                        Screen::OnlineForm {
                            listen: true,
                            addr_or_port: String::new(),
                            secret: String::new(),
                            focused: 0,
                            error: None,
                        },
                    );
                } else if *selected == 2 {
                    next = Some(
                        Screen::OnlineForm {
                            listen: false,
                            addr_or_port: String::new(),
                            secret: String::new(),
                            focused: 0,
                            error: None,
                        },
                    );
                } else {
                    result = Some(PortalResult::Quit);
                }
            },
            Key::Char('q') | Key::Char('Q') => {
                result = Some(PortalResult::Quit);
            },
            _ => {},
        },
        Screen::OnlineForm { listen, addr_or_port, secret, focused, error } => match key.code {
            Key::Esc => {
                next = Some(Screen::Menu { selected: 0 });
            },
            Key::Tab | Key::Down | Key::Up => {
                *focused = 1 - *focused;
            },
            Key::Backspace => {
                if *focused == 0 {
                    *addr_or_port = without_last(addr_or_port);
                } else {
                    *secret = without_last(secret);
                }
                *error = None;
            },
            Key::Enter => {
                if *focused == 0 {
                    *focused = 1;
                } else {
                    match try_submit(*listen, addr_or_port.as_str(), secret.as_str()) {
                        Ok(config) => {
                            result = Some(PortalResult::Online(config));
                        },
                        Err(msg) => {
                            *error = Some(msg);
                            *focused = 0;
                        },
                    }
                }
            },
            Key::Char(c) => {
                if *focused == 0 {
                    push_char(addr_or_port, c);
                } else {
                    push_char(secret, c);
                }
                *error = None;
            },
            _ => {},
        },
    }
    if let Some(s) = next {
        *screen = s;
    }
    result
}

/// The text of an input field: the value in brackets, with a cursor mark
/// when the field has the focus.
pub open spec fn input_text(value: Seq<char>, active: bool) -> Seq<char> {
    seq!['['] + value + (if active {
        seq!['▌', ']']
    } else {
        seq![']']
    })
}

/// The text of an input field (see `input_text`).
pub fn input_display(value: &str, active: bool) -> (s: String)
    ensures
        s@ == input_text(value@, active),
{
    let mut s = String::new();
    push_char(&mut s, '[');
    push_str(&mut s, value);
    if active {
        push_char(&mut s, '▌');
    }
    push_char(&mut s, ']');
    assert(s@ =~= input_text(value@, active));
    s
}

/// The secret as shown: one `*` for each byte of its UTF-8 text.
pub fn masked(secret: &str) -> (s: String)
    ensures
        s@.len() == encode_utf8(secret@).len(),
        forall|i: int| 0 <= i < s@.len() ==> s@[i] == '*',
{
    let n = secret.as_bytes().len();
    let mut s = String::new();
    let mut i: usize = 0;
    while i < n
        invariant
            i <= n,
            n == encode_utf8(secret@).len(),
            s@.len() == i,
            forall|j: int| 0 <= j < s@.len() ==> s@[j] == '*',
        decreases n - i,
    {
        push_char(&mut s, '*');
        i += 1;
    }
    s
}

/// `w` by `h` cells in the middle of `area`, cut to fit it.
pub open spec fn centered(w: u16, h: u16, area: Area) -> Area {
    Area {
        x: (area.x + (if area.width >= w { area.width - w } else { 0 }) / 2) as u16,
        y: (area.y + (if area.height >= h { area.height - h } else { 0 }) / 2) as u16,
        width: if w <= area.width { w } else { area.width },
        height: if h <= area.height { h } else { area.height },
    }
}

/// A rectangle of `w` by `h` cells in the middle of `area` (see `centered`).
pub fn centered_rect(w: u16, h: u16, area: Area) -> (r: Area)
    requires
        area.x + area.width <= u16::MAX,
        area.y + area.height <= u16::MAX,
    ensures
        r == centered(w, h, area),
{
    let x = area.x + area.width.saturating_sub(w) / 2;
    let y = area.y + area.height.saturating_sub(h) / 2;
    Area {
        x,
        y,
        width: if w <= area.width { w } else { area.width },
        height: if h <= area.height { h } else { area.height },
    }
}

} // verus!
