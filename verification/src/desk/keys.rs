//! Keys and mouse clicks on the desk: which operation each one performs.
//! Saving and loading touch files, so a key that asks for them returns the
//! path and the caller does the I/O.
use vstd::prelude::*;

use crate::board::slot_kind;
use crate::desk::state::{
    after_cancel_promotion, after_enter, after_escape, after_move_hand_cursor, after_promotion,
    after_resign, after_select_hand_direct, after_toggle_hand_focus, after_toggle_sfen, after_undo,
    after_board_press, clamp9, is_fresh, side_of, toggles_all_moves, App, AppView,
};
use crate::desk::{FocusArea, InputMode, Phase};
use crate::text::{chars_of, push_char, string_of, string_of_str, trim, trim_vec};
use crate::types::{Side, Square};

verus! {

/// A key, as the desk tells keys apart.
#[derive(Debug, Clone, Copy, PartialEq, Eq, Structural)]
pub enum Key {
    Char(char),
    Enter,
    Esc,
    Up,
    Down,
    Left,
    Right,
    Tab,
    Backspace,
    Other,
}

/// A key press: the key, and whether Control was held.
#[derive(Debug, Clone, Copy, PartialEq, Eq, Structural)]
pub struct KeyPress {
    pub code: Key,
    pub ctrl: bool,
}

/// What the caller does after a key: go on, quit, or save or load the record
/// at a path (then report back with `record_saved`, `record_save_failed`,
/// `load_text` or `record_load_failed`).
#[derive(Debug, Clone, PartialEq, Eq)]
pub enum KeyOutcome {
    Continue,
    Quit,
    Save(String),
    Load(String),
}

/// The effect of a key on the desk's view.
pub enum Step {
    /// The program ends; the desk is unchanged.
    Quit,
    /// The desk becomes this.
    Continue(AppView),
    /// The desk becomes this, and the record is to be saved at the path.
    Save(AppView, Seq<char>),
    /// The desk becomes this, and the record at the path is to be read.
    Load(AppView, Seq<char>),
    /// The list of legal actions is toggled (see `toggles_all_moves`).
    ListMoves,
    /// A new game starts on a fresh desk.
    NewGame,
}

/// The file that `s` and `l` save to and load from.
pub open spec fn default_path() -> Seq<char> {
    "shogi_game.kifu"@
}

/// A key while a path is typed: Enter hands over the trimmed path, Escape
/// cancels, Backspace deletes a character, a character is added.
pub open spec fn path_key_effect(v: AppView, k: KeyPress) -> Step {
    match k.code {
        Key::Enter => {
            let path = trim(v.input_buffer);
            match v.input_mode {
                InputMode::SavePath => Step::Save(
                    AppView { input_mode: InputMode::Normal, ..v },
                    path,
                ),
                InputMode::LoadPath => Step::Load(
                    AppView { input_mode: InputMode::Normal, ..v },
                    path,
                ),
                InputMode::Normal => Step::Continue(v),
            }
        },
        Key::Esc => Step::Continue(
            AppView {
                input_mode: InputMode::Normal,
                input_buffer: Seq::empty(),
                message: "キャンセルしました"@,
                ..v
            },
        ),
        Key::Backspace => Step::Continue(
            AppView {
                input_buffer: if v.input_buffer.len() > 0 {
                    v.input_buffer.drop_last()
                } else {
                    v.input_buffer
                },
                ..v
            },
        ),
        Key::Char(c) => Step::Continue(AppView { input_buffer: v.input_buffer.push(c), ..v }),
        _ => Step::Continue(v),
    }
}

/// A cursor key: on the board it moves the cursor by (`df`, `dr`), in the
/// hand it moves the hand cursor by `dh`.
pub open spec fn cursor_key(v: AppView, df: int, dr: int, dh: int) -> AppView {
    if v.focus == FocusArea::Board {
        AppView {
            cursor_file: clamp9(v.cursor_file + df) as u8,
            cursor_rank: clamp9(v.cursor_rank + dr) as u8,
            ..v
        }
    } else {
        after_move_hand_cursor(v, dh)
    }
}

/// The effect of a key press on the desk.
/// - While a path is typed, see `path_key_effect`.
/// - Control-C quits.
/// - After the game: `q` quits, `n` starts a new game, `u` takes back.
/// - On the promotion question: `y`, `p` or Enter promote, `n` does not,
///   Escape withdraws the question.
/// - Otherwise: `q` quits; Escape, Enter (or space), the cursor keys, Tab
///   (or `d`), `u`, `r`, `f`, `m`, `?` (or `h`) and `1` to `7` act on the
///   desk; `s` and `l` save and load the default file, `S` and `L` ask for a path.
pub open spec fn key_effect(v: AppView, k: KeyPress) -> Step {
    if v.input_mode != InputMode::Normal {
        path_key_effect(v, k)
    } else if k.code == Key::Char('c') && k.ctrl {
        Step::Quit
    } else {
        match v.phase {
            Phase::GameOver(_) => match k.code {
                Key::Char('q') | Key::Char('Q') => Step::Quit,
                Key::Char('n') | Key::Char('N') => Step::NewGame,
                Key::Char('u') | Key::Char('U') => Step::Continue(after_undo(v)),
                _ => Step::Continue(v),
            },
            Phase::PromotionChoice { .. } => match k.code {
                Key::Char('y') | Key::Char('p') | Key::Char('P') | Key::Enter => Step::Continue(
                    after_promotion(v, true),
                ),
                Key::Char('n') | Key::Char('N') => Step::Continue(after_promotion(v, false)),
                Key::Esc => Step::Continue(after_cancel_promotion(v)),
                _ => Step::Continue(v),
            },
            _ => match k.code {
                Key::Char('q') | Key::Char('Q') => Step::Quit,
                Key::Esc => Step::Continue(after_escape(v)),
                Key::Enter | Key::Char(' ') => Step::Continue(after_enter(v)),
                Key::Up => Step::Continue(cursor_key(v, 0, -1, -1)),
                Key::Down => Step::Continue(cursor_key(v, 0, 1, 1)),
                Key::Left => Step::Continue(cursor_key(v, 1, 0, -1)),
                Key::Right => Step::Continue(cursor_key(v, -1, 0, 1)),
                Key::Tab | Key::Char('d') | Key::Char('D') => Step::Continue(
                    after_toggle_hand_focus(v),
                ),
                Key::Char('u') | Key::Char('U') => Step::Continue(after_undo(v)),
                Key::Char('r') | Key::Char('R') => Step::Continue(after_resign(v)),
                Key::Char('s') => Step::Save(v, default_path()),
                Key::Char('S') => Step::Continue(
                    AppView { input_mode: InputMode::SavePath, input_buffer: Seq::empty(), ..v },
                ),
                Key::Char('l') => Step::Load(v, default_path()),
                Key::Char('L') => Step::Continue(
                    AppView { input_mode: InputMode::LoadPath, input_buffer: Seq::empty(), ..v },
                ),
                Key::Char('f') | Key::Char('F') => Step::Continue(after_toggle_sfen(v)),
                Key::Char('m') | Key::Char('M') => Step::ListMoves,
                Key::Char('?') | Key::Char('h') => Step::Continue(
                    AppView { show_help: !v.show_help, ..v },
                ),
                Key::Char(c) => if '1' <= c <= '7' {
                    Step::Continue(after_select_hand_direct(v, slot_kind(c as int - 49)))
                } else {
                    Step::Continue(v)
                },
                _ => Step::Continue(v),
            },
        }
    }
}

/// The key's outcome and the desk after it agree with `key_effect`.
pub open spec fn key_done(v: AppView, k: KeyPress, w: AppView, out: KeyOutcome) -> bool {
    match key_effect(v, k) {
        Step::Quit => out == KeyOutcome::Quit && w == v,
        Step::Continue(x) => out == KeyOutcome::Continue && w == x,
        Step::Save(x, p) => out matches KeyOutcome::Save(q) && q@ == p && w == x,
        Step::Load(x, p) => out matches KeyOutcome::Load(q) && q@ == p && w == x,
        Step::ListMoves => out == KeyOutcome::Continue && toggles_all_moves(v, w),
        Step::NewGame => out == KeyOutcome::Continue && is_fresh(w),
    }
}

fn handle_path_input(key: KeyPress, app: &mut App) -> (out: KeyOutcome)
    requires
        old(app).wf(),
        old(app).input_mode != InputMode::Normal,
    ensures
        key_done(old(app)@, key, final(app)@, out),
        final(app).wf(),
        final(app).click_areas == old(app).click_areas,
{
    match key.code {
        Key::Enter => {
            let v = chars_of(app.input_buffer.as_str());
            let t = trim_vec(&v);
            let path = string_of(&t);
            match app.input_mode {
                InputMode::SavePath => {
                    app.input_mode = InputMode::Normal;
                    KeyOutcome::Save(path)
                },
                InputMode::LoadPath => {
                    app.input_mode = InputMode::Normal;
                    KeyOutcome::Load(path)
                },
                InputMode::Normal => KeyOutcome::Continue,
            }
        },
        Key::Esc => {
            app.input_mode = InputMode::Normal;
            app.input_buffer = String::new();
            app.message = string_of_str("キャンセルしました");
            KeyOutcome::Continue
        },
        Key::Backspace => {
            let v = chars_of(app.input_buffer.as_str());
            if v.len() > 0 {
                let mut w: Vec<char> = Vec::new();
                let mut i: usize = 0;
                while i < v.len() - 1
                    invariant
                        0 < v@.len(),
                        i <= v@.len() - 1,
                        w@ == v@.take(i as int),
                    decreases v@.len() - i,
                {
                    w.push(v[i]);
                    assert(w@ =~= v@.take(i + 1));
                    i += 1;
                }
                app.input_buffer = string_of(&w);
                assert(w@ =~= v@.drop_last());
            }
            KeyOutcome::Continue
        },
        Key::Char(c) => {
            push_char(&mut app.input_buffer, c);
            KeyOutcome::Continue
        },
        _ => KeyOutcome::Continue,
    }
}

fn is_char(k: Key, c: char) -> (b: bool)
    ensures
        b == (k == Key::Char(c)),
{
    match k {
        Key::Char(x) => x == c,
        _ => false,
    }
}

/// Performs a key press on the desk (see `key_effect`).
pub fn handle_key(key: KeyPress, app: &mut App) -> (out: KeyOutcome)
    requires
        old(app).wf(),
    ensures
        key_done(old(app)@, key, final(app)@, out),
        final(app).wf(),
{
    if app.input_mode != InputMode::Normal {
        return handle_path_input(key, app);
    }
    if is_char(key.code, 'c') && key.ctrl {
        return KeyOutcome::Quit;
    }
    match app.phase {
        Phase::GameOver(_) => {
            return match key.code {
                Key::Char('q') | Key::Char('Q') => KeyOutcome::Quit,
                Key::Char('n') | Key::Char('N') => {
                    app.new_game();
                    KeyOutcome::Continue
                },
                Key::Char('u') | Key::Char('U') => {
                    app.undo();
                    KeyOutcome::Continue
                },
                _ => KeyOutcome::Continue,
            };
        },
        Phase::PromotionChoice { .. } => {
            match key.code {
                Key::Char('y') | Key::Char('p') | Key::Char('P') | Key::Enter => {
                    app.apply_promotion(true);
                },
                Key::Char('n') | Key::Char('N') => {
                    app.apply_promotion(false);
                },
                Key::Esc => {
                    app.cancel_promotion();
                },
                _ => {},
            }
            return KeyOutcome::Continue;
        },
        _ => {},
    }
    match key.code {
        Key::Char('q') | Key::Char('Q') => {
            return KeyOutcome::Quit;
        },
        Key::Esc => {
            app.on_escape();
        },
        Key::Enter | Key::Char(' ') => {
            app.on_enter();
        },
        Key::Up => {
            if app.focus == FocusArea::Board {
                app.move_cursor(0, -1);
            } else {
                app.move_hand_cursor(-1);
            }
        },
        Key::Down => {
            if app.focus == FocusArea::Board {
                app.move_cursor(0, 1);
            } else {
                app.move_hand_cursor(1);
            }
        },
        Key::Left => {
            if app.focus == FocusArea::Board {
                app.move_cursor(1, 0);
            } else {
                app.move_hand_cursor(-1);
            }
        },
        Key::Right => {
            if app.focus == FocusArea::Board {
                app.move_cursor(-1, 0);
            } else {
                app.move_hand_cursor(1);
            }
        },
        Key::Tab | Key::Char('d') | Key::Char('D') => {
            app.toggle_hand_focus();
        },
        Key::Char('u') | Key::Char('U') => {
            app.undo();
        },
        Key::Char('r') | Key::Char('R') => {
            app.resign();
        },
        Key::Char('s') => {
            return KeyOutcome::Save(string_of_str("shogi_game.kifu"));
        },
        Key::Char('S') => {
            app.input_mode = InputMode::SavePath;
            app.input_buffer = String::new();
        },
        Key::Char('l') => {
            return KeyOutcome::Load(string_of_str("shogi_game.kifu"));
        },
        Key::Char('L') => {
            app.input_mode = InputMode::LoadPath;
            app.input_buffer = String::new();
        },
        Key::Char('f') | Key::Char('F') => {
            app.toggle_sfen();
        },
        Key::Char('m') | Key::Char('M') => {
            app.toggle_all_moves();
        },
        Key::Char('?') | Key::Char('h') => {
            app.show_help = !app.show_help;
        },
        Key::Char(c) => {
            if '1' <= c && c <= '7' {
                let kinds = crate::board::Hand::kinds();
                let idx = (c as u32 - 49) as usize;
                app.select_hand_piece_direct(kinds[idx]);
            }
        },
        _ => {},
    }
    KeyOutcome::Continue
}

/// The effect of a left click at (`col`, `row`) on a terminal `term_h` rows
/// high: the hand rows toggle the hand of the camp entering; a board cell
/// moves the cursor there and presses it for the camp entering.
pub open spec fn click_effect(v: AppView, col: int, row: int, term_h: int) -> AppView {
    let main_h = if term_h > 5 {
        term_h - 5
    } else {
        0
    };
    let inner_h = if main_h > 2 {
        main_h - 2
    } else {
        0
    };
    if col < 1 || col >= 32 || row < 1 || row >= 1 + inner_h {
        v
    } else {
        let local_row = row - 1;
        if local_row == 0 {
            if side_of(v.phase) == Some(Side::Gote) {
                after_toggle_hand_focus(v)
            } else {
                v
            }
        } else if local_row == 11 {
            if side_of(v.phase) == Some(Side::Sente) {
                after_toggle_hand_focus(v)
            } else {
                v
            }
        } else if 2 <= local_row <= 10 {
            let rank = local_row - 1;
            let local_col = if col > 3 {
                col - 3
            } else {
                0
            };
            let cell = local_col / 3;
            if cell < 9 {
                let file = 9 - cell;
                let w = AppView { cursor_file: file as u8, cursor_rank: rank as u8, ..v };
                match side_of(v.phase) {
                    Some(side) => after_board_press(w, Square::spec_new(file, rank), side),
                    None => w,
                }
            } else {
                v
            }
        } else {
            v
        }
    }
}

fn click_cell(app: &mut App, file: u8, rank: u8)
    requires
        old(app).wf(),
        1 <= file <= 9,
        1 <= rank <= 9,
    ensures
        final(app)@ == ({
            let w = AppView { cursor_file: file, cursor_rank: rank, ..old(app)@ };
            match side_of(old(app)@.phase) {
                Some(side) => after_board_press(w, Square::spec_new(file as int, rank as int), side),
                None => w,
            }
        }),
        final(app).wf(),
        final(app).click_areas == old(app).click_areas,
{
    let sq = Square::new(file, rank);
    app.cursor_file = file;
    app.cursor_rank = rank;
    match app.current_side() {
        Some(side) => app.on_board_press(sq, side),
        None => {},
    }
}

fn click_hand_row(app: &mut App, side: Side)
    requires
        old(app).wf(),
    ensures
        final(app)@ == (if side_of(old(app)@.phase) == Some(side) {
            after_toggle_hand_focus(old(app)@)
        } else {
            old(app)@
        }),
        final(app).wf(),
        final(app).click_areas == old(app).click_areas,
{
    match app.current_side() {
        Some(s) => {
            if s == side {
                app.toggle_hand_focus();
            }
        },
        None => {},
    }
}

/// Performs a left click (see `click_effect`).
pub fn handle_click(col: u16, row: u16, term_h: u16, app: &mut App)
    requires
        old(app).wf(),
    ensures
        final(app)@ == click_effect(old(app)@, col as int, row as int, term_h as int),
        final(app).wf(),
        final(app).click_areas == old(app).click_areas,
{
    let main_h = term_h.saturating_sub(5);
    let inner_h = main_h.saturating_sub(2);
    if col < 1 || col >= 32 {
        return ;
    }
    if row < 1 || row >= 1 + inner_h {
        return ;
    }
    let local_row = row - 1;
    if local_row == 0 {
        click_hand_row(app, Side::Gote);
    } else if local_row == 11 {
        click_hand_row(app, Side::Sente);
    } else if 2 <= local_row && local_row <= 10 {
        let rank = (local_row - 1) as u8;
        let local_col = col.saturating_sub(3);
        let cell = local_col / 3;
        if cell < 9 {
            let file = 9u8 - cell as u8;
            click_cell(app, file, rank);
        }
    }
}

} // verus!
