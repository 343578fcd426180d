//! Keyboard and mouse handling as a function from the session state and an
//! event to the next state.

use crate::session::{App, Rect, SessionView, Tab};
use crate::text::{chars_of, is_blank, is_blank_chars, string_of, texts};
use vstd::prelude::*;

verus! {

/// The keys the session reacts to.
#[derive(Debug, Clone, Copy, PartialEq, Eq, Structural)]
pub enum KeyCode {
    Char(char),
    Esc,
    Tab,
    Up,
    Down,
    PageUp,
    PageDown,
    Left,
    Right,
    Backspace,
    Delete,
    Home,
    End,
    Enter,
    Other,
}

/// The modifier keys held with a key, as far as the session tells them
/// apart: none, exactly one of shift, control and super, or anything else.
#[derive(Debug, Clone, Copy, PartialEq, Eq, Structural)]
pub enum KeyModifiers {
    Plain,
    Shift,
    Control,
    Super,
    Other,
}

/// What the interface does after a key was handled.
#[derive(Debug)]
pub enum KeyResult {
    Continue,
    Quit,
    RunCommand(String),
}

/// What a [`KeyResult`] stands for.
pub enum KeyOutcome {
    Continue,
    Quit,
    Run(Seq<char>),
}

impl View for KeyResult {
    type V = KeyOutcome;

    open spec fn view(&self) -> KeyOutcome {
        match self {
            KeyResult::Continue => KeyOutcome::Continue,
            KeyResult::Quit => KeyOutcome::Quit,
            KeyResult::RunCommand(cmd) => KeyOutcome::Run(cmd@),
        }
    }
}

/// A mouse event, as far as the session tells them apart.
#[derive(Debug, Clone, Copy, PartialEq, Eq, Structural)]
pub enum MouseEventKind {
    Down,
    Other,
}

/// A mouse event at a screen cell.
#[derive(Debug, Clone, Copy, PartialEq, Eq, Structural)]
pub struct MouseEvent {
    pub kind: MouseEventKind,
    pub column: u16,
    pub row: u16,
}

/// Whether the cell `(x, y)` lies in `r`.
pub open spec fn in_rect(x: u16, y: u16, r: Rect) -> bool {
    r.x <= x && x < r.x + r.width && r.y <= y && y < r.y + r.height
}

/// Whether the cell `(x, y)` lies in the area, if there is one.
pub open spec fn in_area(x: u16, y: u16, area: Option<Rect>) -> bool {
    match area {
        Some(r) => in_rect(x, y, r),
        None => false,
    }
}

/// Whether the cell `(x, y)` lies in `r`.
pub fn point_in_rect(x: u16, y: u16, r: Rect) -> (b: bool)
    ensures
        b == in_rect(x, y, r),
{
    let right: u32 = r.x as u32 + r.width as u32;
    let bottom: u32 = r.y as u32 + r.height as u32;
    x >= r.x && (x as u32) < right && y >= r.y && (y as u32) < bottom
}

/// Whether output is shown in place of the suggestions.
pub open spec fn shows_output(s: SessionView) -> bool {
    s.is_running || s.output_lines.len() > 0
}

/// The text that Enter would run: the selected suggestion, or the input
/// where nothing is selected.
pub open spec fn command_to_run(s: SessionView) -> Seq<char> {
    if s.selected < s.visible.len() {
        s.visible[s.selected as int]
    } else {
        s.input
    }
}

/// The session after the input was edited to `input` with the cursor at
/// `cursor`: output is cleared and the edit is noted at `now`.
pub open spec fn edited(s: SessionView, input: Seq<char>, cursor: usize, now: u64) -> SessionView {
    SessionView { input, cursor, output_lines: Seq::empty(), output_scroll: 0, ..s }.marked(now)
}

/// `a - b`, or zero.
pub open spec fn minus(a: int, b: int) -> int {
    if a >= b {
        a - b
    } else {
        0
    }
}

/// The smaller of two numbers.
pub open spec fn least(a: int, b: int) -> int {
    if a <= b {
        a
    } else {
        b
    }
}

/// The session after a key on the main tab.
pub open spec fn main_key_step(s: SessionView, code: KeyCode, mods: KeyModifiers, now: u64) -> SessionView {
    let len = s.visible.len() as int;
    let chars = s.input.len() as int;
    match code {
        KeyCode::Up => SessionView { selected: minus(s.selected as int, 1) as usize, ..s },
        KeyCode::Down => if s.selected + 1 < len {
            SessionView { selected: (s.selected + 1) as usize, ..s }
        } else {
            s
        },
        KeyCode::PageUp => if shows_output(s) {
            SessionView { output_scroll: minus(s.output_scroll as int, 10) as u16, ..s }
        } else {
            SessionView { selected: minus(s.selected as int, 5) as usize, ..s }
        },
        KeyCode::PageDown => if shows_output(s) {
            SessionView { output_scroll: least(s.output_scroll + 10, u16::MAX as int) as u16, ..s }
        } else {
            SessionView { selected: least(s.selected + 5, minus(len, 1)) as usize, ..s }
        },
        KeyCode::Left => SessionView { cursor: minus(s.cursor as int, 1) as usize, ..s },
        KeyCode::Right => SessionView { cursor: least(s.cursor + 1, chars) as usize, ..s },
        KeyCode::Backspace => if s.cursor > 0 {
            edited(s, s.input.remove(s.cursor - 1), (s.cursor - 1) as usize, now)
        } else {
            s
        },
        KeyCode::Delete => if s.cursor < chars {
            edited(s, s.input.remove(s.cursor as int), s.cursor, now)
        } else {
            s
        },
        KeyCode::Home => SessionView { cursor: 0, ..s },
        KeyCode::End => SessionView { cursor: chars as usize, ..s },
        KeyCode::Char(c) => if c == 'a' && (mods == KeyModifiers::Control || mods
            == KeyModifiers::Super) {
            SessionView { cursor: chars as usize, ..s }
        } else if mods == KeyModifiers::Plain || mods == KeyModifiers::Shift {
            edited(s, s.input.insert(s.cursor as int, c), (s.cursor + 1) as usize, now)
        } else {
            s
        },
        KeyCode::Tab => if s.selected < len {
            SessionView {
                input: s.visible[s.selected as int],
                cursor: s.visible[s.selected as int].len() as usize,
                ..s
            }.marked(now)
        } else {
            s
        },
        _ => s,
    }
}

/// The session after a key on the history tab.
pub open spec fn history_key_step(s: SessionView, code: KeyCode) -> SessionView {
    match code {
        KeyCode::Up => SessionView {
            selected_history_index: if s.selected_history_index + 1 < s.history.len() {
                (s.selected_history_index + 1) as usize
            } else {
                s.selected_history_index
            },
            history_scroll: 0,
            ..s
        },
        KeyCode::Down => SessionView {
            selected_history_index: minus(s.selected_history_index as int, 1) as usize,
            history_scroll: 0,
            ..s
        },
        KeyCode::PageUp => SessionView {
            history_scroll: minus(s.history_scroll as int, 10) as u16,
            ..s
        },
        KeyCode::PageDown => SessionView {
            history_scroll: least(s.history_scroll + 10, u16::MAX as int) as u16,
            ..s
        },
        _ => s,
    }
}

/// Whether the key ends the session: Control-C or Escape.
pub open spec fn is_quit_key(code: KeyCode, mods: KeyModifiers) -> bool {
    (code == KeyCode::Char('c') && mods == KeyModifiers::Control) || code == KeyCode::Esc
}

/// The session after a key.
pub open spec fn key_step(s: SessionView, code: KeyCode, mods: KeyModifiers, now: u64) -> SessionView {
    if is_quit_key(code, mods) {
        s
    } else if code == KeyCode::Tab && mods == KeyModifiers::Control {
        SessionView {
            current_tab: if s.current_tab == Tab::Main {
                Tab::History
            } else {
                Tab::Main
            },
            ..s
        }
    } else if s.current_tab == Tab::Main {
        main_key_step(s, code, mods, now)
    } else {
        history_key_step(s, code)
    }
}

/// What the interface is to do after a key: leave on a quit key, run the
/// chosen command on Enter on the main tab unless it is blank, go on
/// otherwise.
pub open spec fn key_outcome(s: SessionView, code: KeyCode, mods: KeyModifiers) -> KeyOutcome {
    if is_quit_key(code, mods) {
        KeyOutcome::Quit
    } else if code == KeyCode::Enter && s.current_tab == Tab::Main && !is_blank(
        command_to_run(s),
    ) {
        KeyOutcome::Run(command_to_run(s))
    } else {
        KeyOutcome::Continue
    }
}

/// The session after a mouse event: a press on a tab switches to it, a
/// press on the recent-runs area pins or unpins the output.
pub open spec fn mouse_step(s: SessionView, mev: MouseEvent) -> SessionView {
    if mev.kind != MouseEventKind::Down {
        s
    } else if in_area(mev.column, mev.row, s.main_tab_area) {
        SessionView { current_tab: Tab::Main, ..s }
    } else if in_area(mev.column, mev.row, s.history_tab_area) {
        SessionView { current_tab: Tab::History, ..s }
    } else if in_area(mev.column, mev.row, s.recent_runs_area) {
        SessionView { pinned_output: !s.pinned_output, ..s }
    } else {
        s
    }
}

/// Keys and mouse events keep the session invariant: the selection stays
/// in the visible list and the cursor in the input.
pub proof fn lemma_events_keep_wf(
    s: SessionView,
    code: KeyCode,
    mods: KeyModifiers,
    now: u64,
    mev: MouseEvent,
)
    requires
        s.wf(),
    ensures
        key_step(s, code, mods, now).wf(),
        mouse_step(s, mev).wf(),
{
}

/// Replaces the input by `chars`, puts the cursor at `cursor`, clears the
/// output and notes the edit.
fn apply_edit(app: &mut App, chars: &Vec<char>, cursor: usize, now_ms: u64)
    ensures
        final(app)@ == edited(old(app)@, chars@, cursor, now_ms),
        final(app).ensemble == old(app).ensemble,
{
    app.input = string_of(chars);
    app.cursor = cursor;
    app.output_lines = Vec::new();
    app.output_scroll = 0;
    app.mark_input_changed(now_ms);
}

/// Handles a key pressed on the main tab.
fn handle_main_key(code: KeyCode, mods: KeyModifiers, app: &mut App, now_ms: u64)
    requires
        old(app)@.wf(),
    ensures
        final(app)@ == main_key_step(old(app)@, code, mods, now_ms),
        final(app).ensemble == old(app).ensemble,
        final(app)@.wf(),
{
    let len = app.suggestions.len();
    let mut chars = chars_of(app.input.as_str());
    let n = chars.len();
    match code {
        KeyCode::Up => {
            app.selected = if app.selected >= 1 {
                app.selected - 1
            } else {
                0
            };
        },
        KeyCode::Down => {
            if app.selected < len && app.selected + 1 < len {
                app.selected = app.selected + 1;
            }
        },
        KeyCode::PageUp => {
            if app.is_running || app.output_lines.len() > 0 {
                app.output_scroll = if app.output_scroll >= 10 {
                    app.output_scroll - 10
                } else {
                    0
                };
            } else {
                app.selected = if app.selected >= 5 {
                    app.selected - 5
                } else {
                    0
                };
            }
        },
        KeyCode::PageDown => {
            if app.is_running || app.output_lines.len() > 0 {
                app.output_scroll = if app.output_scroll <= u16::MAX - 10 {
                    app.output_scroll + 10
                } else {
                    u16::MAX
                };
            } else {
                let last: usize = if len == 0 {
                    0
                } else {
                    len - 1
                };
                app.selected = if last >= 5 && app.selected <= last - 5 {
                    app.selected + 5
                } else {
                    last
                };
            }
        },
        KeyCode::Left => {
            app.cursor = if app.cursor >= 1 {
                app.cursor - 1
            } else {
                0
            };
        },
        KeyCode::Right => {
            app.cursor = if app.cursor < n {
                app.cursor + 1
            } else {
                n
            };
        },
        KeyCode::Backspace => {
            if app.cursor > 0 {
                let at: usize = app.cursor - 1;
                chars.remove(at);
                apply_edit(app, &chars, at, now_ms);
            }
        },
        KeyCode::Delete => {
            if app.cursor < n {
                let at: usize = app.cursor;
                chars.remove(at);
                apply_edit(app, &chars, at, now_ms);
            }
        },
        KeyCode::Home => {
            app.cursor = 0;
        },
        KeyCode::End => {
            app.cursor = n;
        },
        KeyCode::Char(c) => {
            if c == 'a' && (mods == KeyModifiers::Control || mods == KeyModifiers::Super) {
                app.cursor = n;
            } else if mods == KeyModifiers::Plain || mods == KeyModifiers::Shift {
                let at: usize = app.cursor;
                chars.insert(at, c);
                assert(chars.len() == n + 1);
                apply_edit(app, &chars, at + 1, now_ms);
            }
        },
        KeyCode::Tab => {
            if app.selected < len {
                let chosen = app.suggestions[app.selected].clone();
                let chosen_chars = chars_of(chosen.as_str());
                assert(texts(app.suggestions@)[app.selected as int] == chosen@);
                app.input = chosen;
                app.cursor = chosen_chars.len();
                app.mark_input_changed(now_ms);
            }
        },
        _ => {},
    }
}

/// Handles a key pressed on the history tab.
fn handle_history_key(code: KeyCode, app: &mut App)
    requires
        old(app)@.wf(),
    ensures
        final(app)@ == history_key_step(old(app)@, code),
        final(app).ensemble == old(app).ensemble,
        final(app)@.wf(),
{
    match code {
        KeyCode::Up => {
            let count = app.history.len();
            if app.selected_history_index < count && app.selected_history_index + 1 < count {
                app.selected_history_index = app.selected_history_index + 1;
            }
            app.history_scroll = 0;
        },
        KeyCode::Down => {
            app.selected_history_index = if app.selected_history_index >= 1 {
                app.selected_history_index - 1
            } else {
                0
            };
            app.history_scroll = 0;
        },
        KeyCode::PageUp => {
            app.history_scroll = if app.history_scroll >= 10 {
                app.history_scroll - 10
            } else {
                0
            };
        },
        KeyCode::PageDown => {
            app.history_scroll = if app.history_scroll <= u16::MAX - 10 {
                app.history_scroll + 10
            } else {
                u16::MAX
            };
        },
        _ => {},
    }
}

/// Whether the key ends the session.
fn quits(code: KeyCode, mods: KeyModifiers) -> (b: bool)
    ensures
        b == is_quit_key(code, mods),
{
    match code {
        KeyCode::Esc => true,
        KeyCode::Char(c) => c == 'c' && mods == KeyModifiers::Control,
        _ => false,
    }
}

/// Handles one key: changes the session as the key asks and says what the
/// interface is to do next. Edits are noted at `now_ms`; no suggestion is
/// computed here.
pub fn handle_key(code: KeyCode, mods: KeyModifiers, app: &mut App, now_ms: u64) -> (result:
    KeyResult)
    requires
        old(app)@.wf(),
    ensures
        final(app)@ == key_step(old(app)@, code, mods, now_ms),
        result@ == key_outcome(old(app)@, code, mods),
        final(app).ensemble == old(app).ensemble,
        final(app)@.wf(),
{
    if quits(code, mods) {
        return KeyResult::Quit;
    }
    let on_main = app.current_tab == Tab::Main;
    if code == KeyCode::Tab && mods == KeyModifiers::Control {
        app.current_tab = if on_main {
            Tab::History
        } else {
            Tab::Main
        };
        return KeyResult::Continue;
    }
    if !on_main {
        handle_history_key(code, app);
        return KeyResult::Continue;
    }
    if code == KeyCode::Enter {
        let to_run = if app.selected < app.suggestions.len() {
            let chosen = app.suggestions[app.selected].clone();
            assert(texts(app.suggestions@)[app.selected as int] == chosen@);
            chosen
        } else {
            app.input.clone()
        };
        let run_chars = chars_of(to_run.as_str());
        if is_blank_chars(&run_chars) {
            return KeyResult::Continue;
        }
        return KeyResult::RunCommand(to_run);
    }
    handle_main_key(code, mods, app, now_ms);
    KeyResult::Continue
}

/// Handles one mouse event.
pub fn handle_mouse(mev: MouseEvent, app: &mut App)
    ensures
        final(app)@ == mouse_step(old(app)@, mev),
        final(app).ensemble == old(app).ensemble,
        old(app)@.wf() ==> final(app)@.wf(),
{
    if mev.kind != MouseEventKind::Down {
        return ;
    }
    if area_holds(mev.column, mev.row, app.main_tab_area) {
        app.current_tab = Tab::Main;
        return ;
    }
    if area_holds(mev.column, mev.row, app.history_tab_area) {
        app.current_tab = Tab::History;
        return ;
    }
    if area_holds(mev.column, mev.row, app.recent_runs_area) {
        app.pinned_output = !app.pinned_output;
    }
}

/// Whether the cell `(x, y)` lies in the area, if there is one.
fn area_holds(x: u16, y: u16, area: Option<Rect>) -> (b: bool)
    ensures
        b == in_area(x, y, area),
{
    match area {
        Some(r) => point_in_rect(x, y, r),
        None => false,
    }
}

} // verus!
