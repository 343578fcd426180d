use ghosttype::display::{
    char_width, cursor_byte_offset, cursor_cell, cursor_line_col, format_command_lines_for_display, history_pane, history_rows,
    input_lines_with_cursor, lines_from_display_text, normalized_command_for_display,
    output_pane, suggestion_rows, tab_areas,
};
use ghosttype::ensemble::Ensemble;
use ghosttype::keys::{
    handle_key, handle_mouse, point_in_rect, KeyCode, KeyModifiers, KeyResult, MouseEvent,
    MouseEventKind,
};
use ghosttype::session::{startup_plan, App, HistoryEntry, Rect, StartupPlan, Tab};

fn app() -> App {
    let history = vec![
        HistoryEntry { cmd: "one".to_string(), output_lines: Vec::new() },
        HistoryEntry { cmd: "two".to_string(), output_lines: Vec::new() },
    ];
    let mut app = App::new(Vec::new(), 5, history, Ensemble::new(vec![], vec![]));
    app.suggestions = vec!["git status".to_string(), "git stash".to_string(), "go".to_string()];
    app
}

fn press(app: &mut App, code: KeyCode) -> KeyResult {
    handle_key(code, KeyModifiers::Plain, app, 1_000)
}

#[test]
fn typing_edits_the_input_and_marks_it_changed() {
    let mut app = app();
    app.output_lines = vec!["old".to_string()];
    app.output_scroll = 4;
    assert!(matches!(press(&mut app, KeyCode::Char('g')), KeyResult::Continue));
    assert!(matches!(handle_key(KeyCode::Char('É'), KeyModifiers::Shift, &mut app, 1_050), KeyResult::Continue));
    assert_eq!(app.input, "gÉ");
    assert_eq!(app.cursor, 2);
    assert!(app.output_lines.is_empty());
    assert_eq!(app.output_scroll, 0);
    assert!(app.pending_refresh);
    assert_eq!(app.last_input_time, Some(1_050));
    press(&mut app, KeyCode::Left);
    press(&mut app, KeyCode::Char('x'));
    assert_eq!(app.input, "gxÉ");
    assert_eq!(app.cursor, 2);
    press(&mut app, KeyCode::Backspace);
    assert_eq!(app.input, "gÉ");
    assert_eq!(app.cursor, 1);
    press(&mut app, KeyCode::Delete);
    assert_eq!(app.input, "g");
    press(&mut app, KeyCode::Delete);
    assert_eq!(app.input, "g");
    press(&mut app, KeyCode::Home);
    assert_eq!(app.cursor, 0);
    press(&mut app, KeyCode::Backspace);
    assert_eq!(app.input, "g");
    press(&mut app, KeyCode::Left);
    assert_eq!(app.cursor, 0);
    press(&mut app, KeyCode::End);
    assert_eq!(app.cursor, 1);
    press(&mut app, KeyCode::Right);
    assert_eq!(app.cursor, 1);
    handle_key(KeyCode::Char('x'), KeyModifiers::Other, &mut app, 2_000);
    assert_eq!(app.input, "g");
    press(&mut app, KeyCode::Home);
    handle_key(KeyCode::Char('a'), KeyModifiers::Control, &mut app, 2_000);
    assert_eq!(app.cursor, 1);
}

#[test]
fn quit_keys_leave() {
    let mut app = app();
    assert!(matches!(handle_key(KeyCode::Char('c'), KeyModifiers::Control, &mut app, 0), KeyResult::Quit));
    assert!(matches!(handle_key(KeyCode::Esc, KeyModifiers::Shift, &mut app, 0), KeyResult::Quit));
    app.current_tab = Tab::History;
    assert!(matches!(press(&mut app, KeyCode::Esc), KeyResult::Quit));
    assert!(app.input.is_empty());
    assert!(!app.pending_refresh);
}

#[test]
fn selection_moves_within_the_list() {
    let mut app = app();
    press(&mut app, KeyCode::Up);
    assert_eq!(app.selected, 0);
    press(&mut app, KeyCode::Down);
    press(&mut app, KeyCode::Down);
    press(&mut app, KeyCode::Down);
    assert_eq!(app.selected, 2);
    press(&mut app, KeyCode::PageUp);
    assert_eq!(app.selected, 0);
    press(&mut app, KeyCode::PageDown);
    assert_eq!(app.selected, 2);
    app.output_lines = vec!["x".to_string()];
    press(&mut app, KeyCode::PageDown);
    assert_eq!(app.output_scroll, 10);
    app.output_scroll = u16::MAX - 3;
    press(&mut app, KeyCode::PageDown);
    assert_eq!(app.output_scroll, u16::MAX);
    app.output_scroll = 4;
    press(&mut app, KeyCode::PageUp);
    assert_eq!(app.output_scroll, 0);
    assert_eq!(app.selected, 2);
}

#[test]
fn tab_accepts_and_enter_runs() {
    let mut app = app();
    app.selected = 1;
    assert!(matches!(press(&mut app, KeyCode::Enter), KeyResult::RunCommand(cmd) if cmd == "git stash"));
    assert!(matches!(press(&mut app, KeyCode::Tab), KeyResult::Continue));
    assert_eq!(app.input, "git stash");
    assert_eq!(app.cursor, 9);
    assert!(app.pending_refresh);
    app.suggestions.clear();
    app.selected = 0;
    assert!(matches!(press(&mut app, KeyCode::Enter), KeyResult::RunCommand(cmd) if cmd == "git stash"));
    app.input = "  ".to_string();
    app.cursor = 2;
    assert!(matches!(press(&mut app, KeyCode::Enter), KeyResult::Continue));
    assert!(matches!(press(&mut app, KeyCode::Tab), KeyResult::Continue));
    assert_eq!(app.input, "  ");
}

#[test]
fn history_tab_has_its_own_keys() {
    let mut app = app();
    handle_key(KeyCode::Tab, KeyModifiers::Control, &mut app, 0);
    assert_eq!(app.current_tab, Tab::History);
    app.history_scroll = 7;
    press(&mut app, KeyCode::Up);
    assert_eq!(app.selected_history_index, 1);
    assert_eq!(app.history_scroll, 0);
    press(&mut app, KeyCode::Up);
    assert_eq!(app.selected_history_index, 1);
    press(&mut app, KeyCode::PageDown);
    assert_eq!(app.history_scroll, 10);
    press(&mut app, KeyCode::PageUp);
    assert_eq!(app.history_scroll, 0);
    press(&mut app, KeyCode::Down);
    press(&mut app, KeyCode::Down);
    assert_eq!(app.selected_history_index, 0);
    assert!(matches!(press(&mut app, KeyCode::Char('x')), KeyResult::Continue));
    assert!(matches!(press(&mut app, KeyCode::Enter), KeyResult::Continue));
    assert!(app.input.is_empty());
    handle_key(KeyCode::Tab, KeyModifiers::Control, &mut app, 0);
    assert_eq!(app.current_tab, Tab::Main);
}

#[test]
fn mouse_presses_switch_tabs_and_pin_output() {
    let mut app = app();
    let area = Rect { x: 0, y: 0, width: 80, height: 1 };
    let (main, history, rest) = tab_areas(area);
    assert_eq!(main, Rect { x: 0, y: 0, width: 12, height: 1 });
    assert_eq!(history, Rect { x: 13, y: 0, width: 12, height: 1 });
    assert_eq!(rest, Rect { x: 26, y: 0, width: 54, height: 1 });
    assert_eq!(tab_areas(Rect { x: 2, y: 3, width: 20, height: 1 }).2.width, 0);
    app.main_tab_area = Some(main);
    app.history_tab_area = Some(history);
    app.recent_runs_area = Some(Rect { x: 0, y: 10, width: 5, height: 5 });
    handle_mouse(MouseEvent { kind: MouseEventKind::Down, column: 14, row: 0 }, &mut app);
    assert_eq!(app.current_tab, Tab::History);
    handle_mouse(MouseEvent { kind: MouseEventKind::Other, column: 1, row: 0 }, &mut app);
    assert_eq!(app.current_tab, Tab::History);
    handle_mouse(MouseEvent { kind: MouseEventKind::Down, column: 11, row: 0 }, &mut app);
    assert_eq!(app.current_tab, Tab::Main);
    handle_mouse(MouseEvent { kind: MouseEventKind::Down, column: 12, row: 0 }, &mut app);
    assert!(!app.pinned_output);
    handle_mouse(MouseEvent { kind: MouseEventKind::Down, column: 4, row: 14 }, &mut app);
    assert!(app.pinned_output);
    assert!(point_in_rect(65_535, 0, Rect { x: 65_000, y: 0, width: 65_535, height: 1 }));
    assert!(!point_in_rect(5, 1, Rect { x: 0, y: 0, width: 10, height: 1 }));
}

#[test]
fn commands_are_normalized_for_display() {
    assert_eq!(normalized_command_for_display("git status"), "git status");
    assert_eq!(normalized_command_for_display("git status \t "), "git status");
    assert_eq!(normalized_command_for_display("make \\  "), "make ");
    assert_eq!(normalized_command_for_display("a\\\\"), "a\\");
    assert_eq!(normalized_command_for_display("line\n"), "line\n");
    assert_eq!(normalized_command_for_display(""), "");
    assert_eq!(lines_from_display_text("a\n\n b \n"), vec!["a", " ", " b ", " "]);
    assert_eq!(lines_from_display_text(""), vec![" "]);
    assert_eq!(format_command_lines_for_display("for x \\\n do\\ "), vec!["for x \\", " do"]);
}

#[test]
fn cursor_is_found_by_line_and_column() {
    assert_eq!(cursor_line_col("", 0), (0, 0));
    assert_eq!(cursor_line_col("git", 2), (0, 2));
    assert_eq!(cursor_line_col("git", 99), (0, 3));
    assert_eq!(cursor_line_col("a\nbc\nd", 2), (1, 0));
    assert_eq!(cursor_line_col("a\nbc\nd", 5), (2, 0));
    assert_eq!(cursor_line_col("é\n", 2), (0, 1));
    assert_eq!(cursor_line_col("é\n", 3), (1, 0));
    assert_eq!(cursor_line_col("é\nü", 3), (1, 0));
    assert_eq!(cursor_line_col("é\nü", 4), (1, 1));
    assert_eq!(cursor_line_col("é\nü", 5), (1, 1));
    assert_eq!(cursor_line_col("é\nü", 1), (0, 1));
    assert_eq!(cursor_line_col("日本", 3), (0, 1));
    assert_eq!(cursor_line_col("日本", 4), (0, 2));
    assert_eq!(cursor_byte_offset("é\nü", 0), 0);
    assert_eq!(cursor_byte_offset("é\nü", 1), 2);
    assert_eq!(cursor_byte_offset("é\nü", 2), 3);
    assert_eq!(cursor_byte_offset("é\nü", 3), 5);
    assert_eq!(cursor_byte_offset("é\nü", 9), 5);
    assert_eq!(cursor_byte_offset("a😀b", 2), 5);
    assert_eq!(cursor_line_col("é\nü", cursor_byte_offset("é\nü", 2)), (1, 0));
    assert_eq!(char_width('a') + char_width('é') + char_width('日') + char_width('😀'), 10);
    assert_eq!(cursor_cell(Rect { x: 2, y: 1, width: 10, height: 3 }, 5, 20), Some((10, 2)));
    assert_eq!(cursor_cell(Rect { x: 2, y: 1, width: 10, height: 5 }, 1, 3), Some((6, 3)));
    assert_eq!(cursor_cell(Rect { x: 2, y: 1, width: 2, height: 5 }, 1, 3), None);
}

#[test]
fn input_lines_highlight_the_cursor() {
    let show = |text: &str, cursor: usize| -> Vec<Vec<(String, bool)>> {
        input_lines_with_cursor(text, cursor)
            .into_iter()
            .map(|line| line.into_iter().map(|s| (s.text, s.highlighted)).collect())
            .collect()
    };
    let plain = |t: &str| (t.to_string(), false);
    let under = |t: &str| (t.to_string(), true);
    assert_eq!(show("", 0), vec![vec![plain(" ")]]);
    assert_eq!(show("git", 1), vec![vec![plain("g"), under("i"), plain("t")]]);
    assert_eq!(show("git", 0), vec![vec![under("g"), plain("it")]]);
    assert_eq!(show("git", 2), vec![vec![plain("gi"), under("t")]]);
    assert_eq!(show("git", 3), vec![vec![plain("git")]]);
    assert_eq!(
        show("a\n\nbc", 4),
        vec![vec![plain("a")], vec![plain(" ")], vec![plain("b"), under("c")]]
    );
    assert_eq!(show("a\nb", 1), vec![vec![plain("a")], vec![plain("b")]]);
}

#[test]
fn panes_show_output_or_a_placeholder() {
    let history = vec![
        HistoryEntry { cmd: "make".to_string(), output_lines: vec!["ok".to_string()] },
        HistoryEntry { cmd: "true".to_string(), output_lines: Vec::new() },
    ];
    let empty = history_pane(&Vec::new(), 0);
    assert_eq!((empty.title.as_str(), empty.lines), ("Output", vec!["(no history yet)".to_string()]));
    let first = history_pane(&history, 0);
    assert_eq!((first.title.as_str(), first.lines), ("Output — make", vec!["ok".to_string()]));
    let silent = history_pane(&history, 1);
    assert_eq!((silent.title.as_str(), silent.lines), ("Output — true", vec!["(no output)".to_string()]));
    let beyond = history_pane(&history, 2);
    assert_eq!((beyond.title.as_str(), beyond.lines), ("Output", vec!["(select a command)".to_string()]));
    let idle = output_pane(&None, false, &Vec::new());
    assert_eq!((idle.title.as_str(), idle.lines), ("output", vec!["(no output yet)".to_string()]));
    let running = output_pane(&Some("make".to_string()), true, &vec!["cc".to_string()]);
    assert_eq!((running.title.as_str(), running.lines), ("output — make (running)", vec!["cc".to_string()]));
    let done = output_pane(&Some("make".to_string()), false, &Vec::new());
    assert_eq!(done.title, "output — make");
}

#[test]
fn rows_mark_the_selected_entry() {
    let rows = suggestion_rows(&vec!["git status ".to_string(), "a \\\nb\\".to_string()], 1);
    assert_eq!(rows.len(), 2);
    assert_eq!((rows[0].lines.clone(), rows[0].selected), (vec!["git status".to_string()], false));
    assert_eq!((rows[1].lines.clone(), rows[1].selected), (vec!["a \\".to_string(), "b".to_string()], true));
    let history = vec![
        HistoryEntry { cmd: "first".to_string(), output_lines: Vec::new() },
        HistoryEntry { cmd: "second".to_string(), output_lines: Vec::new() },
        HistoryEntry { cmd: "third".to_string(), output_lines: Vec::new() },
    ];
    let rows = history_rows(&history, 0);
    let shown: Vec<(String, bool)> = rows.into_iter().map(|r| (r.lines[0].clone(), r.selected)).collect();
    assert_eq!(
        shown,
        vec![("third".to_string(), false), ("second".to_string(), false), ("first".to_string(), true)]
    );
    assert!(history_rows(&Vec::new(), 0).is_empty());
}

#[test]
fn startup_plan_follows_the_switches() {
    assert_eq!(
        startup_plan(true, true, true, true),
        StartupPlan { stored_models: true, embedding: true, llm: true, llm_model_missing: false }
    );
    assert_eq!(
        startup_plan(true, false, true, false),
        StartupPlan { stored_models: false, embedding: false, llm: false, llm_model_missing: true }
    );
    assert_eq!(
        startup_plan(false, true, false, true),
        StartupPlan { stored_models: false, embedding: false, llm: false, llm_model_missing: false }
    );
}
