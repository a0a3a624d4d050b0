use paschek_shell::router::{
    handle_key, Action, Focus, InputKind, InputOverlay, Key, KeyEvent, Overlay, Screen,
    TuiCommandHandler, TuiState,
};
use paschek_shell::editor::{EditorState, EditorView};
use paschek_shell::explorer::DirEntryView;

fn key(code: Key) -> KeyEvent {
    KeyEvent { code, ctrl: false, alt: false, shift: false }
}

fn ctrl(code: Key) -> KeyEvent {
    KeyEvent { code, ctrl: true, alt: false, shift: false }
}

fn fresh() -> TuiState {
    TuiState::new("/home/user".to_string())
}

#[test]
fn home_shortcuts_route_screens() {
    let mut s = fresh();
    handle_key(&mut s, key(Key::Char('1')), 20);
    assert_eq!(s.screen, Screen::Shell);

    let mut s = fresh();
    handle_key(&mut s, key(Key::Char('2')), 20);
    assert_eq!(s.screen, Screen::Shell);
    assert!(s.show_logs);

    let mut s = fresh();
    handle_key(&mut s, key(Key::Char('3')), 20);
    assert_eq!(s.screen, Screen::Shell);
    assert_eq!(s.overlay, Overlay::Help);

    let mut s = fresh();
    handle_key(&mut s, key(Key::Char('5')), 20);
    assert_eq!(s.screen, Screen::Workspace);
    assert_eq!(s.focus, Focus::Explorer);

    let mut s = fresh();
    handle_key(&mut s, key(Key::Char('q')), 20);
    assert!(!s.running);
}

#[test]
fn help_overlay_closes_on_any_key() {
    for code in [Key::Char('x'), Key::Enter, Key::Esc, Key::Down, Key::Other] {
        let mut s = fresh();
        s.screen = Screen::Shell;
        s.overlay = Overlay::Help;
        handle_key(&mut s, key(code), 20);
        assert_eq!(s.overlay, Overlay::Off);
        // The key is otherwise discarded.
        assert_eq!(s.screen, Screen::Shell);
        assert!(s.running);
    }
}

#[test]
fn input_overlay_captures_until_enter_or_esc() {
    let mut s = fresh();
    s.screen = Screen::Workspace;
    s.overlay = Overlay::Input;
    s.overlay_input = Some(InputOverlay { kind: InputKind::NewEntry, buffer: String::new() });
    for c in "note.txt".chars() {
        handle_key(&mut s, key(Key::Char(c)), 20);
        assert_eq!(s.overlay, Overlay::Input);
    }
    handle_key(&mut s, key(Key::Backspace), 20);
    assert_eq!(s.overlay, Overlay::Input);
    assert_eq!(s.overlay_input.as_ref().unwrap().buffer, "note.tx");
    let act = handle_key(&mut s, key(Key::Enter), 20);
    assert_eq!(s.overlay, Overlay::Off);
    assert!(s.overlay_input.is_none());
    match act {
        Action::FsCreate(p) => assert_eq!(p, "/home/user/note.tx"),
        _ => panic!("expected a create request"),
    }
}

#[test]
fn input_overlay_cancel_discards() {
    let mut s = fresh();
    s.screen = Screen::Workspace;
    s.overlay = Overlay::Input;
    s.overlay_input = Some(InputOverlay { kind: InputKind::NewEntry, buffer: "x".to_string() });
    let act = handle_key(&mut s, key(Key::Esc), 20);
    assert_eq!(s.overlay, Overlay::Off);
    assert!(s.overlay_input.is_none());
    assert!(matches!(act, Action::Idle));
}

#[test]
fn delete_confirm_needs_a_yes() {
    let mut s = fresh();
    s.screen = Screen::Explorer;
    handle_key(&mut s, key(Key::Delete), 20);
    assert_eq!(s.overlay, Overlay::Input);
    let act = handle_key(&mut s, key(Key::Enter), 20);
    // An empty confirmation deletes nothing.
    assert!(matches!(act, Action::Idle));
}

#[test]
fn tui_quit_command_stops_the_loop() {
    let mut s = fresh();
    s.screen = Screen::Shell;
    TuiCommandHandler::execute(&mut s, ":q");
    assert!(!s.running);
    assert_eq!(s.logs.entries.last().map(|e| e.as_str()), Some("Quit requested."));
}

#[test]
fn tui_logs_command_is_sticky() {
    let mut s = fresh();
    TuiCommandHandler::execute(&mut s, ":l");
    assert!(s.show_logs);
    TuiCommandHandler::execute(&mut s, ":logs");
    assert!(!s.show_logs);
}

#[test]
fn tui_help_command_toggles_overlay() {
    let mut s = fresh();
    TuiCommandHandler::execute(&mut s, ":h");
    assert_eq!(s.overlay, Overlay::Help);
    TuiCommandHandler::execute(&mut s, ":help");
    assert_eq!(s.overlay, Overlay::Off);
}

#[test]
fn tui_clear_command_resets_logs() {
    let mut s = fresh();
    TuiCommandHandler::execute(&mut s, ":l");
    TuiCommandHandler::execute(&mut s, ":clear");
    let entries: Vec<&str> = s.logs.entries.iter().map(|e| e.as_str()).collect();
    assert_eq!(entries, vec!["Logs cleared."]);
}

#[test]
fn tui_unknown_command_is_reported() {
    let mut s = fresh();
    TuiCommandHandler::execute(&mut s, ":frobnicate");
    assert_eq!(
        s.logs.entries.last().map(|e| e.as_str()),
        Some("Unknown TUI command: :frobnicate"),
    );
}

#[test]
fn shell_enter_routes_colon_commands() {
    let mut s = fresh();
    s.screen = Screen::Shell;
    for c in ":fs".chars() {
        handle_key(&mut s, key(Key::Char(c)), 20);
    }
    handle_key(&mut s, key(Key::Enter), 20);
    assert_eq!(s.screen, Screen::Workspace);
    assert_eq!(s.focus, Focus::Explorer);
    assert_eq!(s.term.input, "");
}

#[test]
fn shell_enter_open_request() {
    let mut s = fresh();
    s.screen = Screen::Shell;
    for c in ":e /home/user/a.txt".chars() {
        handle_key(&mut s, key(Key::Char(c)), 20);
    }
    let act = handle_key(&mut s, key(Key::Enter), 20);
    match act {
        Action::OpenPath(p) => assert_eq!(p, "/home/user/a.txt"),
        _ => panic!("expected an open request"),
    }
}

#[test]
fn shell_enter_runs_programs() {
    let mut s = fresh();
    s.screen = Screen::Shell;
    for c in "echo one two".chars() {
        handle_key(&mut s, key(Key::Char(c)), 20);
    }
    let act = handle_key(&mut s, key(Key::Enter), 20);
    match act {
        Action::RunProgram(cmd, args) => {
            assert_eq!(cmd, "echo");
            assert_eq!(args, vec!["one".to_string(), "two".to_string()]);
        },
        _ => panic!("expected a program run"),
    }
    assert_eq!(s.term.output.last().map(|l| l.as_str()), Some("$ echo one two"));
    assert_eq!(s.term.history.last().map(|l| l.as_str()), Some("echo one two"));
}

#[test]
fn shell_cd_without_arg_prints_usage() {
    let mut s = fresh();
    s.screen = Screen::Shell;
    for c in "cd".chars() {
        handle_key(&mut s, key(Key::Char(c)), 20);
    }
    let act = handle_key(&mut s, key(Key::Enter), 20);
    assert!(matches!(act, Action::Idle));
    assert_eq!(s.term.output.last().map(|l| l.as_str()), Some("usage: cd <path>"));
}

#[test]
fn workspace_editor_types_into_current_tab() {
    let mut s = fresh();
    s.screen = Screen::Workspace;
    s.focus = Focus::Editor;
    let ed = EditorView::open_path("/home/user/a.txt", "/home/user", "").unwrap();
    s.tabs.open_or_focus(ed);
    for c in "ok".chars() {
        handle_key(&mut s, key(Key::Char(c)), 20);
    }
    handle_key(&mut s, key(Key::Enter), 20);
    let cur = s.tabs.current().unwrap();
    assert_eq!(cur.buffer.to_string(), "ok\n");
    // Ctrl+Z undoes the newline.
    handle_key(&mut s, ctrl(Key::Char('z')), 20);
    let cur = s.tabs.current().unwrap();
    assert_eq!(cur.buffer.to_string(), "ok");
}

#[test]
fn explorer_open_enters_the_workspace() {
    let mut s = fresh();
    s.screen = Screen::Explorer;
    paschek_shell::explorer::FileExplorerView::refresh(
        &mut s.explorer,
        vec![DirEntryView { name: "notes.txt".to_string(), is_dir: false }],
    );
    let act = handle_key(&mut s, key(Key::Enter), 20);
    match act {
        Action::OpenPath(p) => assert_eq!(p, "/home/user/notes.txt"),
        _ => panic!("expected an open request"),
    }
    assert_eq!(s.screen, Screen::Workspace);
    assert_eq!(s.focus, Focus::Editor);
}

#[test]
fn workspace_open_keeps_the_screen() {
    let mut s = fresh();
    s.screen = Screen::Workspace;
    s.focus = Focus::Explorer;
    paschek_shell::explorer::FileExplorerView::refresh(
        &mut s.explorer,
        vec![DirEntryView { name: "notes.txt".to_string(), is_dir: false }],
    );
    let act = handle_key(&mut s, key(Key::Char('l')), 20);
    assert!(matches!(act, Action::OpenPath(_)));
    assert_eq!(s.screen, Screen::Workspace);
    assert_eq!(s.focus, Focus::Editor);
}

#[test]
fn ctrl_s_requests_a_save() {
    let mut s = fresh();
    s.screen = Screen::Workspace;
    s.focus = Focus::Editor;
    let ed = EditorView::open_path("/home/user/a.txt", "/home/user", "body").unwrap();
    s.tabs.open_or_focus(ed);
    let act = handle_key(&mut s, ctrl(Key::Char('s')), 20);
    match act {
        Action::Save(req) => {
            assert_eq!(req.path, "/home/user/a.txt");
            assert_eq!(req.content, "body");
        },
        _ => panic!("expected a save request"),
    }
}

#[test]
fn closing_last_tab_returns_focus_to_explorer() {
    let mut s = fresh();
    s.screen = Screen::Workspace;
    s.focus = Focus::Editor;
    let ed = EditorState::new_empty();
    s.tabs.open_or_focus(ed);
    handle_key(&mut s, ctrl(Key::Char('w')), 20);
    assert!(s.tabs.is_empty());
    assert_eq!(s.focus, Focus::Explorer);
}

#[test]
fn goto_line_overlay_moves_the_cursor() {
    let mut s = fresh();
    s.screen = Screen::Editor;
    let ed = EditorView::open_path("/home/user/a.txt", "/home/user", "a\nb\nc\nd").unwrap();
    s.tabs.open_or_focus(ed);
    handle_key(&mut s, ctrl(Key::Char('g')), 20);
    assert_eq!(s.overlay, Overlay::Input);
    handle_key(&mut s, key(Key::Char('3')), 20);
    handle_key(&mut s, key(Key::Enter), 20);
    assert_eq!(s.overlay, Overlay::Off);
    assert_eq!(s.tabs.current().unwrap().cursor_row, 2);
}
