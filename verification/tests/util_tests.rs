use paschek_shell::editor::EditorState;
use paschek_shell::files::FileExplorer;
use paschek_shell::paths::{join_path, parent_dir, within_root};
use paschek_shell::tabs::EditorTabs;
use paschek_shell::terminal::{InputField, LogPanel, TerminalPane};
use paschek_shell::theme::{ColorSection, PromptColor, Theme, ThemeConfig};
use paschek_shell::util::{chars_of, parse_usize, split_ws, string_from_chars, trim_chars};

#[test]
fn within_root_respects_component_boundaries() {
    assert!(within_root("/home/user", "/home/user"));
    assert!(within_root("/home/user", "/home/user/sub/file"));
    assert!(!within_root("/home/user", "/home/userx"));
    assert!(!within_root("/home/user", "/etc/passwd"));
    assert!(within_root("/", "/etc"));
}

#[test]
fn parent_dir_walks_up() {
    assert_eq!(parent_dir("/a/b/c").as_deref(), Some("/a/b"));
    assert_eq!(parent_dir("/a").as_deref(), Some("/"));
    assert_eq!(parent_dir("/"), None);
}

#[test]
fn join_path_inserts_one_separator() {
    assert_eq!(join_path("/a/b", "c.txt"), "/a/b/c.txt");
    assert_eq!(join_path("/", "etc"), "/etc");
}

#[test]
fn trim_and_parse() {
    let v = chars_of("  42\t");
    let t = trim_chars(&v);
    assert_eq!(string_from_chars(&t), "42");
    assert_eq!(parse_usize(&t), Some(42));
    assert_eq!(parse_usize(&chars_of("")), None);
    assert_eq!(parse_usize(&chars_of("4x2")), None);
    assert_eq!(parse_usize(&chars_of("99999999999999999999999999")), None);
}

#[test]
fn split_ws_drops_blank_runs() {
    let v = chars_of("  one   two\tthree ");
    let toks = split_ws(&v);
    assert_eq!(toks, vec!["one".to_string(), "two".to_string(), "three".to_string()]);
    assert!(split_ws(&chars_of("   ")).is_empty());
}

#[test]
fn terminal_line_editing() {
    let mut t = TerminalPane::new();
    for c in "hello".chars() {
        t.insert_char(c);
    }
    t.move_left();
    t.move_left();
    t.insert_char('X');
    assert_eq!(t.current_line(), "helXlo");
    t.backspace();
    assert_eq!(t.current_line(), "hello");
    t.move_to_start();
    t.delete_forward();
    assert_eq!(t.current_line(), "ello");
    t.move_to_end();
    t.backspace();
    assert_eq!(t.current_line(), "ell");
    t.clear_input();
    assert_eq!(t.current_line(), "");
}

#[test]
fn terminal_history_navigation() {
    let mut t = TerminalPane::new();
    t.push_history_if_new("first");
    t.push_history_if_new("second");
    t.push_history_if_new("second");
    assert_eq!(t.history.len(), 2);
    t.history_up();
    assert_eq!(t.current_line(), "second");
    t.history_up();
    assert_eq!(t.current_line(), "first");
    t.history_up();
    assert_eq!(t.current_line(), "first");
    t.history_down();
    assert_eq!(t.current_line(), "second");
    t.history_down();
    assert_eq!(t.current_line(), "");
    assert!(t.history_pos.is_none());
}

#[test]
fn terminal_scrolling_bounds() {
    let mut t = TerminalPane::new();
    t.push_output("a".to_string());
    t.scroll_up();
    t.scroll_up();
    t.scroll_up();
    assert_eq!(t.scroll, 2);
    t.scroll_down();
    t.scroll_down();
    t.scroll_down();
    assert_eq!(t.scroll, 0);
}

#[test]
fn log_panel_basics() {
    let mut l = LogPanel::new();
    l.add("one".to_string());
    l.add("two".to_string());
    assert_eq!(l.entries.len(), 2);
    l.scroll_up();
    assert_eq!(l.scroll, 1);
    l.clear();
    assert!(l.entries.is_empty());
}

#[test]
fn input_field_edits() {
    let mut f = InputField::new();
    f.input('a');
    f.input('b');
    f.backspace();
    assert_eq!(f.get_value(), "a");
    f.clear();
    assert_eq!(f.get_value(), "");
}

#[test]
fn tabs_cycle_and_close() {
    let mut tabs = EditorTabs::new();
    assert!(tabs.is_empty());
    tabs.next();
    tabs.prev();
    assert_eq!(tabs.current, 0);
    tabs.open_or_focus(EditorState::new_empty());
    tabs.open_or_focus(EditorState::new_empty());
    // Opening replaces the collection with a single tab.
    assert_eq!(tabs.tabs.len(), 1);
    tabs.next();
    assert_eq!(tabs.current, 0);
    tabs.close_current();
    assert!(tabs.is_empty());
    assert_eq!(tabs.current, 0);
}

#[test]
fn theme_parses_color_names() {
    assert_eq!(Theme::parse_color("red"), PromptColor::Red);
    assert_eq!(Theme::parse_color("BrightGreen"), PromptColor::BrightGreen);
    assert_eq!(Theme::parse_color("unheard-of"), PromptColor::White);
    let cfg = ThemeConfig {
        shell: ColorSection { color: "green".to_string() },
        path: ColorSection { color: "BLUE".to_string() },
        time: ColorSection { color: "brightyellow".to_string() },
        symbol: ColorSection { color: "nope".to_string() },
    };
    let t = Theme::from_config(&cfg);
    assert_eq!(t.shell_color, PromptColor::Green);
    assert_eq!(t.path_color, PromptColor::Blue);
    assert_eq!(t.time_color, PromptColor::BrightYellow);
    assert_eq!(t.symbol_color, PromptColor::White);
    let d = Theme::default();
    assert_eq!(d.shell_color, PromptColor::BrightGreen);
}

#[test]
fn file_list_selection() {
    let mut f = FileExplorer::new(vec!["a".to_string(), "b".to_string()]);
    f.move_down();
    assert_eq!(f.selected, 1);
    f.move_down();
    assert_eq!(f.selected, 1);
    f.move_up();
    f.move_up();
    assert_eq!(f.selected, 0);
}

#[test]
fn rope_round_trips_through_save() {
    // The buffer hands file content back verbatim.
    let content = "line one\nline two\nno trailing newline";
    let ed = paschek_shell::editor::EditorView::open_path("/r/x", "/r", content).unwrap();
    let req = paschek_shell::editor::EditorView::save(&ed).unwrap();
    assert_eq!(req.content, content);
}
