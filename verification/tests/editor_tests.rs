use paschek_shell::editor::{EditorMode, EditorState, EditorView, EditorError};

fn open(path: &str, root: &str, content: &str) -> EditorState {
    EditorView::open_path(path, root, content).expect("open should succeed")
}

#[test]
fn open_outside_root_is_refused() {
    let r = EditorView::open_path("/outside/notes.txt", "/home/user", "hello");
    assert!(matches!(r, Err(EditorError::OutsideRoot)));
}

#[test]
fn open_prefix_trick_is_refused() {
    // "/home/userx" shares a string prefix with "/home/user" but is no
    // descendant of it.
    let r = EditorView::open_path("/home/userx/notes.txt", "/home/user2", "hello");
    assert!(matches!(r, Err(EditorError::OutsideRoot)));
}

#[test]
fn open_inside_root_succeeds() {
    let ed = open("/home/user/notes.txt", "/home/user", "one\ntwo");
    assert_eq!(ed.buffer.to_string(), "one\ntwo");
    assert_eq!(ed.cursor_row, 0);
    assert_eq!(ed.cursor_col, 0);
    assert!(!ed.dirty);
    assert_eq!(ed.path.as_deref(), Some("/home/user/notes.txt"));
}

#[test]
fn insert_and_move() {
    let mut ed = EditorState::new_empty();
    EditorView::insert_char(&mut ed, 'h');
    EditorView::insert_char(&mut ed, 'i');
    assert_eq!(ed.buffer.to_string(), "hi");
    assert_eq!(ed.cursor_col, 2);
    assert!(ed.dirty);
    EditorView::move_left(&mut ed);
    EditorView::insert_char(&mut ed, 'e');
    assert_eq!(ed.buffer.to_string(), "hei");
}

#[test]
fn newline_splits_and_backspace_joins() {
    let mut ed = EditorState::new_empty();
    for c in "abcd".chars() {
        EditorView::insert_char(&mut ed, c);
    }
    EditorView::move_left(&mut ed);
    EditorView::move_left(&mut ed);
    EditorView::insert_newline(&mut ed);
    assert_eq!(ed.buffer.to_string(), "ab\ncd");
    assert_eq!(ed.cursor_row, 1);
    assert_eq!(ed.cursor_col, 0);
    EditorView::backspace(&mut ed);
    assert_eq!(ed.buffer.to_string(), "abcd");
    assert_eq!(ed.cursor_row, 0);
    assert_eq!(ed.cursor_col, 2);
}

#[test]
fn vertical_moves_clamp_column() {
    let mut ed = open("/r/f.txt", "/r", "long line\nab\nlonger line");
    // Put the cursor at the end of the first line.
    for _ in 0..9 {
        EditorView::move_right(&mut ed);
    }
    assert_eq!(ed.cursor_col, 9);
    EditorView::move_down(&mut ed, 20);
    assert_eq!(ed.cursor_row, 1);
    assert_eq!(ed.cursor_col, 2);
    EditorView::move_up(&mut ed);
    assert_eq!(ed.cursor_row, 0);
    assert_eq!(ed.cursor_col, 2);
}

#[test]
fn insert_undo_redo_round_trip() {
    let mut ed = EditorState::new_empty();
    let n = 5;
    for c in "hello".chars() {
        EditorView::insert_char(&mut ed, c);
    }
    assert_eq!(ed.buffer.to_string(), "hello");
    for _ in 0..n {
        EditorView::undo(&mut ed);
    }
    assert_eq!(ed.buffer.to_string(), "");
    assert_eq!(ed.cursor_row, 0);
    assert_eq!(ed.cursor_col, 0);
    for _ in 0..n {
        EditorView::redo(&mut ed);
    }
    assert_eq!(ed.buffer.to_string(), "hello");
    assert_eq!(ed.cursor_col, 5);
}

#[test]
fn undo_stack_keeps_most_recent_fifty() {
    let mut ed = EditorState::new_empty();
    for _ in 0..60 {
        EditorView::insert_char(&mut ed, 'a');
    }
    assert_eq!(ed.undo_stack.len(), 50);
    // The oldest retained snapshot is the state before the 11th edit:
    // ten characters.
    assert_eq!(ed.undo_stack[0].buffer.to_string(), "aaaaaaaaaa");
    assert_eq!(ed.undo_stack[49].buffer.to_string(), "a".repeat(59));
}

#[test]
fn undo_on_empty_stack_is_noop() {
    let mut ed = EditorState::new_empty();
    EditorView::undo(&mut ed);
    assert_eq!(ed.buffer.to_string(), "");
    assert!(ed.undo_stack.is_empty());
    assert!(ed.redo_stack.is_empty());
}

#[test]
fn save_without_path_fails() {
    let ed = EditorState::new_empty();
    assert!(matches!(EditorView::save(&ed), Err(EditorError::NoPath)));
}

#[test]
fn save_hands_back_path_and_content() {
    let mut ed = open("/r/f.txt", "/r", "data\n");
    EditorView::insert_char(&mut ed, 'x');
    let req = EditorView::save(&ed).expect("has a path");
    assert_eq!(req.path, "/r/f.txt");
    assert_eq!(req.content, "xdata\n");
    assert!(ed.dirty);
    EditorView::mark_saved(&mut ed);
    assert!(!ed.dirty);
}

#[test]
fn search_positions_row_major() {
    let mut ed = open("/r/f.txt", "/r", "foo bar\nbaz\nfoo");
    ed.last_search = Some("foo".to_string());
    EditorView::recompute_search_positions(&mut ed);
    assert_eq!(ed.search_positions, vec![(0, 0), (2, 0)]);
}

#[test]
fn search_next_wraps_around() {
    let mut ed = open("/r/f.txt", "/r", "foo bar\nbaz\nfoo");
    ed.last_search = Some("foo".to_string());
    EditorView::recompute_search_positions(&mut ed);
    ed.search_index = Some(0);
    EditorView::search_next(&mut ed);
    assert_eq!(ed.search_index, Some(1));
    assert_eq!(ed.cursor_row, 2);
    EditorView::search_next(&mut ed);
    assert_eq!(ed.search_index, Some(0));
    assert_eq!(ed.cursor_row, 0);
}

#[test]
fn search_counts_multiple_matches_in_one_line() {
    let mut ed = open("/r/f.txt", "/r", "aba aba\nxx");
    ed.last_search = Some("aba".to_string());
    EditorView::recompute_search_positions(&mut ed);
    assert_eq!(ed.search_positions, vec![(0, 0), (0, 1)]);
}

#[test]
fn search_is_lazy_on_cold_cache() {
    let mut ed = open("/r/f.txt", "/r", "one\ntwo\nthree");
    ed.last_search = Some("two".to_string());
    EditorView::search_next(&mut ed);
    assert_eq!(ed.cursor_row, 1);
}

#[test]
fn search_text_jumps_with_wraparound() {
    let mut ed = open("/r/f.txt", "/r", "alpha\nbeta\ngamma");
    ed.cursor_row = 2;
    EditorView::search_text(&mut ed, "beta");
    assert_eq!(ed.cursor_row, 1);
    assert_eq!(ed.last_search.as_deref(), Some("beta"));
}

#[test]
fn goto_line_clamps() {
    let mut ed = open("/r/f.txt", "/r", "a\nb\nc");
    EditorView::goto_line(&mut ed, 2);
    assert_eq!(ed.cursor_row, 1);
    EditorView::goto_line(&mut ed, 99);
    assert_eq!(ed.cursor_row, 2);
    EditorView::goto_line(&mut ed, 0);
    assert_eq!(ed.cursor_row, 0);
}

#[test]
fn editing_clears_redo() {
    let mut ed = EditorState::new_empty();
    EditorView::insert_char(&mut ed, 'a');
    EditorView::undo(&mut ed);
    assert_eq!(ed.redo_stack.len(), 1);
    EditorView::insert_char(&mut ed, 'b');
    assert!(ed.redo_stack.is_empty());
    assert_eq!(ed.mode, EditorMode::Normal);
}
