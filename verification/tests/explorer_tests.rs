use paschek_shell::explorer::{DirEntryView, FileExplorerState, FileExplorerView};

fn entry(name: &str, is_dir: bool) -> DirEntryView {
    DirEntryView { name: name.to_string(), is_dir }
}

fn listing() -> Vec<DirEntryView> {
    vec![
        entry(".hidden", false),
        entry("B.txt", false),
        entry("a.txt", false),
        entry("Sub", true),
    ]
}

fn names(state: &FileExplorerState) -> Vec<String> {
    state.entries.iter().map(|e| e.name.clone()).collect()
}

fn below_root() -> FileExplorerState {
    let mut s = FileExplorerState::new("/home/user".to_string());
    s.cwd = "/home/user/dir".to_string();
    s
}

#[test]
fn refresh_sorts_dirs_first_case_insensitively() {
    let mut s = below_root();
    FileExplorerView::refresh(&mut s, listing());
    assert_eq!(names(&s), vec!["..", "Sub", "a.txt", "B.txt"]);
}

#[test]
fn refresh_with_hidden_shown_keeps_dotfiles() {
    let mut s = below_root();
    s.show_hidden = true;
    FileExplorerView::refresh(&mut s, listing());
    // Directories first (".." then "Sub"), then the files by folded name:
    // "." orders before letters, so ".hidden" leads the files.
    assert_eq!(names(&s), vec!["..", "Sub", ".hidden", "a.txt", "B.txt"]);
}

#[test]
fn refresh_at_root_has_no_dotdot() {
    let mut s = FileExplorerState::new("/home/user".to_string());
    FileExplorerView::refresh(&mut s, listing());
    assert_eq!(names(&s), vec!["Sub", "a.txt", "B.txt"]);
}

#[test]
fn refresh_clamps_selection() {
    let mut s = below_root();
    s.selected = 7;
    FileExplorerView::refresh(&mut s, listing());
    assert_eq!(s.selected, 3);
    let mut empty = FileExplorerState::new("/home/user".to_string());
    empty.selected = 3;
    FileExplorerView::refresh(&mut empty, Vec::new());
    assert_eq!(empty.selected, 0);
}

#[test]
fn selection_moves_stay_in_bounds() {
    let mut s = below_root();
    FileExplorerView::refresh(&mut s, listing());
    FileExplorerView::move_up(&mut s);
    assert_eq!(s.selected, 0);
    for _ in 0..10 {
        FileExplorerView::move_down(&mut s);
    }
    assert_eq!(s.selected, 3);
}

#[test]
fn go_up_stops_at_root() {
    let mut s = below_root();
    FileExplorerView::go_up(&mut s);
    assert_eq!(s.cwd, "/home/user");
    FileExplorerView::go_up(&mut s);
    assert_eq!(s.cwd, "/home/user");
}

#[test]
fn activate_enters_directory() {
    let mut s = below_root();
    FileExplorerView::refresh(&mut s, listing());
    s.selected = 1;
    let r = FileExplorerView::activate(&mut s);
    assert!(r.is_none());
    assert_eq!(s.cwd, "/home/user/dir/Sub");
}

#[test]
fn activate_returns_confined_file_path() {
    let mut s = below_root();
    FileExplorerView::refresh(&mut s, listing());
    s.selected = 2;
    let r = FileExplorerView::activate(&mut s);
    assert_eq!(r.as_deref(), Some("/home/user/dir/a.txt"));
    assert_eq!(s.cwd, "/home/user/dir");
}

#[test]
fn activate_dotdot_goes_up() {
    let mut s = below_root();
    FileExplorerView::refresh(&mut s, listing());
    s.selected = 0;
    let r = FileExplorerView::activate(&mut s);
    assert!(r.is_none());
    assert_eq!(s.cwd, "/home/user");
}

#[test]
fn activate_on_empty_listing_is_noop() {
    let mut s = below_root();
    let r = FileExplorerView::activate(&mut s);
    assert!(r.is_none());
    assert_eq!(s.cwd, "/home/user/dir");
    assert_eq!(s.selected, 0);
}
