//! The screen/focus/overlay orchestrator: one authoritative state machine
//! that routes each key event to exactly one handler, by precedence: the
//! home screen's shortcuts, then the ephemeral help overlay, then the
//! modal input overlay, then the active screen (and within the workspace,
//! the focused pane).
//!
//! The router only mutates state; whatever needs the outside world (file
//! reads and writes, directory listings, process launches) comes back as
//! an `Action` for the caller to perform.

use vstd::prelude::*;
use vstd::string::StrSliceExecFns;
use vstd::string::StringExecFns;
use crate::editor::{
    EditorView, EdView, spec_insert_char, spec_insert_newline, spec_backspace,
    spec_move_left, spec_move_right, spec_move_up, spec_move_down, spec_undo, spec_redo,
    spec_search_next, spec_search_prev, spec_search_text, spec_goto_line, EditorMode, SaveRequest,
};
use crate::rope::rope_len_chars;
use crate::explorer::{FileExplorerState, FileExplorerView, ExplorerView, explorer_wf,
    spec_exp_move_up, spec_exp_move_down, spec_exp_go_up, spec_activate};
use crate::tabs::{EditorTabs, TabsView, tabs_wf, tabs_seq_view, spec_tabs_next, spec_tabs_prev,
    spec_tabs_close};
use crate::terminal::{TerminalPane, TermView, term_wf, LogPanel, LogView, spec_term_insert,
    spec_term_backspace, spec_term_delete_forward, spec_term_move_left, spec_term_move_right,
    spec_term_move_start, spec_term_move_end, spec_term_clear_input, spec_term_push_output,
    spec_term_clear_output, spec_term_scroll_up, spec_term_scroll_down, spec_term_push_history,
    spec_term_history_up, spec_term_history_down, spec_log_add, spec_log_clear,
    spec_log_scroll_up, spec_log_scroll_down};
use crate::paths::{join_path, join_of};
use crate::util::{chars_of, string_from_chars, trim_chars, trim_of, parse_usize, split_ws,
    ws_tokens, all_digits, dec_val};

verus! {

/// The active screen.
#[derive(Clone, Copy, PartialEq, Eq, Structural, Debug)]
pub enum Screen {
    Home,
    Shell,
    Explorer,
    Editor,
    Workspace,
}

/// Which workspace pane has keyboard focus.
#[derive(Clone, Copy, PartialEq, Eq, Structural, Debug)]
pub enum Focus {
    Explorer,
    Editor,
}

/// The overlay above the active screen: the ephemeral help, or the modal
/// input prompt.
#[derive(Clone, Copy, PartialEq, Eq, Structural, Debug)]
pub enum Overlay {
    Off,
    Help,
    Input,
}

/// What an input overlay asks for.
#[derive(Clone, Copy, PartialEq, Eq, Structural, Debug)]
pub enum InputKind {
    NewEntry,
    RenameEntry,
    DeleteConfirm,
    SearchText,
    GotoLine,
}

/// The modal input prompt's state.
pub struct InputOverlay {
    pub kind: InputKind,
    pub buffer: String,
}

/// A key, abstracted from the terminal backend.
#[derive(Clone, Copy, PartialEq, Eq, Structural, Debug)]
pub enum Key {
    Char(char),
    Enter,
    Esc,
    Backspace,
    Delete,
    Left,
    Right,
    Up,
    Down,
    PageUp,
    PageDown,
    Home,
    End,
    Tab,
    BackTab,
    F(u8),
    Other,
}

/// One keyboard event with its modifiers.
#[derive(Clone, Copy, PartialEq, Eq, Structural, Debug)]
pub struct KeyEvent {
    pub code: Key,
    pub ctrl: bool,
    pub alt: bool,
    pub shift: bool,
}

/// What the caller must perform after a routing step.  Any filesystem
/// action is followed by a fresh listing handed to `refresh`.
pub enum Action {
    /// Nothing to do outside.
    Idle,
    /// Re-list the explorer's working directory and call `refresh`.
    Refresh,
    /// Canonicalize, confine-check, read and open the file at this path.
    OpenPath(String),
    /// Write the request out; on success clear the tab's dirty flag.
    Save(SaveRequest),
    /// Create a file, or a directory when the path ends with `/`.
    FsCreate(String),
    /// Rename the first path to the second.
    FsRename(String, String),
    /// Delete the path (a directory when the flag is set).
    FsDelete(String, bool),
    /// Change the caller's working directory.
    ChangeDir(String),
    /// Run an external program with arguments; its output goes to the
    /// terminal pane.
    RunProgram(String, Vec<String>),
}

/// The mathematical content of an action.
#[verifier::ext_equal]
pub ghost enum ActView {
    Idle,
    Refresh,
    OpenPath(Seq<char>),
    Save(Seq<char>, Seq<char>),
    FsCreate(Seq<char>),
    FsRename(Seq<char>, Seq<char>),
    FsDelete(Seq<char>, bool),
    ChangeDir(Seq<char>),
    RunProgram(Seq<char>, Seq<Seq<char>>),
}

pub open spec fn action_view(a: Action) -> ActView {
    match a {
        Action::Idle => ActView::Idle,
        Action::Refresh => ActView::Refresh,
        Action::OpenPath(p) => ActView::OpenPath(p@),
        Action::Save(req) => ActView::Save(req.path@, req.content@),
        Action::FsCreate(p) => ActView::FsCreate(p@),
        Action::FsRename(from, to) => ActView::FsRename(from@, to@),
        Action::FsDelete(p, d) => ActView::FsDelete(p@, d),
        Action::ChangeDir(p) => ActView::ChangeDir(p@),
        Action::RunProgram(c, args) => ActView::RunProgram(c@, args@.map_values(|s: String| s@)),
    }
}

/// The mathematical content of the whole interactive state.
#[verifier::ext_equal]
pub ghost struct TuiView {
    pub running: bool,
    pub screen: Screen,
    pub focus: Focus,
    pub show_logs: bool,
    pub overlay: Overlay,
    pub overlay_input: Option<(InputKind, Seq<char>)>,
    pub explorer: ExplorerView,
    pub tabs: TabsView,
    pub term: TermView,
    pub logs: LogView,
}

/// Global interactive state: the active screen and every component.
pub struct TuiState {
    pub running: bool,
    pub screen: Screen,
    pub focus: Focus,
    pub show_logs: bool,
    pub overlay: Overlay,
    pub overlay_input: Option<InputOverlay>,
    pub explorer: FileExplorerState,
    pub tabs: EditorTabs,
    pub term: TerminalPane,
    pub logs: LogPanel,
}

impl View for TuiState {
    type V = TuiView;

    open spec fn view(&self) -> TuiView {
        TuiView {
            running: self.running,
            screen: self.screen,
            focus: self.focus,
            show_logs: self.show_logs,
            overlay: self.overlay,
            overlay_input: match self.overlay_input {
                Some(o) => Some((o.kind, o.buffer@)),
                None => None,
            },
            explorer: self.explorer@,
            tabs: self.tabs@,
            term: self.term@,
            logs: self.logs@,
        }
    }
}

/// Every component is well formed.
pub open spec fn tui_wf(v: TuiView) -> bool {
    &&& explorer_wf(v.explorer)
    &&& tabs_wf(v.tabs)
    &&& term_wf(v.term)
}

impl TuiState {
    /// A fresh session confined to `root`: the home screen, no overlay,
    /// no tabs, an explorer rooted at `root` awaiting its first listing.
    pub fn new(root: String) -> (s: TuiState)
        ensures
            s@.running,
            s@.screen == Screen::Home,
            s@.focus == Focus::Editor,
            !s@.show_logs,
            s@.overlay == Overlay::Off,
            s@.overlay_input is None,
            s@.explorer.root == root@,
            s@.explorer.cwd == root@,
            s@.tabs.tabs.len() == 0,
            tui_wf(s@),
    {
        TuiState {
            running: true,
            screen: Screen::Home,
            focus: Focus::Editor,
            show_logs: false,
            overlay: Overlay::Off,
            overlay_input: None,
            explorer: FileExplorerState::new(root),
            tabs: EditorTabs::new(),
            term: TerminalPane::new(),
            logs: LogPanel::new(),
        }
    }
}

/// One editing step applied to the shown document.
pub enum EditOp {
    InsertChar(char),
    InsertNewline,
    Backspace,
    MoveLeft,
    MoveRight,
    MoveUp,
    MoveDown(usize),
    Undo,
    Redo,
    SearchNext,
    SearchPrev,
    SearchText(String),
    GotoLine(usize),
    SetMode(EditorMode),
    SetModeClearCmd(EditorMode),
    CmdlinePush(char),
    CmdlinePop,
}

/// What one editing step does to a document; a buffer already at the
/// machine's length limit refuses growth and search.
pub open spec fn spec_edit_op(e: EdView, op: EditOp) -> EdView {
    match op {
        EditOp::InsertChar(c) => if e.text.len() < usize::MAX {
            if c == '\n' {
                spec_insert_newline(e)
            } else {
                spec_insert_char(e, c)
            }
        } else {
            e
        },
        EditOp::InsertNewline => if e.text.len() < usize::MAX {
            spec_insert_newline(e)
        } else {
            e
        },
        EditOp::Backspace => spec_backspace(e),
        EditOp::MoveLeft => spec_move_left(e),
        EditOp::MoveRight => spec_move_right(e),
        EditOp::MoveUp => spec_move_up(e),
        EditOp::MoveDown(h) => if h >= 1 {
            spec_move_down(e, h as int)
        } else {
            e
        },
        EditOp::Undo => spec_undo(e),
        EditOp::Redo => spec_redo(e),
        EditOp::SearchNext => if e.text.len() < usize::MAX {
            spec_search_next(e)
        } else {
            e
        },
        EditOp::SearchPrev => if e.text.len() < usize::MAX {
            spec_search_prev(e)
        } else {
            e
        },
        EditOp::SearchText(q) => spec_search_text(e, q@),
        EditOp::GotoLine(n) => spec_goto_line(e, n as int),
        EditOp::SetMode(m) => EdView { mode: m, ..e },
        EditOp::SetModeClearCmd(m) => EdView { mode: m, cmdline: Seq::empty(), ..e },
        EditOp::CmdlinePush(c) => if e.cmdline.len() < usize::MAX {
            EdView { cmdline: e.cmdline.push(c), ..e }
        } else {
            e
        },
        EditOp::CmdlinePop => if e.cmdline.len() > 0 {
            EdView { cmdline: e.cmdline.drop_last(), ..e }
        } else {
            e
        },
    }
}

/// Whether a tab is shown.
pub open spec fn has_current(tv: TabsView) -> bool {
    tv.tabs.len() > 0 && 0 <= tv.current < tv.tabs.len()
}

/// The shown document.
pub open spec fn cur_tab(v: TuiView) -> EdView {
    v.tabs.tabs[v.tabs.current]
}

/// The session with the shown document replaced.
pub open spec fn with_current(v: TuiView, e2: EdView) -> TuiView {
    TuiView {
        tabs: TabsView { tabs: v.tabs.tabs.update(v.tabs.current, e2), current: v.tabs.current },
        ..v
    }
}

/// One editing step applied to the shown document; without one, nothing
/// happens.
pub open spec fn spec_apply(v: TuiView, op: EditOp) -> TuiView {
    if has_current(v.tabs) {
        with_current(v, spec_edit_op(cur_tab(v), op))
    } else {
        v
    }
}

/// Apply one editing step to the shown document; without one, nothing
/// happens.
fn apply_to_current(state: &mut TuiState, op: EditOp)
    requires
        tui_wf(old(state)@),
    ensures
        tui_wf(final(state)@),
        final(state)@ == spec_apply(old(state)@, op),
{
    let idx = state.tabs.current;
    if idx >= state.tabs.tabs.len() {
        proof {
            assert(state@ =~= old(state)@);
        }
        return ;
    }
    let ghost e0 = old(state)@.tabs.tabs[idx as int];
    let ed = &mut state.tabs.tabs[idx].state;
    proof {
        assert(ed@ == e0);
    }
    match op {
        EditOp::InsertChar(c) => {
            let n = rope_len_chars(&ed.buffer);
            if n < usize::MAX {
                if c == '\n' {
                    EditorView::insert_newline(ed);
                } else {
                    EditorView::insert_char(ed, c);
                }
            }
        },
        EditOp::InsertNewline => {
            let n = rope_len_chars(&ed.buffer);
            if n < usize::MAX {
                EditorView::insert_newline(ed);
            }
        },
        EditOp::Backspace => {
            EditorView::backspace(ed);
        },
        EditOp::MoveLeft => {
            EditorView::move_left(ed);
        },
        EditOp::MoveRight => {
            EditorView::move_right(ed);
        },
        EditOp::MoveUp => {
            EditorView::move_up(ed);
        },
        EditOp::MoveDown(h) => {
            if h >= 1 {
                EditorView::move_down(ed, h);
            }
        },
        EditOp::Undo => {
            EditorView::undo(ed);
        },
        EditOp::Redo => {
            EditorView::redo(ed);
        },
        EditOp::SearchNext => {
            let n = rope_len_chars(&ed.buffer);
            if n < usize::MAX {
                EditorView::search_next(ed);
            }
        },
        EditOp::SearchPrev => {
            let n = rope_len_chars(&ed.buffer);
            if n < usize::MAX {
                EditorView::search_prev(ed);
            }
        },
        EditOp::SearchText(q) => {
            EditorView::search_text(ed, q.as_str());
        },
        EditOp::GotoLine(n) => {
            EditorView::goto_line(ed, n);
        },
        EditOp::SetMode(m) => {
            ed.mode = m;
            proof {
                assert(ed@ =~= (EdView { mode: m, ..e0 }));
            }
        },
        EditOp::SetModeClearCmd(m) => {
            ed.mode = m;
            ed.cmdline = String::new();
            proof {
                assert(ed@ =~= (EdView { mode: m, cmdline: Seq::empty(), ..e0 }));
            }
        },
        EditOp::CmdlinePush(c) => {
            let n = ed.cmdline.unicode_len();
            if n < usize::MAX {
                crate::util::string_push(&mut ed.cmdline, c);
                proof {
                    assert(ed@ =~= (EdView { cmdline: e0.cmdline.push(c), ..e0 }));
                }
            }
        },
        EditOp::CmdlinePop => {
            let n = ed.cmdline.unicode_len();
            if n > 0 {
                let t = String::from_str(ed.cmdline.as_str().substring_char(0, n - 1));
                ed.cmdline = t;
                proof {
                    assert(ed@ =~= (EdView { cmdline: e0.cmdline.drop_last(), ..e0 }));
                }
            }
        },
    }
    proof {
        let tv = tabs_seq_view(state.tabs.tabs@);
        let pre = old(state)@.tabs.tabs;
        assert forall|k: int| 0 <= k < tv.len() implies tv[k] == pre.update(
            idx as int,
            spec_edit_op(e0, op),
        )[k] by {
            if k != idx {
                assert(state.tabs.tabs@[k] == old(state).tabs.tabs@[k]);
            }
        }
        assert(tv =~= pre.update(idx as int, spec_edit_op(e0, op)));
        assert(state@ =~= (TuiView {
            tabs: TabsView { tabs: pre.update(idx as int, spec_edit_op(e0, op)), current: idx as int },
            ..old(state)@
        }));
    }
}

/// What the home screen's shortcuts do.
pub open spec fn spec_home_step(v: TuiView, key: KeyEvent) -> TuiView {
    match key.code {
        Key::Char(c) => if c == '1' {
            TuiView { screen: Screen::Shell, ..v }
        } else if c == '2' {
            TuiView { screen: Screen::Shell, show_logs: true, ..v }
        } else if c == '3' {
            TuiView { screen: Screen::Shell, overlay: Overlay::Help, ..v }
        } else if c == '5' {
            TuiView { screen: Screen::Workspace, focus: Focus::Explorer, ..v }
        } else if c == '4' || c == 'q' {
            TuiView { running: false, ..v }
        } else {
            v
        },
        _ => v,
    }
}

fn handle_home(state: &mut TuiState, key: KeyEvent)
    requires
        tui_wf(old(state)@),
    ensures
        tui_wf(final(state)@),
        final(state)@ == spec_home_step(old(state)@, key),
{
    match key.code {
        Key::Char(c) => {
            if c == '1' {
                state.screen = Screen::Shell;
            } else if c == '2' {
                state.screen = Screen::Shell;
                state.show_logs = true;
            } else if c == '3' {
                state.screen = Screen::Shell;
                state.overlay = Overlay::Help;
            } else if c == '5' {
                state.screen = Screen::Workspace;
                state.focus = Focus::Explorer;
            } else if c == '4' || c == 'q' {
                state.running = false;
            }
        },
        _ => {},
    }
    proof {
        assert(state@ =~= spec_home_step(old(state)@, key));
    }
}

/// One character appended to the overlay's buffer (unchanged at the
/// machine's length limit, or without an overlay).
pub open spec fn spec_overlay_push(v: TuiView, c: char) -> TuiView {
    match v.overlay_input {
        Some((k, b)) => if b.len() < usize::MAX {
            TuiView { overlay_input: Some((k, b.push(c))), ..v }
        } else {
            v
        },
        None => v,
    }
}

/// The last character of the overlay's buffer dropped.
pub open spec fn spec_overlay_pop(v: TuiView) -> TuiView {
    match v.overlay_input {
        Some((k, b)) => if b.len() > 0 {
            TuiView { overlay_input: Some((k, b.drop_last())), ..v }
        } else {
            v
        },
        None => v,
    }
}

/// Append one character to the overlay's buffer.
fn overlay_push(state: &mut TuiState, c: char)
    requires
        tui_wf(old(state)@),
    ensures
        tui_wf(final(state)@),
        final(state)@ == spec_overlay_push(old(state)@, c),
        final(state)@.overlay == old(state)@.overlay,
{
    match &mut state.overlay_input {
        Some(inp) => {
            let n = inp.buffer.unicode_len();
            if n < usize::MAX {
                crate::util::string_push(&mut inp.buffer, c);
            }
        },
        None => {},
    }
    proof {
        assert(state@ =~= spec_overlay_push(old(state)@, c));
    }
}

/// Drop the last character of the overlay's buffer.
fn overlay_pop(state: &mut TuiState)
    requires
        tui_wf(old(state)@),
    ensures
        tui_wf(final(state)@),
        final(state)@ == spec_overlay_pop(old(state)@),
        final(state)@.overlay == old(state)@.overlay,
{
    match &mut state.overlay_input {
        Some(inp) => {
            let n = inp.buffer.unicode_len();
            if n > 0 {
                let t = String::from_str(inp.buffer.as_str().substring_char(0, n - 1));
                inp.buffer = t;
                proof {
                    assert(old(state)@.overlay_input matches Some((k, b)) && inp.buffer@
                        =~= b.drop_last());
                }
            }
        },
        None => {},
    }
    proof {
        assert(state@ =~= spec_overlay_pop(old(state)@));
    }
}

/// The modal input overlay opened for a request kind.
pub open spec fn spec_open_overlay(v: TuiView, kind: InputKind) -> TuiView {
    TuiView { overlay: Overlay::Input, overlay_input: Some((kind, Seq::empty())), ..v }
}

/// What saving the shown document asks for: nothing without a tab or a
/// path, else a write of the exact text.
pub open spec fn spec_save_act(v: TuiView) -> ActView {
    if !has_current(v.tabs) {
        ActView::Idle
    } else {
        match cur_tab(v).path {
            Some(p) => ActView::Save(p, cur_tab(v).text),
            None => ActView::Idle,
        }
    }
}

/// Confirming the input overlay: it closes, and the request kind
/// dispatches over the (trimmed) buffer — a create, rename or delete
/// request for the caller, or a search or line jump applied to the shown
/// document.
pub open spec fn spec_confirm_overlay(v: TuiView) -> (TuiView, ActView) {
    match v.overlay_input {
        None => (TuiView { overlay: Overlay::Off, ..v }, ActView::Idle),
        Some((kind, buf)) => {
            let v1 = TuiView { overlay: Overlay::Off, overlay_input: None, ..v };
            let t = trim_of(buf);
            match kind {
                InputKind::NewEntry => if t.len() == 0 {
                    (v1, ActView::Idle)
                } else {
                    (v1, ActView::FsCreate(join_of(v.explorer.cwd, t)))
                },
                InputKind::RenameEntry => if v.explorer.entries.len() == 0 {
                    (v1, ActView::Idle)
                } else {
                    let e = v.explorer.entries[v.explorer.selected];
                    if e.name == ".."@ || t.len() == 0 {
                        (v1, ActView::Idle)
                    } else {
                        (
                            v1,
                            ActView::FsRename(
                                join_of(v.explorer.cwd, e.name),
                                join_of(v.explorer.cwd, t),
                            ),
                        )
                    }
                },
                InputKind::DeleteConfirm => {
                    let yes = t.len() == 1 && (t[0] == 'y' || t[0] == 'Y');
                    if !yes || v.explorer.entries.len() == 0 {
                        (v1, ActView::Idle)
                    } else {
                        let e = v.explorer.entries[v.explorer.selected];
                        if e.name == ".."@ {
                            (v1, ActView::Idle)
                        } else {
                            (v1, ActView::FsDelete(join_of(v.explorer.cwd, e.name), e.is_dir))
                        }
                    }
                },
                InputKind::SearchText => if has_current(v1.tabs) {
                    (with_current(v1, spec_search_text(cur_tab(v1), buf)), ActView::Idle)
                } else {
                    (v1, ActView::Idle)
                },
                InputKind::GotoLine => if t.len() > 0 && all_digits(t) && dec_val(t)
                    <= usize::MAX {
                    if has_current(v1.tabs) {
                        (with_current(v1, spec_goto_line(cur_tab(v1), dec_val(t))), ActView::Idle)
                    } else {
                        (v1, ActView::Idle)
                    }
                } else {
                    (v1, ActView::Idle)
                },
            }
        },
    }
}

/// The selected explorer entry's name and directory flag, if any.
fn selected_entry(state: &TuiState) -> (r: Option<(String, bool)>)
    requires
        tui_wf(state@),
    ensures
        match r {
            Some(p) => state@.explorer.entries.len() > 0 && p.0@ == state@.explorer.entries[state@.explorer.selected].name
                && p.1 == state@.explorer.entries[state@.explorer.selected].is_dir,
            None => state@.explorer.entries.len() == 0,
        },
{
    if state.explorer.entries.len() == 0 {
        return None;
    }
    let e = &state.explorer.entries[state.explorer.selected];
    Some((e.name.clone(), e.is_dir))
}

/// Confirm the input overlay: dispatch its request and clear it.
fn confirm_overlay(state: &mut TuiState) -> (r: Action)
    requires
        tui_wf(old(state)@),
    ensures
        tui_wf(final(state)@),
        final(state)@.overlay == Overlay::Off,
        final(state)@.overlay_input is None,
        final(state)@ == spec_confirm_overlay(old(state)@).0,
        action_view(r) == spec_confirm_overlay(old(state)@).1,
{
    let ghost pre = state@;
    let inp = match state.overlay_input.take() {
        Some(inp) => inp,
        None => {
            state.overlay = Overlay::Off;
            proof {
                assert(state@ =~= spec_confirm_overlay(pre).0);
            }
            return Action::Idle;
        },
    };
    state.overlay = Overlay::Off;
    proof {
        assert(state@ =~= (TuiView { overlay: Overlay::Off, overlay_input: None, ..pre }));
    }
    let bv = chars_of(inp.buffer.as_str());
    let tv = trim_chars(&bv);
    match inp.kind {
        InputKind::NewEntry => {
            if tv.len() == 0 {
                Action::Idle
            } else {
                let name = string_from_chars(&tv);
                let path = join_path(state.explorer.cwd.as_str(), name.as_str());
                Action::FsCreate(path)
            }
        },
        InputKind::RenameEntry => {
            match selected_entry(state) {
                Some((name, _)) => {
                    if name == String::from_str("..") || tv.len() == 0 {
                        Action::Idle
                    } else {
                        let from = join_path(state.explorer.cwd.as_str(), name.as_str());
                        let newname = string_from_chars(&tv);
                        let to = join_path(state.explorer.cwd.as_str(), newname.as_str());
                        Action::FsRename(from, to)
                    }
                },
                None => Action::Idle,
            }
        },
        InputKind::DeleteConfirm => {
            let yes = if tv.len() == 1 {
                tv[0] == 'y' || tv[0] == 'Y'
            } else {
                false
            };
            if !yes {
                return Action::Idle;
            }
            match selected_entry(state) {
                Some((name, is_dir)) => {
                    if name == String::from_str("..") {
                        Action::Idle
                    } else {
                        let path = join_path(state.explorer.cwd.as_str(), name.as_str());
                        Action::FsDelete(path, is_dir)
                    }
                },
                None => Action::Idle,
            }
        },
        InputKind::SearchText => {
            let q = string_from_chars(&bv);
            apply_to_current(state, EditOp::SearchText(q));
            proof {
                assert(state@ =~= spec_confirm_overlay(pre).0);
            }
            Action::Idle
        },
        InputKind::GotoLine => {
            match parse_usize(&tv) {
                Some(n) => {
                    apply_to_current(state, EditOp::GotoLine(n));
                    proof {
                        assert(state@ =~= spec_confirm_overlay(pre).0);
                    }
                },
                None => {},
            }
            Action::Idle
        },
    }
}

/// Open the modal input overlay for a request kind.
fn open_overlay(state: &mut TuiState, kind: InputKind)
    requires
        tui_wf(old(state)@),
    ensures
        tui_wf(final(state)@),
        final(state)@ == (TuiView {
            overlay: Overlay::Input,
            overlay_input: Some((kind, Seq::empty())),
            ..old(state)@
        }),
{
    state.overlay = Overlay::Input;
    state.overlay_input = Some(InputOverlay { kind, buffer: String::new() });
    proof {
        assert(state@ =~= (TuiView {
            overlay: Overlay::Input,
            overlay_input: Some((kind, Seq::empty())),
            ..old(state)@
        }));
    }
}

/// What one key does on the explorer (either the dedicated screen, or
/// the workspace pane, where Tab hands focus to the editor).
pub open spec fn spec_explorer_step(v: TuiView, key: KeyEvent, in_workspace: bool) -> (
    TuiView,
    ActView,
) {
    match key.code {
        Key::Char(c) => if c == 'j' {
            (TuiView { explorer: spec_exp_move_down(v.explorer), ..v }, ActView::Idle)
        } else if c == 'k' {
            (TuiView { explorer: spec_exp_move_up(v.explorer), ..v }, ActView::Idle)
        } else if c == 'h' {
            (TuiView { explorer: spec_exp_go_up(v.explorer), ..v }, ActView::Refresh)
        } else if c == 'N' {
            (spec_open_overlay(v, InputKind::NewEntry), ActView::Idle)
        } else if c == 'R' {
            (spec_open_overlay(v, InputKind::RenameEntry), ActView::Idle)
        } else if c == '.' {
            (
                TuiView {
                    explorer: ExplorerView {
                        show_hidden: !v.explorer.show_hidden,
                        ..v.explorer
                    },
                    ..v
                },
                ActView::Refresh,
            )
        } else if c == 'l' {
            spec_activate_selected(v, in_workspace)
        } else if c == 'q' {
            (TuiView { screen: Screen::Home, ..v }, ActView::Idle)
        } else {
            (v, ActView::Idle)
        },
        Key::Down => (TuiView { explorer: spec_exp_move_down(v.explorer), ..v }, ActView::Idle),
        Key::Up => (TuiView { explorer: spec_exp_move_up(v.explorer), ..v }, ActView::Idle),
        Key::Backspace => (TuiView { explorer: spec_exp_go_up(v.explorer), ..v }, ActView::Refresh),
        Key::Delete => (spec_open_overlay(v, InputKind::DeleteConfirm), ActView::Idle),
        Key::Enter => spec_activate_selected(v, in_workspace),
        Key::Esc => (TuiView { screen: Screen::Home, ..v }, ActView::Idle),
        Key::Tab => if in_workspace {
            (TuiView { focus: Focus::Editor, ..v }, ActView::Idle)
        } else {
            (v, ActView::Idle)
        },
        _ => (v, ActView::Idle),
    }
}

/// Keys shared by the explorer screen and the workspace's explorer pane.
fn handle_explorer_keys(state: &mut TuiState, key: KeyEvent, in_workspace: bool) -> (r: Action)
    requires
        tui_wf(old(state)@),
    ensures
        tui_wf(final(state)@),
        final(state)@ == spec_explorer_step(old(state)@, key, in_workspace).0,
        action_view(r) == spec_explorer_step(old(state)@, key, in_workspace).1,
{
    let r = match key.code {
        Key::Char(c) => {
            if c == 'j' {
                FileExplorerView::move_down(&mut state.explorer);
                Action::Idle
            } else if c == 'k' {
                FileExplorerView::move_up(&mut state.explorer);
                Action::Idle
            } else if c == 'h' {
                FileExplorerView::go_up(&mut state.explorer);
                Action::Refresh
            } else if c == 'N' {
                open_overlay(state, InputKind::NewEntry);
                Action::Idle
            } else if c == 'R' {
                open_overlay(state, InputKind::RenameEntry);
                Action::Idle
            } else if c == '.' {
                state.explorer.show_hidden = !state.explorer.show_hidden;
                Action::Refresh
            } else if c == 'l' {
                activate_selected(state, in_workspace)
            } else if c == 'q' {
                state.screen = Screen::Home;
                Action::Idle
            } else {
                Action::Idle
            }
        },
        Key::Down => {
            FileExplorerView::move_down(&mut state.explorer);
            Action::Idle
        },
        Key::Up => {
            FileExplorerView::move_up(&mut state.explorer);
            Action::Idle
        },
        Key::Backspace => {
            FileExplorerView::go_up(&mut state.explorer);
            Action::Refresh
        },
        Key::Delete => {
            open_overlay(state, InputKind::DeleteConfirm);
            Action::Idle
        },
        Key::Enter => activate_selected(state, in_workspace),
        Key::Esc => {
            state.screen = Screen::Home;
            Action::Idle
        },
        Key::Tab => {
            if in_workspace {
                state.focus = Focus::Editor;
            }
            Action::Idle
        },
        _ => Action::Idle,
    };
    proof {
        assert(state@ =~= spec_explorer_step(old(state)@, key, in_workspace).0);
    }
    r
}

/// Activating the selected entry at the session level: a confined file
/// path becomes an open request and the editor takes focus (entering the
/// workspace from the plain explorer screen); anything else asks for a
/// fresh listing.
pub open spec fn spec_activate_selected(v: TuiView, in_workspace: bool) -> (TuiView, ActView) {
    let x2 = spec_activate(v.explorer).0;
    match spec_activate(v.explorer).1 {
        Some(p) => (
            TuiView {
                explorer: x2,
                screen: if in_workspace {
                    v.screen
                } else {
                    Screen::Workspace
                },
                focus: Focus::Editor,
                ..v
            },
            ActView::OpenPath(p),
        ),
        None => (TuiView { explorer: x2, ..v }, ActView::Refresh),
    }
}

/// Activate the selected entry; a file's confined path comes back as an
/// open request and the editor takes focus.
fn activate_selected(state: &mut TuiState, in_workspace: bool) -> (r: Action)
    requires
        tui_wf(old(state)@),
    ensures
        tui_wf(final(state)@),
        final(state)@ == spec_activate_selected(old(state)@, in_workspace).0,
        action_view(r) == spec_activate_selected(old(state)@, in_workspace).1,
{
    match FileExplorerView::activate(&mut state.explorer) {
        Some(path) => {
            if !in_workspace {
                state.screen = Screen::Workspace;
            }
            state.focus = Focus::Editor;
            proof {
                assert(state@ =~= spec_activate_selected(old(state)@, in_workspace).0);
            }
            Action::OpenPath(path)
        },
        None => {
            proof {
                assert(state@ =~= spec_activate_selected(old(state)@, in_workspace).0);
            }
            Action::Refresh
        },
    }
}

/// What one key does on the workspace's editor pane: tab navigation and
/// save under Ctrl/Alt/F-keys, plain keys edit the shown document, and
/// Tab or Esc hand focus back to the explorer.
pub open spec fn spec_workspace_editor_step(v: TuiView, key: KeyEvent, h: usize) -> (
    TuiView,
    ActView,
) {
    if key.ctrl {
        match key.code {
            Key::Char(c) => if c == 's' {
                (v, spec_save_act(v))
            } else if c == 'z' {
                (spec_apply(v, EditOp::Undo), ActView::Idle)
            } else if c == 'y' {
                (spec_apply(v, EditOp::Redo), ActView::Idle)
            } else if c == 'w' {
                let v2 = TuiView { tabs: spec_tabs_close(v.tabs), ..v };
                (
                    if v2.tabs.tabs.len() == 0 {
                        TuiView { focus: Focus::Explorer, ..v2 }
                    } else {
                        v2
                    },
                    ActView::Idle,
                )
            } else {
                (v, ActView::Idle)
            },
            Key::PageDown => (TuiView { tabs: spec_tabs_next(v.tabs), ..v }, ActView::Idle),
            Key::PageUp => (TuiView { tabs: spec_tabs_prev(v.tabs), ..v }, ActView::Idle),
            Key::Tab => (TuiView { tabs: spec_tabs_next(v.tabs), ..v }, ActView::Idle),
            Key::BackTab => (TuiView { tabs: spec_tabs_prev(v.tabs), ..v }, ActView::Idle),
            _ => (v, ActView::Idle),
        }
    } else if key.alt {
        match key.code {
            Key::Left => (TuiView { tabs: spec_tabs_prev(v.tabs), ..v }, ActView::Idle),
            Key::Right => (TuiView { tabs: spec_tabs_next(v.tabs), ..v }, ActView::Idle),
            _ => (v, ActView::Idle),
        }
    } else {
        match key.code {
            Key::F(n) => if n == 5 {
                (TuiView { tabs: spec_tabs_prev(v.tabs), ..v }, ActView::Idle)
            } else if n == 6 {
                (TuiView { tabs: spec_tabs_next(v.tabs), ..v }, ActView::Idle)
            } else {
                (v, ActView::Idle)
            },
            Key::Left => (spec_apply(v, EditOp::MoveLeft), ActView::Idle),
            Key::Right => (spec_apply(v, EditOp::MoveRight), ActView::Idle),
            Key::Up => (spec_apply(v, EditOp::MoveUp), ActView::Idle),
            Key::Down => (spec_apply(v, EditOp::MoveDown(h)), ActView::Idle),
            Key::Backspace => (spec_apply(v, EditOp::Backspace), ActView::Idle),
            Key::Enter => (spec_apply(v, EditOp::InsertNewline), ActView::Idle),
            Key::Tab => (TuiView { focus: Focus::Explorer, ..v }, ActView::Idle),
            Key::Esc => (TuiView { focus: Focus::Explorer, ..v }, ActView::Idle),
            Key::Char(c) => (spec_apply(v, EditOp::InsertChar(c)), ActView::Idle),
            _ => (v, ActView::Idle),
        }
    }
}

/// Editing keys of the workspace's editor pane.
fn handle_workspace_editor(state: &mut TuiState, key: KeyEvent, visible_h: usize) -> (r: Action)
    requires
        tui_wf(old(state)@),
        visible_h >= 1,
    ensures
        tui_wf(final(state)@),
        final(state)@ == spec_workspace_editor_step(old(state)@, key, visible_h).0,
        action_view(r) == spec_workspace_editor_step(old(state)@, key, visible_h).1,
{
    if key.ctrl {
        match key.code {
            Key::Char(c) => {
                if c == 's' {
                    return save_current(state);
                } else if c == 'z' {
                    apply_to_current(state, EditOp::Undo);
                } else if c == 'y' {
                    apply_to_current(state, EditOp::Redo);
                } else if c == 'w' {
                    state.tabs.close_current();
                    if state.tabs.is_empty() {
                        state.focus = Focus::Explorer;
                    }
                }
            },
            Key::PageDown => state.tabs.next(),
            Key::PageUp => state.tabs.prev(),
            Key::Tab => state.tabs.next(),
            Key::BackTab => state.tabs.prev(),
            _ => {},
        }
        proof {
            assert(state@ =~= spec_workspace_editor_step(old(state)@, key, visible_h).0);
        }
        return Action::Idle;
    }
    if key.alt {
        match key.code {
            Key::Left => state.tabs.prev(),
            Key::Right => state.tabs.next(),
            _ => {},
        }
        proof {
            assert(state@ =~= spec_workspace_editor_step(old(state)@, key, visible_h).0);
        }
        return Action::Idle;
    }
    let r = match key.code {
        Key::F(5) => {
            state.tabs.prev();
            Action::Idle
        },
        Key::F(6) => {
            state.tabs.next();
            Action::Idle
        },
        Key::Left => {
            apply_to_current(state, EditOp::MoveLeft);
            Action::Idle
        },
        Key::Right => {
            apply_to_current(state, EditOp::MoveRight);
            Action::Idle
        },
        Key::Up => {
            apply_to_current(state, EditOp::MoveUp);
            Action::Idle
        },
        Key::Down => {
            apply_to_current(state, EditOp::MoveDown(visible_h));
            Action::Idle
        },
        Key::Backspace => {
            apply_to_current(state, EditOp::Backspace);
            Action::Idle
        },
        Key::Enter => {
            apply_to_current(state, EditOp::InsertNewline);
            Action::Idle
        },
        Key::Tab => {
            state.focus = Focus::Explorer;
            Action::Idle
        },
        Key::Esc => {
            state.focus = Focus::Explorer;
            Action::Idle
        },
        Key::Char(c) => {
            apply_to_current(state, EditOp::InsertChar(c));
            Action::Idle
        },
        _ => Action::Idle,
    };
    proof {
        assert(state@ =~= spec_workspace_editor_step(old(state)@, key, visible_h).0);
    }
    r
}

/// What saving the shown document asks for.
fn save_current(state: &mut TuiState) -> (r: Action)
    requires
        tui_wf(old(state)@),
    ensures
        tui_wf(final(state)@),
        final(state)@ == old(state)@,
        action_view(r) == spec_save_act(old(state)@),
{
    let idx = state.tabs.current;
    if idx >= state.tabs.tabs.len() {
        return Action::Idle;
    }
    match EditorView::save(&state.tabs.tabs[idx].state) {
        Ok(req) => Action::Save(req),
        Err(_) => Action::Idle,
    }
}

/// `s` without its leading colons.
pub open spec fn strip_colons(s: Seq<char>) -> Seq<char>
    decreases s.len(),
{
    if s.len() > 0 && s.first() == ':' {
        strip_colons(s.drop_first())
    } else {
        s
    }
}

proof fn lemma_strip_colons_is(s: Seq<char>, lo: int)
    requires
        0 <= lo <= s.len(),
        forall|k: int| 0 <= k < lo ==> s[k] == ':',
        lo < s.len() ==> s[lo] != ':',
    ensures
        strip_colons(s) == s.skip(lo),
    decreases lo,
{
    if lo == 0 {
        assert(s.skip(0) =~= s);
    } else {
        assert(s.drop_first() =~= s.skip(1));
        lemma_strip_colons_is(s.skip(1), lo - 1);
        assert(s.skip(1).skip(lo - 1) =~= s.skip(lo));
    }
}

fn strip_colons_exec(v: &Vec<char>) -> (r: Vec<char>)
    ensures
        r@ == strip_colons(v@),
{
    let n = v.len();
    let mut lo: usize = 0;
    while lo < n && v[lo] == ':'
        invariant
            lo <= n,
            n == v@.len(),
            forall|k: int| 0 <= k < lo ==> v@[k] == ':',
        decreases n - lo,
    {
        lo += 1;
    }
    proof {
        lemma_strip_colons_is(v@, lo as int);
    }
    let mut out: Vec<char> = Vec::new();
    let mut i: usize = lo;
    while i < n
        invariant
            lo <= i <= n,
            n == v@.len(),
            out@ == v@.subrange(lo as int, i as int),
        decreases n - i,
    {
        out.push(v[i]);
        proof {
            assert(v@.subrange(lo as int, i + 1) =~= v@.subrange(lo as int, i as int).push(
                v@[i as int],
            ));
        }
        i += 1;
    }
    proof {
        assert(v@.subrange(lo as int, n as int) =~= v@.skip(lo as int));
    }
    out
}

/// What a `:`-prefixed command does: quit, the sticky log toggle, the
/// ephemeral help toggle, clearing the logs, or an unknown-command note.
pub open spec fn spec_tui_command(v: TuiView, input: Seq<char>) -> TuiView {
    let cmd = trim_of(strip_colons(input));
    if cmd == "q"@ || cmd == "quit"@ {
        TuiView { running: false, logs: spec_log_add(v.logs, "Quit requested."@), ..v }
    } else if cmd == "l"@ || cmd == "logs"@ {
        TuiView {
            show_logs: !v.show_logs,
            logs: spec_log_add(
                v.logs,
                if !v.show_logs {
                    "Logs opened."@
                } else {
                    "Logs closed."@
                },
            ),
            ..v
        }
    } else if cmd == "h"@ || cmd == "help"@ {
        TuiView {
            overlay: if v.overlay == Overlay::Off {
                Overlay::Help
            } else {
                Overlay::Off
            },
            overlay_input: None,
            logs: spec_log_add(v.logs, "Help toggled."@),
            ..v
        }
    } else if cmd == "clear"@ {
        TuiView { logs: spec_log_add(spec_log_clear(v.logs), "Logs cleared."@), ..v }
    } else {
        TuiView { logs: spec_log_add(v.logs, "Unknown TUI command: :"@ + cmd), ..v }
    }
}

/// Handles the `:`-prefixed mini-language of the shell screen.
pub struct TuiCommandHandler;

impl TuiCommandHandler {
    /// Execute a `:`-prefixed command against the session state.
    pub fn execute(state: &mut TuiState, input: &str)
        requires
            tui_wf(old(state)@),
        ensures
            tui_wf(final(state)@),
            final(state)@ == spec_tui_command(old(state)@, input@),
    {
        let iv = chars_of(input);
        let sv = strip_colons_exec(&iv);
        let cv = trim_chars(&sv);
        let cmd = string_from_chars(&cv);
        if cmd == String::from_str("q") || cmd == String::from_str("quit") {
            state.logs.add(String::from_str("Quit requested."));
            state.running = false;
        } else if cmd == String::from_str("l") || cmd == String::from_str("logs") {
            state.show_logs = !state.show_logs;
            if state.show_logs {
                state.logs.add(String::from_str("Logs opened."));
            } else {
                state.logs.add(String::from_str("Logs closed."));
            }
        } else if cmd == String::from_str("h") || cmd == String::from_str("help") {
            state.overlay = if state.overlay == Overlay::Off {
                Overlay::Help
            } else {
                Overlay::Off
            };
            state.overlay_input = None;
            state.logs.add(String::from_str("Help toggled."));
        } else if cmd == String::from_str("clear") {
            state.logs.clear();
            state.logs.add(String::from_str("Logs cleared."));
        } else {
            let msg = String::from_str("Unknown TUI command: :").concat(cmd.as_str());
            state.logs.add(msg);
        }
        proof {
            if trim_of(strip_colons(input@)) == "clear"@ && !(trim_of(strip_colons(input@))
                == "q"@ || trim_of(strip_colons(input@)) == "quit"@) && !(trim_of(
                strip_colons(input@),
            ) == "l"@ || trim_of(strip_colons(input@)) == "logs"@) && !(trim_of(
                strip_colons(input@),
            ) == "h"@ || trim_of(strip_colons(input@)) == "help"@) {
                assert(state@.logs.entries =~= seq!["Logs cleared."@]);
            }
            assert(state@ =~= spec_tui_command(old(state)@, input@));
        }
    }
}

/// Editing keys of the dedicated editor screen, with its Normal, Insert
/// and Command sub-modes.
/// Running the editor's `:`-command line: `q` leaves for the workspace,
/// `w` saves, `wq` does both, `e <path>` asks to open a file; the command
/// sub-mode always resets to Normal with the line cleared.
pub open spec fn spec_cmdline_enter(v: TuiView) -> (TuiView, ActView) {
    let t = trim_of(cur_tab(v).cmdline);
    if t.len() == 1 && t[0] == 'q' {
        (
            spec_apply(
                TuiView { screen: Screen::Workspace, focus: Focus::Explorer, ..v },
                EditOp::SetModeClearCmd(EditorMode::Normal),
            ),
            ActView::Idle,
        )
    } else if t.len() == 1 && t[0] == 'w' {
        (spec_apply(v, EditOp::SetModeClearCmd(EditorMode::Normal)), spec_save_act(v))
    } else if t.len() == 2 && t[0] == 'w' && t[1] == 'q' {
        (
            spec_apply(
                TuiView { screen: Screen::Workspace, focus: Focus::Explorer, ..v },
                EditOp::SetModeClearCmd(EditorMode::Normal),
            ),
            spec_save_act(v),
        )
    } else if t.len() >= 2 && t[0] == 'e' && t[1] == ' ' {
        let p = trim_of(t.skip(2));
        (
            spec_apply(v, EditOp::SetModeClearCmd(EditorMode::Normal)),
            if p.len() > 0 {
                ActView::OpenPath(p)
            } else {
                ActView::Idle
            },
        )
    } else {
        (spec_apply(v, EditOp::SetModeClearCmd(EditorMode::Normal)), ActView::Idle)
    }
}

/// What one key does on the dedicated editor screen, by sub-mode: Normal
/// switches modes, moves and searches; Insert edits; Command edits and
/// runs the `:` line; Ctrl/Alt/F-keys save and navigate tabs.
pub open spec fn spec_editor_screen_step(v: TuiView, key: KeyEvent, h: usize) -> (
    TuiView,
    ActView,
) {
    if key.ctrl {
        match key.code {
            Key::Char(c) => if c == 's' {
                (v, spec_save_act(v))
            } else if c == 'z' {
                (spec_apply(v, EditOp::Undo), ActView::Idle)
            } else if c == 'y' {
                (spec_apply(v, EditOp::Redo), ActView::Idle)
            } else if c == 'f' {
                (spec_open_overlay(v, InputKind::SearchText), ActView::Idle)
            } else if c == 'g' {
                (spec_open_overlay(v, InputKind::GotoLine), ActView::Idle)
            } else if c == 'w' {
                let v2 = TuiView { tabs: spec_tabs_close(v.tabs), ..v };
                (
                    if v2.tabs.tabs.len() == 0 {
                        TuiView { screen: Screen::Workspace, focus: Focus::Explorer, ..v2 }
                    } else {
                        v2
                    },
                    ActView::Idle,
                )
            } else {
                (v, ActView::Idle)
            },
            Key::PageDown => (TuiView { tabs: spec_tabs_next(v.tabs), ..v }, ActView::Idle),
            Key::PageUp => (TuiView { tabs: spec_tabs_prev(v.tabs), ..v }, ActView::Idle),
            Key::Tab => (TuiView { tabs: spec_tabs_next(v.tabs), ..v }, ActView::Idle),
            Key::BackTab => (TuiView { tabs: spec_tabs_prev(v.tabs), ..v }, ActView::Idle),
            _ => (v, ActView::Idle),
        }
    } else if key.alt {
        match key.code {
            Key::Left => (TuiView { tabs: spec_tabs_prev(v.tabs), ..v }, ActView::Idle),
            Key::Right => (TuiView { tabs: spec_tabs_next(v.tabs), ..v }, ActView::Idle),
            _ => (v, ActView::Idle),
        }
    } else {
        match key.code {
            Key::F(n) => if n == 5 {
                (TuiView { tabs: spec_tabs_prev(v.tabs), ..v }, ActView::Idle)
            } else if n == 6 {
                (TuiView { tabs: spec_tabs_next(v.tabs), ..v }, ActView::Idle)
            } else {
                (v, ActView::Idle)
            },
            _ => if !has_current(v.tabs) {
                (v, ActView::Idle)
            } else {
                match cur_tab(v).mode {
                    EditorMode::Normal => match key.code {
                        Key::Char(c) => if c == 'i' {
                            (spec_apply(v, EditOp::SetMode(EditorMode::Insert)), ActView::Idle)
                        } else if c == ':' {
                            (
                                spec_apply(v, EditOp::SetModeClearCmd(EditorMode::Command)),
                                ActView::Idle,
                            )
                        } else if c == 'n' {
                            (spec_apply(v, EditOp::SearchNext), ActView::Idle)
                        } else if c == 'p' {
                            (spec_apply(v, EditOp::SearchPrev), ActView::Idle)
                        } else {
                            (v, ActView::Idle)
                        },
                        Key::Left => (spec_apply(v, EditOp::MoveLeft), ActView::Idle),
                        Key::Right => (spec_apply(v, EditOp::MoveRight), ActView::Idle),
                        Key::Up => (spec_apply(v, EditOp::MoveUp), ActView::Idle),
                        Key::Down => (spec_apply(v, EditOp::MoveDown(h)), ActView::Idle),
                        Key::Esc => (
                            TuiView { screen: Screen::Workspace, focus: Focus::Explorer, ..v },
                            ActView::Idle,
                        ),
                        Key::Tab => (
                            TuiView { screen: Screen::Workspace, focus: Focus::Explorer, ..v },
                            ActView::Idle,
                        ),
                        _ => (v, ActView::Idle),
                    },
                    EditorMode::Insert => match key.code {
                        Key::Esc => (spec_apply(v, EditOp::SetMode(EditorMode::Normal)), ActView::Idle),
                        Key::Enter => (spec_apply(v, EditOp::InsertNewline), ActView::Idle),
                        Key::Backspace => (spec_apply(v, EditOp::Backspace), ActView::Idle),
                        Key::Left => (spec_apply(v, EditOp::MoveLeft), ActView::Idle),
                        Key::Right => (spec_apply(v, EditOp::MoveRight), ActView::Idle),
                        Key::Up => (spec_apply(v, EditOp::MoveUp), ActView::Idle),
                        Key::Down => (spec_apply(v, EditOp::MoveDown(h)), ActView::Idle),
                        Key::Char(c) => (spec_apply(v, EditOp::InsertChar(c)), ActView::Idle),
                        _ => (v, ActView::Idle),
                    },
                    EditorMode::Command => match key.code {
                        Key::Enter => spec_cmdline_enter(v),
                        Key::Esc => (
                            spec_apply(v, EditOp::SetModeClearCmd(EditorMode::Normal)),
                            ActView::Idle,
                        ),
                        Key::Backspace => (spec_apply(v, EditOp::CmdlinePop), ActView::Idle),
                        Key::Char(c) => (spec_apply(v, EditOp::CmdlinePush(c)), ActView::Idle),
                        _ => (v, ActView::Idle),
                    },
                }
            },
        }
    }
}

fn handle_editor_screen(state: &mut TuiState, key: KeyEvent, visible_h: usize) -> (r: Action)
    requires
        tui_wf(old(state)@),
        visible_h >= 1,
    ensures
        tui_wf(final(state)@),
        final(state)@ == spec_editor_screen_step(old(state)@, key, visible_h).0,
        action_view(r) == spec_editor_screen_step(old(state)@, key, visible_h).1,
{
    if key.ctrl {
        match key.code {
            Key::Char(c) => {
                if c == 's' {
                    return save_current(state);
                } else if c == 'z' {
                    apply_to_current(state, EditOp::Undo);
                } else if c == 'y' {
                    apply_to_current(state, EditOp::Redo);
                } else if c == 'f' {
                    open_overlay(state, InputKind::SearchText);
                } else if c == 'g' {
                    open_overlay(state, InputKind::GotoLine);
                } else if c == 'w' {
                    state.tabs.close_current();
                    if state.tabs.is_empty() {
                        state.screen = Screen::Workspace;
                        state.focus = Focus::Explorer;
                    }
                }
            },
            Key::PageDown => state.tabs.next(),
            Key::PageUp => state.tabs.prev(),
            Key::Tab => state.tabs.next(),
            Key::BackTab => state.tabs.prev(),
            _ => {},
        }
        proof {
            assert(state@ =~= spec_editor_screen_step(old(state)@, key, visible_h).0);
        }
        return Action::Idle;
    }
    if key.alt {
        match key.code {
            Key::Left => state.tabs.prev(),
            Key::Right => state.tabs.next(),
            _ => {},
        }
        proof {
            assert(state@ =~= spec_editor_screen_step(old(state)@, key, visible_h).0);
        }
        return Action::Idle;
    }
    match key.code {
        Key::F(5) => {
            state.tabs.prev();
            proof {
                assert(state@ =~= spec_editor_screen_step(old(state)@, key, visible_h).0);
            }
            return Action::Idle;
        },
        Key::F(6) => {
            state.tabs.next();
            proof {
                assert(state@ =~= spec_editor_screen_step(old(state)@, key, visible_h).0);
            }
            return Action::Idle;
        },
        _ => {},
    }
    let idx = state.tabs.current;
    if idx >= state.tabs.tabs.len() {
        return Action::Idle;
    }
    let mode = state.tabs.tabs[idx].state.mode;
    let r = match mode {
        EditorMode::Normal => {
            match key.code {
                Key::Char(c) => {
                    if c == 'i' {
                        apply_to_current(state, EditOp::SetMode(EditorMode::Insert));
                    } else if c == ':' {
                        apply_to_current(state, EditOp::SetModeClearCmd(EditorMode::Command));
                    } else if c == 'n' {
                        apply_to_current(state, EditOp::SearchNext);
                    } else if c == 'p' {
                        apply_to_current(state, EditOp::SearchPrev);
                    }
                    Action::Idle
                },
                Key::Left => {
                    apply_to_current(state, EditOp::MoveLeft);
                    Action::Idle
                },
                Key::Right => {
                    apply_to_current(state, EditOp::MoveRight);
                    Action::Idle
                },
                Key::Up => {
                    apply_to_current(state, EditOp::MoveUp);
                    Action::Idle
                },
                Key::Down => {
                    apply_to_current(state, EditOp::MoveDown(visible_h));
                    Action::Idle
                },
                Key::Esc => {
                    state.screen = Screen::Workspace;
                    state.focus = Focus::Explorer;
                    Action::Idle
                },
                Key::Tab => {
                    state.screen = Screen::Workspace;
                    state.focus = Focus::Explorer;
                    Action::Idle
                },
                _ => Action::Idle,
            }
        },
        EditorMode::Insert => {
            match key.code {
                Key::Esc => {
                    apply_to_current(state, EditOp::SetMode(EditorMode::Normal));
                    Action::Idle
                },
                Key::Enter => {
                    apply_to_current(state, EditOp::InsertNewline);
                    Action::Idle
                },
                Key::Backspace => {
                    apply_to_current(state, EditOp::Backspace);
                    Action::Idle
                },
                Key::Left => {
                    apply_to_current(state, EditOp::MoveLeft);
                    Action::Idle
                },
                Key::Right => {
                    apply_to_current(state, EditOp::MoveRight);
                    Action::Idle
                },
                Key::Up => {
                    apply_to_current(state, EditOp::MoveUp);
                    Action::Idle
                },
                Key::Down => {
                    apply_to_current(state, EditOp::MoveDown(visible_h));
                    Action::Idle
                },
                Key::Char(c) => {
                    apply_to_current(state, EditOp::InsertChar(c));
                    Action::Idle
                },
                _ => Action::Idle,
            }
        },
        EditorMode::Command => {
            match key.code {
                Key::Enter => {
                    let line = state.tabs.tabs[idx].state.cmdline.clone();
                    let lv = chars_of(line.as_str());
                    let tv = trim_chars(&lv);
                    let mut act = Action::Idle;
                    if tv.len() == 1 && tv[0] == 'q' {
                        state.screen = Screen::Workspace;
                        state.focus = Focus::Explorer;
                    } else if tv.len() == 1 && tv[0] == 'w' {
                        act = save_current(state);
                    } else if tv.len() == 2 && tv[0] == 'w' && tv[1] == 'q' {
                        act = save_current(state);
                        state.screen = Screen::Workspace;
                        state.focus = Focus::Explorer;
                    } else if tv.len() >= 2 && tv[0] == 'e' && tv[1] == ' ' {
                        let mut rest: Vec<char> = Vec::new();
                        let mut k: usize = 2;
                        while k < tv.len()
                            invariant
                                2 <= k <= tv@.len(),
                                rest@ == tv@.subrange(2, k as int),
                            decreases tv@.len() - k,
                        {
                            rest.push(tv[k]);
                            proof {
                                assert(tv@.subrange(2, k + 1) =~= tv@.subrange(2, k as int).push(
                                    tv@[k as int],
                                ));
                            }
                            k += 1;
                        }
                        let rt = trim_chars(&rest);
                        proof {
                            assert(rest@ =~= trim_of(old(state)@.tabs.tabs[idx as int].cmdline).skip(
                                2,
                            ));
                        }
                        if rt.len() > 0 {
                            act = Action::OpenPath(string_from_chars(&rt));
                        }
                    }
                    apply_to_current(state, EditOp::SetModeClearCmd(EditorMode::Normal));
                    act
                },
                Key::Esc => {
                    apply_to_current(state, EditOp::SetModeClearCmd(EditorMode::Normal));
                    Action::Idle
                },
                Key::Backspace => {
                    apply_to_current(state, EditOp::CmdlinePop);
                    Action::Idle
                },
                Key::Char(c) => {
                    apply_to_current(state, EditOp::CmdlinePush(c));
                    Action::Idle
                },
                _ => Action::Idle,
            }
        },
    };
    proof {
        assert(state@ =~= spec_editor_screen_step(old(state)@, key, visible_h).0);
    }
    r
}

/// Running the entered shell line: the `:` mini-language switches to the
/// workspace, opens a file or runs a session command; anything else is
/// echoed, recorded in the history, and handed out as a directory change
/// or a program run.  The input line always clears.
pub open spec fn spec_shell_enter(v: TuiView) -> (TuiView, ActView) {
    let line = trim_of(v.term.input);
    if line.len() > 0 && line[0] == ':' {
        if line == ":fs"@ || line == ":files"@ {
            (
                TuiView {
                    screen: Screen::Workspace,
                    focus: Focus::Explorer,
                    term: spec_term_clear_input(v.term),
                    ..v
                },
                ActView::Idle,
            )
        } else if line.len() >= 3 && line[1] == 'e' && line[2] == ' ' {
            let p = trim_of(line.skip(3));
            (
                TuiView { term: spec_term_clear_input(v.term), ..v },
                if p.len() > 0 {
                    ActView::OpenPath(p)
                } else {
                    ActView::Idle
                },
            )
        } else {
            let v2 = spec_tui_command(v, line);
            (TuiView { term: spec_term_clear_input(v2.term), ..v2 }, ActView::Idle)
        }
    } else if line.len() > 0 {
        let t2 = spec_term_push_history(spec_term_push_output(v.term, "$ "@ + line), line);
        let toks = ws_tokens(line);
        if toks.len() > 0 && toks[0] == "cd"@ {
            if toks.len() > 1 {
                (TuiView { term: spec_term_clear_input(t2), ..v }, ActView::ChangeDir(toks[1]))
            } else {
                (
                    TuiView {
                        term: spec_term_clear_input(
                            spec_term_push_output(t2, "usage: cd <path>"@),
                        ),
                        ..v
                    },
                    ActView::Idle,
                )
            }
        } else if toks.len() > 0 {
            (
                TuiView { term: spec_term_clear_input(t2), ..v },
                ActView::RunProgram(toks[0], toks.skip(1)),
            )
        } else {
            (TuiView { term: spec_term_clear_input(t2), ..v }, ActView::Idle)
        }
    } else {
        (TuiView { term: spec_term_clear_input(v.term), ..v }, ActView::Idle)
    }
}

/// What one key does on the shell screen: Esc quits, paging scrolls the
/// terminal (or, shifted, the logs), the editing and history keys act on
/// the input line, Enter runs it, and Ctrl+A/E/L follow as in the line
/// editor.
pub open spec fn spec_shell_step(v: TuiView, key: KeyEvent) -> (TuiView, ActView) {
    let step = match key.code {
        Key::Esc => (TuiView { running: false, ..v }, ActView::Idle),
        Key::PageUp => if v.show_logs && key.shift {
            (TuiView { logs: spec_log_scroll_up(v.logs), ..v }, ActView::Idle)
        } else {
            (TuiView { term: spec_term_scroll_up(v.term), ..v }, ActView::Idle)
        },
        Key::PageDown => if v.show_logs && key.shift {
            (TuiView { logs: spec_log_scroll_down(v.logs), ..v }, ActView::Idle)
        } else {
            (TuiView { term: spec_term_scroll_down(v.term), ..v }, ActView::Idle)
        },
        Key::Left => (TuiView { term: spec_term_move_left(v.term), ..v }, ActView::Idle),
        Key::Right => (TuiView { term: spec_term_move_right(v.term), ..v }, ActView::Idle),
        Key::Backspace => (TuiView { term: spec_term_backspace(v.term), ..v }, ActView::Idle),
        Key::Delete => (TuiView { term: spec_term_delete_forward(v.term), ..v }, ActView::Idle),
        Key::Home => (TuiView { term: spec_term_move_start(v.term), ..v }, ActView::Idle),
        Key::End => (TuiView { term: spec_term_move_end(v.term), ..v }, ActView::Idle),
        Key::Up => (TuiView { term: spec_term_history_up(v.term), ..v }, ActView::Idle),
        Key::Down => (TuiView { term: spec_term_history_down(v.term), ..v }, ActView::Idle),
        Key::Enter => spec_shell_enter(v),
        Key::Char(c) => (TuiView { term: spec_term_insert(v.term, c), ..v }, ActView::Idle),
        _ => (v, ActView::Idle),
    };
    let v1 = step.0;
    let v2 = if key.ctrl {
        match key.code {
            Key::Char(c) => if c == 'a' {
                TuiView { term: spec_term_move_start(v1.term), ..v1 }
            } else if c == 'e' {
                TuiView { term: spec_term_move_end(v1.term), ..v1 }
            } else if c == 'l' {
                TuiView { term: spec_term_clear_output(v1.term), ..v1 }
            } else {
                v1
            },
            _ => v1,
        }
    } else {
        v1
    };
    (v2, step.1)
}

/// The shell screen: line editing, history, scrolling, and execution.
fn handle_shell(state: &mut TuiState, key: KeyEvent) -> (r: Action)
    requires
        tui_wf(old(state)@),
    ensures
        tui_wf(final(state)@),
        final(state)@ == spec_shell_step(old(state)@, key).0,
        action_view(r) == spec_shell_step(old(state)@, key).1,
{
    let mut act = Action::Idle;
    match key.code {
        Key::Esc => {
            state.running = false;
        },
        Key::PageUp => {
            if state.show_logs && key.shift {
                state.logs.scroll_up();
            } else {
                state.term.scroll_up();
            }
        },
        Key::PageDown => {
            if state.show_logs && key.shift {
                state.logs.scroll_down();
            } else {
                state.term.scroll_down();
            }
        },
        Key::Left => state.term.move_left(),
        Key::Right => state.term.move_right(),
        Key::Backspace => state.term.backspace(),
        Key::Delete => state.term.delete_forward(),
        Key::Home => state.term.move_to_start(),
        Key::End => state.term.move_to_end(),
        Key::Up => state.term.history_up(),
        Key::Down => state.term.history_down(),
        Key::Enter => {
            act = shell_enter(state);
        },
        Key::Char(c) => state.term.insert_char(c),
        _ => {},
    }
    if key.ctrl {
        match key.code {
            Key::Char(c) => {
                if c == 'a' {
                    state.term.move_to_start();
                } else if c == 'e' {
                    state.term.move_to_end();
                } else if c == 'l' {
                    state.term.clear_output();
                }
            },
            _ => {},
        }
    }
    proof {
        assert(state@ =~= spec_shell_step(old(state)@, key).0);
    }
    act
}

/// Run the entered shell line: the `:` mini-language, or a command for
/// the caller to execute.
fn shell_enter(state: &mut TuiState) -> (r: Action)
    requires
        tui_wf(old(state)@),
    ensures
        tui_wf(final(state)@),
        final(state)@ == spec_shell_enter(old(state)@).0,
        action_view(r) == spec_shell_enter(old(state)@).1,
{
    let ghost gline = trim_of(old(state)@.term.input);
    let lv = chars_of(state.term.current_line());
    let tv = trim_chars(&lv);
    let line = string_from_chars(&tv);
    let mut act = Action::Idle;
    if tv.len() > 0 && tv[0] == ':' {
        let is_fs = line == String::from_str(":fs") || line == String::from_str(":files");
        if is_fs {
            state.screen = Screen::Workspace;
            state.focus = Focus::Explorer;
        } else if tv.len() >= 3 && tv[1] == 'e' && tv[2] == ' ' {
            let mut rest: Vec<char> = Vec::new();
            let mut k: usize = 3;
            while k < tv.len()
                invariant
                    3 <= k <= tv@.len(),
                    rest@ == tv@.subrange(3, k as int),
                decreases tv@.len() - k,
            {
                rest.push(tv[k]);
                proof {
                    assert(tv@.subrange(3, k + 1) =~= tv@.subrange(3, k as int).push(
                        tv@[k as int],
                    ));
                }
                k += 1;
            }
            let rt = trim_chars(&rest);
            proof {
                assert(rest@ =~= gline.skip(3));
            }
            if rt.len() > 0 {
                act = Action::OpenPath(string_from_chars(&rt));
            }
        } else {
            TuiCommandHandler::execute(state, line.as_str());
        }
    } else if tv.len() > 0 {
        let echo = String::from_str("$ ").concat(line.as_str());
        state.term.push_output(echo);
        state.term.push_history_if_new(line.as_str());
        let tokens = split_ws(&tv);
        let ghost gtoks = ws_tokens(gline);
        if tokens.len() > 0 {
            if tokens[0] == String::from_str("cd") {
                if tokens.len() > 1 {
                    act = Action::ChangeDir(tokens[1].clone());
                } else {
                    state.term.push_output(String::from_str("usage: cd <path>"));
                }
            } else {
                let cmd = tokens[0].clone();
                let mut args: Vec<String> = Vec::new();
                let mut k: usize = 1;
                while k < tokens.len()
                    invariant
                        1 <= k <= tokens@.len(),
                        gtoks == tokens@.map_values(|s: String| s@),
                        args@.map_values(|s: String| s@) == gtoks.subrange(1, k as int),
                    decreases tokens@.len() - k,
                {
                    proof {
                        assert(args@.map_values(|s: String| s@).len() == args@.len());
                        assert(args@.len() == k - 1);
                    }
                    args.push(tokens[k].clone());
                    proof {
                        let lhs = args@.map_values(|s: String| s@);
                        let rhs = gtoks.subrange(1, k + 1);
                        assert(args@.len() == k);
                        assert(args@[k - 1]@ == gtoks[k as int]);
                        assert forall|i: int| 0 <= i < lhs.len() implies lhs[i] == rhs[i] by {
                            if i < k - 1 {
                                assert(args@[i]@ == gtoks.subrange(1, k as int)[i]);
                            }
                        }
                        assert(lhs =~= rhs);
                    }
                    k += 1;
                }
                proof {
                    assert(args@.map_values(|s: String| s@) =~= gtoks.skip(1));
                }
                act = Action::RunProgram(cmd, args);
            }
        }
    }
    state.term.clear_input();
    proof {
        assert(state@ =~= spec_shell_enter(old(state)@).0);
    }
    act
}

/// Route one key event by precedence: the home screen's shortcuts, then
/// the ephemeral help overlay, then the modal input overlay, then the
/// active screen, and within the workspace the focused pane.  Every
/// combination has a defined outcome; unrecognized keys do nothing.
pub fn handle_key(state: &mut TuiState, key: KeyEvent, visible_h: usize) -> (r: Action)
    requires
        tui_wf(old(state)@),
        visible_h >= 1,
    ensures
        tui_wf(final(state)@),
        old(state)@.screen == Screen::Home ==> final(state)@ == spec_home_step(old(state)@, key)
            && r is Idle,
        old(state)@.screen != Screen::Home && old(state)@.overlay == Overlay::Help
            ==> final(state)@ == (TuiView { overlay: Overlay::Off, ..old(state)@ }) && r is Idle,
        old(state)@.screen != Screen::Home && old(state)@.overlay == Overlay::Input ==> match key.code {
            Key::Esc => final(state)@ == (TuiView {
                overlay: Overlay::Off,
                overlay_input: None,
                ..old(state)@
            }) && r is Idle,
            Key::Enter => final(state)@ == spec_confirm_overlay(old(state)@).0 && action_view(r)
                == spec_confirm_overlay(old(state)@).1,
            Key::Backspace => final(state)@ == spec_overlay_pop(old(state)@) && r is Idle,
            Key::Char(c) => final(state)@ == spec_overlay_push(old(state)@, c) && r is Idle,
            _ => final(state)@ == old(state)@ && r is Idle,
        },
        old(state)@.screen != Screen::Home && old(state)@.overlay == Overlay::Input && key.code
            != Key::Enter && key.code != Key::Esc ==> final(state)@.overlay == Overlay::Input,
        old(state)@.screen == Screen::Shell && old(state)@.overlay == Overlay::Off
            ==> final(state)@ == spec_shell_step(old(state)@, key).0 && action_view(r)
            == spec_shell_step(old(state)@, key).1,
        old(state)@.screen == Screen::Explorer && old(state)@.overlay == Overlay::Off
            ==> final(state)@ == spec_explorer_step(old(state)@, key, false).0 && action_view(r)
            == spec_explorer_step(old(state)@, key, false).1,
        old(state)@.screen == Screen::Workspace && old(state)@.overlay == Overlay::Off
            && old(state)@.focus == Focus::Explorer
            ==> final(state)@ == spec_explorer_step(old(state)@, key, true).0 && action_view(r)
            == spec_explorer_step(old(state)@, key, true).1,
        old(state)@.screen == Screen::Workspace && old(state)@.overlay == Overlay::Off
            && old(state)@.focus == Focus::Editor
            ==> final(state)@ == spec_workspace_editor_step(old(state)@, key, visible_h).0
            && action_view(r) == spec_workspace_editor_step(old(state)@, key, visible_h).1,
        old(state)@.screen == Screen::Editor && old(state)@.overlay == Overlay::Off
            ==> final(state)@ == spec_editor_screen_step(old(state)@, key, visible_h).0
            && action_view(r) == spec_editor_screen_step(old(state)@, key, visible_h).1,
{
    if state.screen == Screen::Home {
        handle_home(state, key);
        return Action::Idle;
    }
    if state.overlay == Overlay::Help {
        state.overlay = Overlay::Off;
        proof {
            assert(state@ =~= (TuiView { overlay: Overlay::Off, ..old(state)@ }));
        }
        return Action::Idle;
    }
    if state.overlay == Overlay::Input {
        return match key.code {
            Key::Esc => {
                state.overlay = Overlay::Off;
                state.overlay_input = None;
                proof {
                    assert(state@ =~= (TuiView {
                        overlay: Overlay::Off,
                        overlay_input: None,
                        ..old(state)@
                    }));
                }
                Action::Idle
            },
            Key::Backspace => {
                overlay_pop(state);
                Action::Idle
            },
            Key::Enter => confirm_overlay(state),
            Key::Char(c) => {
                overlay_push(state, c);
                Action::Idle
            },
            _ => Action::Idle,
        };
    }
    match state.screen {
        Screen::Explorer => handle_explorer_keys(state, key, false),
        Screen::Workspace => {
            match state.focus {
                Focus::Explorer => handle_explorer_keys(state, key, true),
                Focus::Editor => handle_workspace_editor(state, key, visible_h),
            }
        },
        Screen::Editor => handle_editor_screen(state, key, visible_h),
        Screen::Shell => handle_shell(state, key),
        Screen::Home => Action::Idle,
    }
}

} // verus!
