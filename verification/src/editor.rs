//! The text editing engine: one document, its cursor, scroll, undo/redo
//! history and search state, over a rope-backed buffer.

use vstd::prelude::*;
use crate::rope::{rope_text, rope_from_str, rope_clone, rope_to_string, rope_len_chars, rope_len_lines, rope_line_to_char, rope_line_chars, rope_insert_char, rope_remove};
use crate::text::{line_count, line_start, line_end, line_len, line_content, line_with_break,
    lemma_line_bounds, lemma_insert_char_in_line, lemma_insert_break_in_line,
    lemma_remove_char_in_line, lemma_remove_break_join, lemma_nl_count_le_len};
use crate::paths::{is_within, within_root};
use crate::util::chars_of;

verus! {

/// Editor interaction sub-modes.
#[derive(Clone, Copy, PartialEq, Eq, Structural, Debug)]
pub enum EditorMode {
    Normal,
    Insert,
    Command,
}

/// A saved copy of the editable state, for undo/redo.
pub struct EditorSnapshot {
    pub buffer: ropey::Rope,
    pub cursor_row: usize,
    pub cursor_col: usize,
    pub scroll_row: usize,
    pub dirty: bool,
}

/// One open document with its whole editing state.
pub struct EditorState {
    pub path: Option<String>,
    pub buffer: ropey::Rope,
    pub cursor_row: usize,
    pub cursor_col: usize,
    pub scroll_row: usize,
    pub mode: EditorMode,
    pub cmdline: String,
    pub dirty: bool,
    pub last_search: Option<String>,
    pub search_positions: Vec<(usize, usize)>,
    pub search_index: Option<usize>,
    pub undo_stack: Vec<EditorSnapshot>,
    pub redo_stack: Vec<EditorSnapshot>,
}

/// The mathematical content of a snapshot.
#[verifier::ext_equal]
pub ghost struct SnapView {
    pub text: Seq<char>,
    pub row: int,
    pub col: int,
    pub scroll: int,
    pub dirty: bool,
}

/// The mathematical content of an editor.
#[verifier::ext_equal]
pub ghost struct EdView {
    pub path: Option<Seq<char>>,
    pub text: Seq<char>,
    pub row: int,
    pub col: int,
    pub scroll: int,
    pub mode: EditorMode,
    pub cmdline: Seq<char>,
    pub dirty: bool,
    pub last_search: Option<Seq<char>>,
    pub matches: Seq<(int, int)>,
    pub match_idx: Option<int>,
    pub undo: Seq<SnapView>,
    pub redo: Seq<SnapView>,
}

impl View for EditorSnapshot {
    type V = SnapView;

    open spec fn view(&self) -> SnapView {
        SnapView {
            text: rope_text(self.buffer),
            row: self.cursor_row as int,
            col: self.cursor_col as int,
            scroll: self.scroll_row as int,
            dirty: self.dirty,
        }
    }
}

pub open spec fn opt_str_view(o: Option<String>) -> Option<Seq<char>> {
    match o {
        Some(s) => Some(s@),
        None => None,
    }
}

pub open spec fn snaps_view(v: Seq<EditorSnapshot>) -> Seq<SnapView> {
    v.map_values(|s: EditorSnapshot| s@)
}

impl View for EditorState {
    type V = EdView;

    open spec fn view(&self) -> EdView {
        EdView {
            path: opt_str_view(self.path),
            text: rope_text(self.buffer),
            row: self.cursor_row as int,
            col: self.cursor_col as int,
            scroll: self.scroll_row as int,
            mode: self.mode,
            cmdline: self.cmdline@,
            dirty: self.dirty,
            last_search: opt_str_view(self.last_search),
            matches: self.search_positions@.map_values(|p: (usize, usize)| (p.0 as int, p.1 as int)),
            match_idx: match self.search_index {
                Some(i) => Some(i as int),
                None => None,
            },
            undo: snaps_view(self.undo_stack@),
            redo: snaps_view(self.redo_stack@),
        }
    }
}

/// The cursor-bearing part of an editor, as a snapshot.
pub open spec fn cursor_view(e: EdView) -> SnapView {
    SnapView { text: e.text, row: e.row, col: e.col, scroll: e.scroll, dirty: e.dirty }
}

/// A snapshot is well formed when its cursor sits inside its text.
pub open spec fn snap_wf(s: SnapView) -> bool {
    &&& 0 <= s.row < line_count(s.text)
    &&& 0 <= s.col <= line_len(s.text, s.row)
    &&& 0 <= s.scroll
}

/// The bound on the undo history.
pub open spec fn undo_cap() -> nat {
    50
}

/// Editor well-formedness: cursor inside the text, history bounded and
/// itself well formed, search state inside the text.
pub open spec fn ed_wf(e: EdView) -> bool {
    &&& snap_wf(cursor_view(e))
    &&& e.undo.len() <= undo_cap()
    &&& forall|i: int| 0 <= i < e.undo.len() ==> snap_wf(#[trigger] e.undo[i])
    &&& forall|i: int| 0 <= i < e.redo.len() ==> snap_wf(#[trigger] e.redo[i])
    &&& forall|i: int|
        0 <= i < e.matches.len() ==> 0 <= (#[trigger] e.matches[i]).0 < line_count(e.text)
            && 0 <= e.matches[i].1
    &&& match e.match_idx {
        Some(k) => 0 <= k < e.matches.len(),
        None => true,
    }
}

/// A fresh, empty, unsaved document.
pub open spec fn spec_new_empty() -> EdView {
    EdView {
        path: None,
        text: Seq::empty(),
        row: 0,
        col: 0,
        scroll: 0,
        mode: EditorMode::Normal,
        cmdline: Seq::empty(),
        dirty: false,
        last_search: None,
        matches: Seq::empty(),
        match_idx: None,
        undo: Seq::empty(),
        redo: Seq::empty(),
    }
}

/// A document freshly opened from `path` with content `content`.
pub open spec fn spec_opened(path: Seq<char>, content: Seq<char>) -> EdView {
    EdView { path: Some(path), text: content, ..spec_new_empty() }
}

/// Pushing one snapshot onto a bounded undo stack: the oldest entries
/// fall out so that at most `undo_cap()` remain.
pub open spec fn spec_snap_push(undo: Seq<SnapView>, s: SnapView) -> Seq<SnapView> {
    let grown = undo.push(s);
    if grown.len() > undo_cap() {
        grown.skip(1)
    } else {
        grown
    }
}

/// Recording the current state before a mutation: snapshot pushed, redo
/// history discarded.
pub open spec fn spec_push_undo(e: EdView) -> EdView {
    EdView { undo: spec_snap_push(e.undo, cursor_view(e)), redo: Seq::empty(), ..e }
}

/// Where the cursor stands in the flat text.
pub open spec fn cursor_idx(e: EdView) -> int {
    line_start(e.text, e.row) + e.col
}

/// Inserting one plain (non-break) character at the cursor.
pub open spec fn spec_insert_char(e: EdView, c: char) -> EdView {
    EdView {
        text: e.text.insert(cursor_idx(e), c),
        col: e.col + 1,
        dirty: true,
        matches: Seq::empty(),
        match_idx: None,
        ..spec_push_undo(e)
    }
}

/// Splitting the line at the cursor.
pub open spec fn spec_insert_newline(e: EdView) -> EdView {
    EdView {
        text: e.text.insert(cursor_idx(e), '\n'),
        row: e.row + 1,
        col: 0,
        dirty: true,
        matches: Seq::empty(),
        match_idx: None,
        ..spec_push_undo(e)
    }
}

/// Deleting the character before the cursor; at the head of a line this
/// joins it onto the line above.  A snapshot is recorded even when the
/// cursor sits at the very start and nothing changes.
pub open spec fn spec_backspace(e: EdView) -> EdView {
    if e.row == 0 && e.col == 0 {
        spec_push_undo(e)
    } else if e.col > 0 {
        EdView {
            text: e.text.remove(cursor_idx(e) - 1),
            col: e.col - 1,
            dirty: true,
            matches: Seq::empty(),
            match_idx: None,
            ..spec_push_undo(e)
        }
    } else {
        EdView {
            text: e.text.remove(cursor_idx(e) - 1),
            row: e.row - 1,
            col: line_len(e.text, e.row - 1),
            dirty: true,
            matches: Seq::empty(),
            match_idx: None,
            ..spec_push_undo(e)
        }
    }
}

/// Restoring the newest undo snapshot; the replaced state moves onto the
/// redo stack.  Search state is discarded since the text changes.
pub open spec fn spec_undo(e: EdView) -> EdView {
    if e.undo.len() == 0 {
        e
    } else {
        let prev = e.undo.last();
        EdView {
            text: prev.text,
            row: prev.row,
            col: prev.col,
            scroll: prev.scroll,
            dirty: prev.dirty,
            undo: e.undo.drop_last(),
            redo: e.redo.push(cursor_view(e)),
            matches: Seq::empty(),
            match_idx: None,
            ..e
        }
    }
}

/// Restoring the newest redo snapshot; the replaced state moves back onto
/// the (bounded) undo stack.
pub open spec fn spec_redo(e: EdView) -> EdView {
    if e.redo.len() == 0 {
        e
    } else {
        let nxt = e.redo.last();
        EdView {
            text: nxt.text,
            row: nxt.row,
            col: nxt.col,
            scroll: nxt.scroll,
            dirty: nxt.dirty,
            undo: spec_snap_push(e.undo, cursor_view(e)),
            redo: e.redo.drop_last(),
            matches: Seq::empty(),
            match_idx: None,
            ..e
        }
    }
}

pub open spec fn spec_move_left(e: EdView) -> EdView {
    if e.col > 0 {
        EdView { col: e.col - 1, ..e }
    } else {
        e
    }
}

pub open spec fn spec_move_right(e: EdView) -> EdView {
    if e.col < line_len(e.text, e.row) {
        EdView { col: e.col + 1, ..e }
    } else {
        e
    }
}

/// Clamping the column into the current line after a vertical move.
pub open spec fn clamp_col(e: EdView) -> int {
    if e.col > line_len(e.text, e.row) {
        line_len(e.text, e.row)
    } else {
        e.col
    }
}

pub open spec fn spec_move_up(e: EdView) -> EdView {
    let r = if e.row > 0 {
        e.row - 1
    } else {
        0
    };
    let e1 = EdView { row: r, ..e };
    let c = clamp_col(e1);
    let s = if r < e.scroll {
        r
    } else {
        e.scroll
    };
    EdView { row: r, col: c, scroll: s, ..e }
}

pub open spec fn spec_move_down(e: EdView, height: int) -> EdView {
    let r = if e.row + 1 < line_count(e.text) {
        e.row + 1
    } else {
        e.row
    };
    let e1 = EdView { row: r, ..e };
    let c = clamp_col(e1);
    let s = if r >= e.scroll + height {
        r - (height - 1)
    } else {
        e.scroll
    };
    EdView { row: r, col: c, scroll: s, ..e }
}

/// Confinement or save errors of the editing engine.
#[derive(Clone, Copy, PartialEq, Eq, Structural, Debug)]
pub enum EditorError {
    /// The candidate path leaves the confinement root.
    OutsideRoot,
    /// The document has no associated path to save to.
    NoPath,
}

/// What a save hands back to the caller: where to write, and the exact
/// bytes-to-be of the document.
pub struct SaveRequest {
    pub path: String,
    pub content: String,
}

impl EditorState {
    /// Create an empty editor buffer with default positions and mode.
    pub fn new_empty() -> (ed: EditorState)
        ensures
            ed@ == spec_new_empty(),
            ed_wf(ed@),
    {
        let ed = EditorState {
            path: None,
            buffer: rope_from_str(""),
            cursor_row: 0,
            cursor_col: 0,
            scroll_row: 0,
            mode: EditorMode::Normal,
            cmdline: String::new(),
            dirty: false,
            last_search: None,
            search_positions: Vec::new(),
            search_index: None,
            undo_stack: Vec::new(),
            redo_stack: Vec::new(),
        };
        proof {
            reveal_strlit("");
            assert(""@ =~= Seq::<char>::empty());
            assert(ed@ =~= spec_new_empty());
        }
        ed
    }

    /// Record the current state on the undo stack (dropping the oldest
    /// entry past the bound) and discard the redo stack.
    pub fn push_undo(&mut self)
        ensures
            final(self)@ == spec_push_undo(old(self)@),
            ed_wf(old(self)@) ==> ed_wf(final(self)@),
    {
        let snap = EditorSnapshot {
            buffer: rope_clone(&self.buffer),
            cursor_row: self.cursor_row,
            cursor_col: self.cursor_col,
            scroll_row: self.scroll_row,
            dirty: self.dirty,
        };
        proof {
            assert(snap@ =~= cursor_view(self@));
        }
        self.undo_stack.push(snap);
        if self.undo_stack.len() > 50 {
            self.undo_stack.remove(0);
            proof {
                let pre = snaps_view(old(self).undo_stack@);
                let s0 = cursor_view(old(self)@);
                let lhs = snaps_view(self.undo_stack@);
                let rhs = spec_snap_push(pre, s0);
                assert forall|i: int| 0 <= i < lhs.len() implies lhs[i] == rhs[i] by {
                    assert(self.undo_stack@[i] == old(self).undo_stack@.push(snap)[i + 1]);
                    assert(rhs[i] == pre.push(s0)[i + 1]);
                }
                assert(lhs =~= rhs);
            }
        } else {
            proof {
                assert(snaps_view(self.undo_stack@) =~= spec_snap_push(
                    snaps_view(old(self).undo_stack@),
                    cursor_view(old(self)@),
                ));
            }
        }
        self.redo_stack = Vec::new();
        proof {
            assert(self@ =~= spec_push_undo(old(self)@));
        }
    }
}

/// A pushed bounded stack keeps only well-formed snapshots and stays
/// within the cap.
proof fn lemma_snap_push_wf(undo: Seq<SnapView>, s: SnapView)
    requires
        forall|i: int| 0 <= i < undo.len() ==> snap_wf(#[trigger] undo[i]),
        snap_wf(s),
        undo.len() <= undo_cap(),
    ensures
        spec_snap_push(undo, s).len() <= undo_cap(),
        forall|i: int| 0 <= i < spec_snap_push(undo, s).len() ==> snap_wf(
            #[trigger] spec_snap_push(undo, s)[i],
        ),
{
    let grown = undo.push(s);
    assert(forall|i: int| 0 <= i < grown.len() ==> snap_wf(#[trigger] grown[i]));
    if grown.len() > undo_cap() {
        assert(forall|i: int|
            0 <= i < grown.skip(1).len() ==> #[trigger] grown.skip(1)[i] == grown[i + 1]);
    }
}

/// Pushes a snapshot onto a stack, dropping the oldest entry when the
/// stack is full.
fn push_snap_capped(v: &mut Vec<EditorSnapshot>, snap: EditorSnapshot)
    ensures
        snaps_view(final(v)@) == spec_snap_push(snaps_view(old(v)@), snap@),
{
    let ghost pre = snaps_view(v@);
    v.push(snap);
    if v.len() > 50 {
        v.remove(0);
        proof {
            let lhs = snaps_view(v@);
            let rhs = spec_snap_push(pre, snap@);
            assert forall|i: int| 0 <= i < lhs.len() implies lhs[i] == rhs[i] by {
                assert(v@[i] == old(v)@.push(snap)[i + 1]);
                assert(rhs[i] == pre.push(snap@)[i + 1]);
            }
            assert(lhs =~= rhs);
        }
    } else {
        proof {
            assert(snaps_view(v@) =~= spec_snap_push(pre, snap@));
        }
    }
}

/// Stateless operations over one `EditorState`: opening and saving, cursor
/// movement, editing, history, and search.
pub struct EditorView;

impl EditorView {
    /// Open a document read from `path`, provided the canonical path lies
    /// within the canonical `root`; the caller reads `content` from it.
    pub fn open_path(path: &str, root: &str, content: &str) -> (r: Result<
        EditorState,
        EditorError,
    >)
        ensures
            match r {
                Ok(ed) => is_within(path@, root@) && ed@ == spec_opened(path@, content@) && ed_wf(
                    ed@,
                ),
                Err(e) => e == EditorError::OutsideRoot && !is_within(path@, root@),
            },
    {
        if !within_root(root, path) {
            return Err(EditorError::OutsideRoot);
        }
        let mut ed = EditorState::new_empty();
        ed.path = Some(path.to_owned());
        ed.buffer = rope_from_str(content);
        proof {
            assert(ed@ =~= spec_opened(path@, content@));
            lemma_line_bounds(content@, 0);
        }
        Ok(ed)
    }

    /// What saving would write: the associated path and the exact text.
    /// Fails when the document has no path.
    pub fn save(ed: &EditorState) -> (r: Result<SaveRequest, EditorError>)
        ensures
            match r {
                Ok(req) => ed@.path == Some(req.path@) && req.content@ == ed@.text,
                Err(e) => e == EditorError::NoPath && ed@.path is None,
            },
    {
        match &ed.path {
            Some(p) => {
                let path = p.clone();
                let content = rope_to_string(&ed.buffer);
                Ok(SaveRequest { path, content })
            },
            None => Err(EditorError::NoPath),
        }
    }

    /// Clear the dirty flag once the caller has written the save out.
    pub fn mark_saved(ed: &mut EditorState)
        ensures
            final(ed)@ == (EdView { dirty: false, ..old(ed)@ }),
    {
        ed.dirty = false;
        proof {
            assert(ed@ =~= (EdView { dirty: false, ..old(ed)@ }));
        }
    }

    /// The content length of line `row` (its break not counted).
    fn line_content_len(ed: &EditorState, row: usize) -> (n: usize)
        requires
            row < line_count(rope_text(ed.buffer)),
        ensures
            n == line_len(rope_text(ed.buffer), row as int),
    {
        let ghost t = rope_text(ed.buffer);
        let total = rope_len_lines(&ed.buffer);
        let s = rope_line_to_char(&ed.buffer, row);
        proof {
            lemma_line_bounds(t, row as int);
        }
        if row + 1 < total {
            let s2 = rope_line_to_char(&ed.buffer, row + 1);
            proof {
                assert(line_start(t, row + 1) == line_end(t, row as int) + 1);
            }
            s2 - 1 - s
        } else {
            let n = rope_len_chars(&ed.buffer);
            n - s
        }
    }

    /// Where the cursor stands in the flat text.
    fn cursor_to_char_idx(ed: &EditorState) -> (idx: usize)
        requires
            snap_wf(cursor_view(ed@)),
        ensures
            idx == cursor_idx(ed@),
            idx <= rope_text(ed.buffer).len(),
    {
        let ghost t = rope_text(ed.buffer);
        let s = rope_line_to_char(&ed.buffer, ed.cursor_row);
        let total = rope_len_chars(&ed.buffer);
        proof {
            lemma_line_bounds(t, ed.cursor_row as int);
            assert(s + ed.cursor_col <= line_end(t, ed.cursor_row as int));
        }
        s + ed.cursor_col
    }

    /// Move the cursor one column left, clamped at the line head.
    pub fn move_left(ed: &mut EditorState)
        ensures
            final(ed)@ == spec_move_left(old(ed)@),
            ed_wf(old(ed)@) ==> ed_wf(final(ed)@),
    {
        if ed.cursor_col > 0 {
            ed.cursor_col = ed.cursor_col - 1;
        }
        proof {
            assert(ed@ =~= spec_move_left(old(ed)@));
        }
    }

    /// Move the cursor one column right, clamped at the line end.
    pub fn move_right(ed: &mut EditorState)
        requires
            ed_wf(old(ed)@),
        ensures
            final(ed)@ == spec_move_right(old(ed)@),
            ed_wf(final(ed)@),
    {
        let ll = Self::line_content_len(ed, ed.cursor_row);
        if ed.cursor_col < ll {
            ed.cursor_col = ed.cursor_col + 1;
        }
        proof {
            assert(ed@ =~= spec_move_right(old(ed)@));
        }
    }

    /// Clamp the column into the current line.
    fn clamp_col_exec(ed: &mut EditorState)
        requires
            0 <= old(ed)@.row < line_count(old(ed)@.text),
        ensures
            final(ed)@ == (EdView { col: clamp_col(old(ed)@), ..old(ed)@ }),
    {
        let ll = Self::line_content_len(ed, ed.cursor_row);
        if ed.cursor_col > ll {
            ed.cursor_col = ll;
        }
        proof {
            assert(ed@ =~= (EdView { col: clamp_col(old(ed)@), ..old(ed)@ }));
        }
    }

    /// Move the cursor one row up; the column clamps to the new line and
    /// the scroll follows the cursor upward.
    pub fn move_up(ed: &mut EditorState)
        requires
            ed_wf(old(ed)@),
        ensures
            final(ed)@ == spec_move_up(old(ed)@),
            ed_wf(final(ed)@),
    {
        if ed.cursor_row > 0 {
            ed.cursor_row = ed.cursor_row - 1;
        }
        Self::clamp_col_exec(ed);
        if ed.cursor_row < ed.scroll_row {
            ed.scroll_row = ed.cursor_row;
        }
        proof {
            assert(ed@ =~= spec_move_up(old(ed)@));
        }
    }

    /// Move the cursor one row down; the column clamps to the new line and
    /// the scroll keeps the cursor inside a window of `visible_h` rows.
    pub fn move_down(ed: &mut EditorState, visible_h: usize)
        requires
            ed_wf(old(ed)@),
            visible_h >= 1,
        ensures
            final(ed)@ == spec_move_down(old(ed)@, visible_h as int),
            ed_wf(final(ed)@),
    {
        let total = rope_len_lines(&ed.buffer);
        if ed.cursor_row + 1 < total {
            ed.cursor_row = ed.cursor_row + 1;
        }
        Self::clamp_col_exec(ed);
        if visible_h <= ed.cursor_row && ed.scroll_row <= ed.cursor_row - visible_h {
            ed.scroll_row = ed.cursor_row - (visible_h - 1);
        }
        proof {
            assert(ed@ =~= spec_move_down(old(ed)@, visible_h as int));
        }
    }

    /// Insert one plain character at the cursor.
    pub fn insert_char(ed: &mut EditorState, c: char)
        requires
            ed_wf(old(ed)@),
            c != '\n',
            rope_text(old(ed).buffer).len() < usize::MAX,
        ensures
            final(ed)@ == spec_insert_char(old(ed)@, c),
            ed_wf(final(ed)@),
    {
        ed.push_undo();
        let idx = Self::cursor_to_char_idx(ed);
        rope_insert_char(&mut ed.buffer, idx, c);
        proof {
            lemma_line_bounds(old(ed)@.text, old(ed)@.row);
        }
        ed.cursor_col = ed.cursor_col + 1;
        ed.dirty = true;
        ed.search_positions = Vec::new();
        ed.search_index = None;
        proof {
            let e0 = old(ed)@;
            lemma_insert_char_in_line(e0.text, e0.row, e0.col, c);
            lemma_snap_push_wf(e0.undo, cursor_view(e0));
            assert(ed@ =~= spec_insert_char(e0, c));
        }
    }

    /// Split the current line at the cursor.
    pub fn insert_newline(ed: &mut EditorState)
        requires
            ed_wf(old(ed)@),
            rope_text(old(ed).buffer).len() < usize::MAX,
        ensures
            final(ed)@ == spec_insert_newline(old(ed)@),
            ed_wf(final(ed)@),
    {
        ed.push_undo();
        let idx = Self::cursor_to_char_idx(ed);
        proof {
            lemma_nl_count_le_len(rope_text(ed.buffer));
        }
        rope_insert_char(&mut ed.buffer, idx, '\n');
        ed.cursor_row = ed.cursor_row + 1;
        ed.cursor_col = 0;
        ed.dirty = true;
        ed.search_positions = Vec::new();
        ed.search_index = None;
        proof {
            let e0 = old(ed)@;
            lemma_insert_break_in_line(e0.text, e0.row, e0.col);
            lemma_snap_push_wf(e0.undo, cursor_view(e0));
            assert(ed@ =~= spec_insert_newline(e0));
        }
    }

    /// Delete the character before the cursor; at a line head this joins
    /// the line onto the one above.
    pub fn backspace(ed: &mut EditorState)
        requires
            ed_wf(old(ed)@),
        ensures
            final(ed)@ == spec_backspace(old(ed)@),
            ed_wf(final(ed)@),
    {
        let ghost e0 = old(ed)@;
        ed.push_undo();
        let idx = Self::cursor_to_char_idx(ed);
        proof {
            lemma_snap_push_wf(e0.undo, cursor_view(e0));
            if e0.row > 0 {
                crate::text::lemma_line_start_props(e0.text, e0.row);
            }
        }
        if idx > 0 {
            if ed.cursor_col > 0 {
                rope_remove(&mut ed.buffer, idx - 1, idx);
                ed.cursor_col = ed.cursor_col - 1;
                proof {
                    lemma_remove_char_in_line(e0.text, e0.row, e0.col - 1);
                    assert(e0.text.take(idx - 1) + e0.text.skip(idx as int) =~= e0.text.remove(
                        idx - 1,
                    ));
                }
            } else {
                let plen = Self::line_content_len(ed, ed.cursor_row - 1);
                rope_remove(&mut ed.buffer, idx - 1, idx);
                ed.cursor_row = ed.cursor_row - 1;
                ed.cursor_col = plen;
                proof {
                    lemma_remove_break_join(e0.text, e0.row);
                    assert(e0.text.take(idx - 1) + e0.text.skip(idx as int) =~= e0.text.remove(
                        idx - 1,
                    ));
                }
            }
            ed.dirty = true;
            ed.search_positions = Vec::new();
            ed.search_index = None;
        }
        proof {
            assert(ed@ =~= spec_backspace(e0));
        }
    }

    /// Undo the last recorded change, if any.
    pub fn undo(ed: &mut EditorState)
        ensures
            final(ed)@ == spec_undo(old(ed)@),
            ed_wf(old(ed)@) ==> ed_wf(final(ed)@),
    {
        let popped = ed.undo_stack.pop();
        match popped {
            None => {
                proof {
                    assert(ed@ =~= spec_undo(old(ed)@));
                }
            },
            Some(prev) => {
                let cur = EditorSnapshot {
                    buffer: rope_clone(&ed.buffer),
                    cursor_row: ed.cursor_row,
                    cursor_col: ed.cursor_col,
                    scroll_row: ed.scroll_row,
                    dirty: ed.dirty,
                };
                ed.redo_stack.push(cur);
                ed.buffer = prev.buffer;
                ed.cursor_row = prev.cursor_row;
                ed.cursor_col = prev.cursor_col;
                ed.scroll_row = prev.scroll_row;
                ed.dirty = prev.dirty;
                ed.search_positions = Vec::new();
                ed.search_index = None;
                proof {
                    assert(snaps_view(ed.redo_stack@) =~= old(ed)@.redo.push(
                        cursor_view(old(ed)@),
                    ));
                    assert(snaps_view(ed.undo_stack@) =~= old(ed)@.undo.drop_last());
                    assert(ed@ =~= spec_undo(old(ed)@));
                }
            },
        }
    }

    /// Redo the last undone change, if any.
    pub fn redo(ed: &mut EditorState)
        ensures
            final(ed)@ == spec_redo(old(ed)@),
            ed_wf(old(ed)@) ==> ed_wf(final(ed)@),
    {
        let popped = ed.redo_stack.pop();
        match popped {
            None => {
                proof {
                    assert(ed@ =~= spec_redo(old(ed)@));
                }
            },
            Some(nxt) => {
                let cur = EditorSnapshot {
                    buffer: rope_clone(&ed.buffer),
                    cursor_row: ed.cursor_row,
                    cursor_col: ed.cursor_col,
                    scroll_row: ed.scroll_row,
                    dirty: ed.dirty,
                };
                push_snap_capped(&mut ed.undo_stack, cur);
                ed.buffer = nxt.buffer;
                ed.cursor_row = nxt.cursor_row;
                ed.cursor_col = nxt.cursor_col;
                ed.scroll_row = nxt.scroll_row;
                ed.dirty = nxt.dirty;
                ed.search_positions = Vec::new();
                ed.search_index = None;
                proof {
                    assert(snaps_view(ed.redo_stack@) =~= old(ed)@.redo.drop_last());
                    if ed_wf(old(ed)@) {
                        lemma_snap_push_wf(old(ed)@.undo, cursor_view(old(ed)@));
                    }
                    assert(ed@ =~= spec_redo(old(ed)@));
                }
            },
        }
    }
}

/// Whether `q` occurs in `line` starting exactly at position `p`.
pub open spec fn is_match_at(line: Seq<char>, q: Seq<char>, p: int) -> bool {
    &&& 0 <= p
    &&& p + q.len() <= line.len()
    &&& line.subrange(p, p + q.len()) == q
}

/// Number of non-overlapping occurrences of `q` in `line`, scanning
/// greedily from position `from` leftward to rightward.
pub open spec fn occ_count_from(line: Seq<char>, q: Seq<char>, from: int) -> nat
    decreases line.len() - from when 0 <= from && q.len() >= 1
{
    if from + q.len() > line.len() {
        0
    } else if line.subrange(from, from + q.len()) == q {
        1 + occ_count_from(line, q, from + q.len())
    } else {
        occ_count_from(line, q, from + 1)
    }
}

proof fn lemma_occ_first(line: Seq<char>, q: Seq<char>, from: int, s: int)
    requires
        0 <= from <= s,
        q.len() >= 1,
        is_match_at(line, q, s),
        forall|p: int| from <= p < s ==> !is_match_at(line, q, p),
    ensures
        occ_count_from(line, q, from) == 1 + occ_count_from(line, q, s + q.len()),
    decreases s - from,
{
    if from < s {
        lemma_occ_first(line, q, from + 1, s);
        assert(!is_match_at(line, q, from));
        assert(from + q.len() <= line.len());
        assert(line.subrange(from, from + q.len()) != q);
        assert(occ_count_from(line, q, from) == occ_count_from(line, q, from + 1));
    } else {
        assert(from == s);
        assert(line.subrange(from, from + q.len()) == q);
        assert(occ_count_from(line, q, from) == 1 + occ_count_from(line, q, from + q.len()));
    }
}

proof fn lemma_occ_none(line: Seq<char>, q: Seq<char>, from: int)
    requires
        0 <= from,
        q.len() >= 1,
        forall|p: int| from <= p ==> !is_match_at(line, q, p),
    ensures
        occ_count_from(line, q, from) == 0,
    decreases line.len() - from,
{
    if from + q.len() <= line.len() {
        assert(!is_match_at(line, q, from));
        assert(line.subrange(from, from + q.len()) != q);
        lemma_occ_none(line, q, from + 1);
    }
}

/// The occurrence markers of one row: `(row, 0) .. (row, cnt-1)`.
pub open spec fn row_matches(row: int, cnt: nat) -> Seq<(int, int)> {
    Seq::new(cnt, |i: int| (row, i))
}

/// All matches of `q` in the first `rows` lines of `t`, row-major, each
/// as `(row, occurrence index within the row)`.
pub open spec fn match_list_upto(t: Seq<char>, q: Seq<char>, rows: int) -> Seq<(int, int)>
    decreases rows when rows >= 0
{
    if rows <= 0 {
        Seq::empty()
    } else {
        match_list_upto(t, q, rows - 1) + row_matches(
            rows - 1,
            occ_count_from(line_content(t, rows - 1), q, 0),
        )
    }
}

/// All matches of `q` in `t`, in row-major order.
pub open spec fn match_list(t: Seq<char>, q: Seq<char>) -> Seq<(int, int)> {
    match_list_upto(t, q, line_count(t) as int)
}

proof fn lemma_match_list_upto_props(t: Seq<char>, q: Seq<char>, rows: int)
    requires
        rows >= 0,
    ensures
        forall|i: int|
            0 <= i < match_list_upto(t, q, rows).len() ==> 0 <= (#[trigger] match_list_upto(
                t,
                q,
                rows,
            )[i]).0 < rows && 0 <= match_list_upto(t, q, rows)[i].1,
    decreases rows,
{
    if rows > 0 {
        lemma_match_list_upto_props(t, q, rows - 1);
        let prev = match_list_upto(t, q, rows - 1);
        let cur = match_list_upto(t, q, rows);
        assert forall|i: int| 0 <= i < cur.len() implies 0 <= (#[trigger] cur[i]).0 < rows && 0
            <= cur[i].1 by {
            if i < prev.len() {
                assert(cur[i] == prev[i]);
            } else {
                assert(cur[i] == row_matches(
                    rows - 1,
                    occ_count_from(line_content(t, rows - 1), q, 0),
                )[i - prev.len()]);
            }
        }
    }
}

/// Recomputing the match cache from the stored query: every occurrence,
/// in row-major order; nothing when no (or an empty) query is stored.
pub open spec fn spec_recompute(e: EdView) -> EdView {
    let ms = match e.last_search {
        Some(q) => if q.len() >= 1 {
            match_list(e.text, q)
        } else {
            Seq::empty()
        },
        None => Seq::empty(),
    };
    EdView { matches: ms, match_idx: None, ..e }
}

/// The first cached index at or after the cursor row (an index at the
/// cursor row counts only when the cursor column is 0), or the head of
/// the list when no such index exists.
pub open spec fn first_sat(ms: Seq<(int, int)>, row: int, col: int) -> int
    decreases ms.len(),
{
    if ms.len() == 0 {
        0
    } else if ms.first().0 > row || (ms.first().0 == row && 0 >= col) {
        0
    } else {
        1 + first_sat(ms.drop_first(), row, col)
    }
}

pub open spec fn start_idx(ms: Seq<(int, int)>, row: int, col: int) -> int {
    if first_sat(ms, row, col) >= ms.len() {
        0
    } else {
        first_sat(ms, row, col)
    }
}

proof fn lemma_first_sat_le_len(ms: Seq<(int, int)>, row: int, col: int)
    ensures
        0 <= first_sat(ms, row, col) <= ms.len(),
    decreases ms.len(),
{
    if ms.len() > 0 && !(ms.first().0 > row || (ms.first().0 == row && 0 >= col)) {
        lemma_first_sat_le_len(ms.drop_first(), row, col);
    }
}

/// Repositioning on cached match `i`: the cursor jumps to its row at
/// column 0, and the scroll follows the cursor upward.
pub open spec fn spec_jump(e: EdView, i: int) -> EdView {
    let r = e.matches[i].0;
    EdView {
        match_idx: Some(i),
        row: r,
        col: 0,
        scroll: if r < e.scroll {
            r
        } else {
            e.scroll
        },
        ..e
    }
}

/// One step forward through the match list, with wraparound; an empty
/// cache is recomputed first.
pub open spec fn spec_search_next(e: EdView) -> EdView {
    let e1 = if e.matches.len() == 0 {
        spec_recompute(e)
    } else {
        e
    };
    if e1.matches.len() == 0 {
        e1
    } else {
        let cur = match e1.match_idx {
            Some(i) => i,
            None => start_idx(e1.matches, e1.row, e1.col),
        };
        spec_jump(e1, (cur + 1) % (e1.matches.len() as int))
    }
}

/// One step backward through the match list, with wraparound; an empty
/// cache is recomputed first.
pub open spec fn spec_search_prev(e: EdView) -> EdView {
    let e1 = if e.matches.len() == 0 {
        spec_recompute(e)
    } else {
        e
    };
    if e1.matches.len() == 0 {
        e1
    } else {
        let cur = match e1.match_idx {
            Some(i) => i,
            None => 0,
        };
        let prev = if cur == 0 {
            e1.matches.len() - 1
        } else {
            cur - 1
        };
        spec_jump(e1, prev)
    }
}

impl EditorView {
    /// First match position of `q` at or after `from` in `line`.
    fn find_from(line: &Vec<char>, q: &Vec<char>, from: usize) -> (r: Option<usize>)
        requires
            q@.len() >= 1,
        ensures
            match r {
                Some(s) => from <= s && is_match_at(line@, q@, s as int) && forall|p: int|
                    from <= p < s ==> !is_match_at(line@, q@, p),
                None => forall|p: int| from <= p ==> !is_match_at(line@, q@, p),
            },
    {
        if line.len() < q.len() {
            return None;
        }
        let ll = line.len();
        let limit = ll - q.len();
        let mut s: usize = from;
        while s <= limit
            invariant
                from <= s,
                q@.len() >= 1,
                q@.len() <= line@.len(),
                ll == line@.len(),
                limit == line@.len() - q@.len(),
                forall|p: int| from <= p < s ==> !is_match_at(line@, q@, p),
            decreases limit + 1 - s,
        {
            let mut j: usize = 0;
            let mut hit = true;
            while j < q.len()
                invariant
                    j <= q@.len(),
                    s + q@.len() <= line@.len(),
                    line@.len() <= usize::MAX,
                    hit ==> forall|k: int| 0 <= k < j ==> line@[s + k] == q@[k],
                    !hit ==> exists|k: int| 0 <= k < q@.len() && line@[s + k] != q@[k],
                decreases q.len() - j,
            {
                if line[s + j] != q[j] {
                    proof {
                        assert(line@[s + j] != q@[j as int]);
                    }
                    hit = false;
                    j = q.len();
                } else {
                    j += 1;
                }
            }
            if hit {
                proof {
                    assert(line@.subrange(s as int, s + q@.len()) =~= q@);
                }
                return Some(s);
            }
            proof {
                if is_match_at(line@, q@, s as int) {
                    let k = choose|k: int| 0 <= k < q@.len() && line@[s + k] != q@[k];
                    assert(line@.subrange(s as int, s + q@.len())[k] == line@[s + k]);
                    assert(false);
                }
            }
            s += 1;
        }
        proof {
            assert forall|p: int| from <= p implies !is_match_at(line@, q@, p) by {
                if p < s {
                } else {
                    assert(p + q@.len() > line@.len());
                }
            }
        }
        None
    }

    /// The content characters of line `row`, without its break.
    fn line_chars(ed: &EditorState, row: usize) -> (v: Vec<char>)
        requires
            row < line_count(rope_text(ed.buffer)),
        ensures
            v@ == line_content(rope_text(ed.buffer), row as int),
    {
        let ghost t = rope_text(ed.buffer);
        let mut v = rope_line_chars(&ed.buffer, row);
        proof {
            crate::text::lemma_line_bounds(t, row as int);
            crate::text::lemma_line_with_break_content(t, row as int);
        }
        if v.len() > 0 && v[v.len() - 1] == '\n' {
            v.pop();
            proof {
                let lc = line_content(t, row as int);
                if line_end(t, row as int) == t.len() {
                    assert(lc.len() > 0);
                    assert(lc[lc.len() - 1] != '\n');
                    assert(false);
                }
                assert(line_with_break(t, row as int).drop_last() =~= lc);
            }
        } else {
            proof {
                if line_end(t, row as int) < t.len() {
                    assert(line_with_break(t, row as int).last() == '\n');
                    assert(false);
                }
            }
        }
        v
    }

    /// Count the non-overlapping occurrences of `q` in `line`.
    fn count_occurrences(line: &Vec<char>, q: &Vec<char>) -> (cnt: usize)
        requires
            q@.len() >= 1,
            line@.len() < usize::MAX,
        ensures
            cnt == occ_count_from(line@, q@, 0),
    {
        let mut cnt: usize = 0;
        let mut last: usize = 0;
        loop
            invariant
                q@.len() >= 1,
                line@.len() < usize::MAX,
                cnt + occ_count_from(line@, q@, last as int) == occ_count_from(line@, q@, 0),
                cnt <= last,
                cnt * 1 <= line@.len(),
            decreases line@.len() + 1 - last,
        {
            match Self::find_from(line, q, last) {
                Some(s) => {
                    proof {
                        lemma_occ_first(line@, q@, last as int, s as int);
                    }
                    cnt += 1;
                    last = s + q.len();
                },
                None => {
                    proof {
                        lemma_occ_none(line@, q@, last as int);
                    }
                    return cnt;
                },
            }
        }
    }

    /// Recompute the cached match list for the stored query: every
    /// occurrence, row-major, `(row, occurrence index within row)`.
    pub fn recompute_search_positions(ed: &mut EditorState)
        requires
            ed_wf(old(ed)@),
            rope_text(old(ed).buffer).len() < usize::MAX,
        ensures
            final(ed)@ == spec_recompute(old(ed)@),
            ed_wf(final(ed)@),
    {
        let ghost t = rope_text(ed.buffer);
        ed.search_positions = Vec::new();
        ed.search_index = None;
        let q = match &ed.last_search {
            Some(q) => q.clone(),
            None => {
                proof {
                    assert(ed@ =~= spec_recompute(old(ed)@));
                }
                return ;
            },
        };
        let qv = chars_of(q.as_str());
        if qv.len() == 0 {
            proof {
                assert(ed@ =~= spec_recompute(old(ed)@));
            }
            return ;
        }
        let total = rope_len_lines(&ed.buffer);
        proof {
            assert(ed@ =~= (EdView {
                matches: match_list_upto(t, qv@, 0),
                match_idx: None,
                ..old(ed)@
            }));
        }
        let mut row: usize = 0;
        while row < total
            invariant
                ed_wf(old(ed)@),
                row <= total,
                total == line_count(t),
                t.len() < usize::MAX,
                t == rope_text(ed.buffer),
                old(ed)@.last_search == Some(qv@),
                qv@.len() >= 1,
                ed@ == (EdView {
                    matches: match_list_upto(t, qv@, row as int),
                    match_idx: None,
                    ..old(ed)@
                }),
            decreases total - row,
        {
            let line = Self::line_chars(ed, row);
            proof {
                crate::text::lemma_line_bounds(t, row as int);
            }
            let cnt = Self::count_occurrences(&line, &qv);
            let ghost pre = ed.search_positions@;
            let mut k: usize = 0;
            while k < cnt
                invariant
                    k <= cnt,
                    ed.search_positions@ == pre + Seq::new(k as nat, |i: int| (row, i as usize)),
                    ed@ == (EdView {
                        matches: ed.search_positions@.map_values(
                            |p: (usize, usize)| (p.0 as int, p.1 as int),
                        ),
                        match_idx: None,
                        ..old(ed)@
                    }),
                decreases cnt - k,
            {
                ed.search_positions.push((row, k));
                proof {
                    assert(pre + Seq::new((k + 1) as nat, |i: int| (row, i as usize)) =~= (pre
                        + Seq::new(k as nat, |i: int| (row, i as usize))).push((row, k)));
                    assert(ed@ =~= (EdView {
                        matches: ed.search_positions@.map_values(
                            |p: (usize, usize)| (p.0 as int, p.1 as int),
                        ),
                        match_idx: None,
                        ..old(ed)@
                    }));
                }
                k += 1;
            }
            proof {
                let ms = ed.search_positions@.map_values(
                    |p: (usize, usize)| (p.0 as int, p.1 as int),
                );
                let mprev = match_list_upto(t, qv@, row as int);
                let mcur = match_list_upto(t, qv@, row + 1);
                let added = row_matches(row as int, occ_count_from(line@, qv@, 0));
                assert(mcur == mprev + added);
                assert(ms.len() == mcur.len());
                assert forall|i: int| 0 <= i < ms.len() implies ms[i] == mcur[i] by {
                    if i < mprev.len() {
                        assert(ms[i] == (pre[i].0 as int, pre[i].1 as int));
                        assert(mcur[i] == mprev[i]);
                    } else {
                        assert(ed.search_positions@[i] == (row, (i - pre.len()) as usize));
                        assert(mcur[i] == added[i - mprev.len()]);
                    }
                }
                assert(ms =~= mcur);
                assert(ed@ =~= (EdView {
                    matches: match_list_upto(t, qv@, row + 1),
                    match_idx: None,
                    ..old(ed)@
                }));
            }
            row += 1;
        }
        proof {
            lemma_match_list_upto_props(t, qv@, total as int);
            assert(ed@ =~= spec_recompute(old(ed)@));
        }
    }

    /// Jump to cached match `i`.
    fn jump_to(ed: &mut EditorState, i: usize)
        requires
            ed_wf(old(ed)@),
            i < old(ed)@.matches.len(),
        ensures
            final(ed)@ == spec_jump(old(ed)@, i as int),
            ed_wf(final(ed)@),
    {
        ed.search_index = Some(i);
        let (r, _) = ed.search_positions[i];
        ed.cursor_row = r;
        ed.cursor_col = 0;
        if ed.cursor_row < ed.scroll_row {
            ed.scroll_row = ed.cursor_row;
        }
        proof {
            crate::text::lemma_line_bounds(old(ed)@.text, r as int);
            assert(ed@ =~= spec_jump(old(ed)@, i as int));
        }
    }

    /// The starting index for a first `search_next` without a cached
    /// pointer: the first match at or after the cursor.
    fn start_index(ed: &EditorState) -> (r: usize)
        ensures
            r == start_idx(ed@.matches, ed@.row, ed@.col),
            ed@.matches.len() > 0 ==> r < ed@.matches.len(),
    {
        let ghost ms = ed@.matches;
        let n = ed.search_positions.len();
        let mut i: usize = 0;
        proof {
            assert(ms.skip(0) =~= ms);
        }
        while i < n
            invariant
                i <= n,
                n == ms.len(),
                ms == ed@.matches,
                forall|k: int| 0 <= k < i ==> first_sat(ms.skip(k), ed@.row, ed@.col) != 0,
                first_sat(ms, ed@.row, ed@.col) == i + first_sat(ms.skip(i as int), ed@.row, ed@.col),
            decreases n - i,
        {
            let (r, _) = ed.search_positions[i];
            proof {
                assert(ms.skip(i as int).first() == ms[i as int]);
                assert(ms.skip(i as int).drop_first() =~= ms.skip(i + 1));
            }
            if r > ed.cursor_row || (r == ed.cursor_row && ed.cursor_col == 0) {
                proof {
                    assert(first_sat(ms.skip(i as int), ed@.row, ed@.col) == 0);
                }
                return i;
            }
            proof {
                lemma_first_sat_le_len(ms.skip(i + 1), ed@.row, ed@.col);
                assert(first_sat(ms.skip(i as int), ed@.row, ed@.col) == 1 + first_sat(
                    ms.skip(i + 1),
                    ed@.row,
                    ed@.col,
                ));
                assert forall|k: int|
                    0 <= k < i + 1 implies first_sat(ms.skip(k), ed@.row, ed@.col) != 0 by {
                    if k == i {
                        assert(first_sat(ms.skip(i as int), ed@.row, ed@.col) >= 1);
                    }
                }
            }
            i += 1;
        }
        proof {
            assert(ms.skip(n as int).len() == 0);
            assert(first_sat(ms, ed@.row, ed@.col) == n);
        }
        0
    }

    /// Step to the next match, with wraparound; recomputes a cold cache.
    pub fn search_next(ed: &mut EditorState)
        requires
            ed_wf(old(ed)@),
            rope_text(old(ed).buffer).len() < usize::MAX,
        ensures
            final(ed)@ == spec_search_next(old(ed)@),
            ed_wf(final(ed)@),
    {
        if ed.search_positions.len() == 0 {
            Self::recompute_search_positions(ed);
        }
        if ed.search_positions.len() == 0 {
            return ;
        }
        let cur = match ed.search_index {
            Some(i) => i,
            None => Self::start_index(ed),
        };
        let nxt = (cur + 1) % ed.search_positions.len();
        Self::jump_to(ed, nxt);
    }

    /// Step to the previous match, with wraparound; recomputes a cold
    /// cache.
    pub fn search_prev(ed: &mut EditorState)
        requires
            ed_wf(old(ed)@),
            rope_text(old(ed).buffer).len() < usize::MAX,
        ensures
            final(ed)@ == spec_search_prev(old(ed)@),
            ed_wf(final(ed)@),
    {
        if ed.search_positions.len() == 0 {
            Self::recompute_search_positions(ed);
        }
        if ed.search_positions.len() == 0 {
            return ;
        }
        let cur = match ed.search_index {
            Some(i) => i,
            None => 0,
        };
        let prev = if cur == 0 {
            ed.search_positions.len() - 1
        } else {
            cur - 1
        };
        Self::jump_to(ed, prev);
    }
}

/// Whether `q` occurs somewhere in line `i` of `t`.
pub open spec fn line_has(t: Seq<char>, q: Seq<char>, i: int) -> bool {
    exists|p: int| is_match_at(line_content(t, i), q, p)
}

/// The first row in `[from, upto)` whose content contains `q`.
pub open spec fn scan_rows(t: Seq<char>, q: Seq<char>, from: int, upto: int) -> Option<int>
    decreases upto - from when from <= upto
{
    if from >= upto {
        None
    } else if line_has(t, q, from) {
        Some(from)
    } else {
        scan_rows(t, q, from + 1, upto)
    }
}

/// Storing a new query and jumping to the first row that contains it, at
/// or below the cursor first, wrapping to the rows above; an empty query
/// changes nothing.
pub open spec fn spec_search_text(e: EdView, q: Seq<char>) -> EdView {
    if q.len() == 0 {
        e
    } else {
        let e1 = EdView { last_search: Some(q), ..e };
        let found = match scan_rows(e.text, q, e.row, line_count(e.text) as int) {
            Some(r) => Some(r),
            None => scan_rows(e.text, q, 0, e.row),
        };
        match found {
            Some(r) => EdView {
                row: r,
                col: 0,
                scroll: if r < e.scroll {
                    r
                } else {
                    e.scroll
                },
                ..e1
            },
            None => e1,
        }
    }
}

/// Jumping to one-based line `n`, clamped into the document.
pub open spec fn spec_goto_line(e: EdView, n: int) -> EdView {
    let lastrow = line_count(e.text) - 1;
    let r0 = if n > 0 {
        n - 1
    } else {
        0
    };
    let r = if r0 > lastrow {
        lastrow
    } else {
        r0
    };
    EdView {
        row: r,
        col: 0,
        scroll: if r < e.scroll {
            r
        } else {
            e.scroll
        },
        ..e
    }
}

impl EditorView {
    /// Whether line `row` contains `q`.
    fn row_contains(ed: &EditorState, row: usize, q: &Vec<char>) -> (r: bool)
        requires
            row < line_count(rope_text(ed.buffer)),
            q@.len() >= 1,
        ensures
            r == line_has(rope_text(ed.buffer), q@, row as int),
    {
        let line = Self::line_chars(ed, row);
        match Self::find_from(&line, q, 0) {
            Some(_) => true,
            None => {
                proof {
                    assert forall|p: int|
                        !is_match_at(
                            line_content(rope_text(ed.buffer), row as int),
                            q@,
                            p,
                        ) by {
                        if p >= 0 {
                        }
                    }
                }
                false
            },
        }
    }

    /// Store a search query and jump to the first row containing it, at or
    /// below the cursor first, wrapping around to the top.
    pub fn search_text(ed: &mut EditorState, q: &str)
        requires
            ed_wf(old(ed)@),
        ensures
            final(ed)@ == spec_search_text(old(ed)@, q@),
            ed_wf(final(ed)@),
    {
        let ghost t = rope_text(ed.buffer);
        let qv = chars_of(q);
        if qv.len() == 0 {
            proof {
                assert(ed@ =~= spec_search_text(old(ed)@, q@));
            }
            return ;
        }
        ed.last_search = Some(q.to_owned());
        let total = rope_len_lines(&ed.buffer);
        let start = ed.cursor_row;
        let mut row = start;
        let mut found: Option<usize> = None;
        while row < total && found.is_none()
            invariant
                ed_wf(old(ed)@),
                t == rope_text(ed.buffer),
                total == line_count(t),
                start <= row <= total,
                start == ed@.row,
                qv@ == q@,
                qv@.len() >= 1,
                ed@ == (EdView { last_search: Some(q@), ..old(ed)@ }),
                match found {
                    Some(r) => r == row && scan_rows(t, q@, start as int, total as int) == Some(
                        r as int,
                    ) && r < total,
                    None => scan_rows(t, q@, start as int, total as int) == scan_rows(
                        t,
                        q@,
                        row as int,
                        total as int,
                    ),
                },
            decreases total - row + (if found.is_none() {
                1int
            } else {
                0int
            }),
        {
            if Self::row_contains(ed, row, &qv) {
                found = Some(row);
            } else {
                row += 1;
            }
        }
        if found.is_none() {
            let mut r2: usize = 0;
            while r2 < start && found.is_none()
                invariant
                    ed_wf(old(ed)@),
                    t == rope_text(ed.buffer),
                    total == line_count(t),
                    r2 <= start <= total,
                    start == ed@.row,
                    qv@ == q@,
                    qv@.len() >= 1,
                    ed@ == (EdView { last_search: Some(q@), ..old(ed)@ }),
                    scan_rows(t, q@, start as int, total as int) == None::<int>,
                    match found {
                        Some(r) => r == r2 && scan_rows(t, q@, 0, start as int) == Some(r as int)
                            && r < start,
                        None => scan_rows(t, q@, 0, start as int) == scan_rows(
                            t,
                            q@,
                            r2 as int,
                            start as int,
                        ),
                    },
                decreases start - r2 + (if found.is_none() {
                    1int
                } else {
                    0int
                }),
            {
                if Self::row_contains(ed, r2, &qv) {
                    found = Some(r2);
                } else {
                    r2 += 1;
                }
            }
        }
        match found {
            Some(r) => {
                ed.cursor_row = r;
                ed.cursor_col = 0;
                if ed.cursor_row < ed.scroll_row {
                    ed.scroll_row = ed.cursor_row;
                }
                proof {
                    crate::text::lemma_line_bounds(t, r as int);
                    assert(ed@ =~= spec_search_text(old(ed)@, q@));
                }
            },
            None => {
                proof {
                    assert(ed@ =~= spec_search_text(old(ed)@, q@));
                }
            },
        }
    }

    /// Jump to one-based line `n`, clamped into the document.
    pub fn goto_line(ed: &mut EditorState, n: usize)
        requires
            ed_wf(old(ed)@),
        ensures
            final(ed)@ == spec_goto_line(old(ed)@, n as int),
            ed_wf(final(ed)@),
    {
        let total = rope_len_lines(&ed.buffer);
        let r0 = if n > 0 {
            n - 1
        } else {
            0
        };
        let r = if r0 > total - 1 {
            total - 1
        } else {
            r0
        };
        ed.cursor_row = r;
        ed.cursor_col = 0;
        if ed.cursor_row < ed.scroll_row {
            ed.scroll_row = ed.cursor_row;
        }
        proof {
            crate::text::lemma_line_bounds(rope_text(ed.buffer), r as int);
            assert(ed@ =~= spec_goto_line(old(ed)@, n as int));
        }
    }
}

} // verus!
