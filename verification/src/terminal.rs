//! The shell screen's terminal pane (scrollable output, an editable input
//! line, command history), the log panel, and a minimal input field.

use vstd::prelude::*;
use vstd::string::StrSliceExecFns;
use vstd::string::StringExecFns;
use crate::util::{string_push, trim_of, trim_chars, chars_of, string_from_chars};

verus! {

/// The mathematical content of the terminal pane.
#[verifier::ext_equal]
pub ghost struct TermView {
    pub output: Seq<Seq<char>>,
    pub scroll: int,
    pub input: Seq<char>,
    pub cursor: int,
    pub history: Seq<Seq<char>>,
    pub history_pos: Option<int>,
}

/// Interactive terminal pane with output buffer, input editor, and
/// command history.
pub struct TerminalPane {
    pub output: Vec<String>,
    pub scroll: usize,
    pub input: String,
    pub cursor: usize,
    pub history: Vec<String>,
    pub history_pos: Option<usize>,
}

pub open spec fn strs_view(v: Seq<String>) -> Seq<Seq<char>> {
    v.map_values(|s: String| s@)
}

impl View for TerminalPane {
    type V = TermView;

    open spec fn view(&self) -> TermView {
        TermView {
            output: strs_view(self.output@),
            scroll: self.scroll as int,
            input: self.input@,
            cursor: self.cursor as int,
            history: strs_view(self.history@),
            history_pos: match self.history_pos {
                Some(i) => Some(i as int),
                None => None,
            },
        }
    }
}

/// The cursor sits inside the input line and any history pointer inside
/// the history.
pub open spec fn term_wf(t: TermView) -> bool {
    &&& 0 <= t.cursor <= t.input.len()
    &&& match t.history_pos {
        Some(i) => 0 <= i < t.history.len(),
        None => true,
    }
}


/// One character inserted at the cursor; a cursor at the machine's index
/// limit refuses growth.
pub open spec fn spec_term_insert(t: TermView, c: char) -> TermView {
    if t.cursor < usize::MAX {
        TermView { input: t.input.insert(t.cursor, c), cursor: t.cursor + 1, ..t }
    } else {
        t
    }
}

/// The character before the cursor deleted, if any.
pub open spec fn spec_term_backspace(t: TermView) -> TermView {
    if t.cursor > 0 {
        TermView { input: t.input.remove(t.cursor - 1), cursor: t.cursor - 1, ..t }
    } else {
        t
    }
}

/// The character under the cursor deleted, if any.
pub open spec fn spec_term_delete_forward(t: TermView) -> TermView {
    if t.cursor < t.input.len() {
        TermView { input: t.input.remove(t.cursor), ..t }
    } else {
        t
    }
}

pub open spec fn spec_term_move_left(t: TermView) -> TermView {
    TermView {
        cursor: if t.cursor > 0 {
            t.cursor - 1
        } else {
            0int
        },
        ..t
    }
}

pub open spec fn spec_term_move_right(t: TermView) -> TermView {
    TermView {
        cursor: if t.cursor < t.input.len() {
            t.cursor + 1
        } else {
            t.cursor
        },
        ..t
    }
}

pub open spec fn spec_term_move_start(t: TermView) -> TermView {
    TermView { cursor: 0, ..t }
}

pub open spec fn spec_term_move_end(t: TermView) -> TermView {
    TermView { cursor: t.input.len() as int, ..t }
}

/// The input line cleared and history navigation left.
pub open spec fn spec_term_clear_input(t: TermView) -> TermView {
    TermView { input: Seq::empty(), cursor: 0, history_pos: None, ..t }
}

pub open spec fn spec_term_push_output(t: TermView, line: Seq<char>) -> TermView {
    TermView { output: t.output.push(line), ..t }
}

pub open spec fn spec_term_clear_output(t: TermView) -> TermView {
    TermView { output: Seq::empty(), ..t }
}

pub open spec fn spec_term_scroll_up(t: TermView) -> TermView {
    TermView {
        scroll: if t.output.len() > 0 && t.scroll < t.output.len() - 1 {
            t.scroll + 1
        } else {
            t.scroll
        },
        ..t
    }
}

pub open spec fn spec_term_scroll_down(t: TermView) -> TermView {
    TermView {
        scroll: if t.scroll > 0 {
            t.scroll - 1
        } else {
            0int
        },
        ..t
    }
}

/// The executed line recorded: trimmed, skipped when empty or equal to
/// the newest entry; history navigation resets.
pub open spec fn spec_term_push_history(t: TermView, line: Seq<char>) -> TermView {
    let tr = trim_of(line);
    let keep = tr.len() > 0 && (t.history.len() == 0 || t.history.last() != tr);
    TermView {
        history: if keep {
            t.history.push(tr)
        } else {
            t.history
        },
        history_pos: if tr.len() > 0 {
            None
        } else {
            t.history_pos
        },
        ..t
    }
}

/// One step toward older history; a fresh line jumps to the newest entry.
pub open spec fn spec_term_history_up(t: TermView) -> TermView {
    if t.history.len() == 0 {
        t
    } else {
        match t.history_pos {
            None => TermView {
                history_pos: Some(t.history.len() - 1),
                input: t.history.last(),
                cursor: t.history.last().len() as int,
                ..t
            },
            Some(i) => if i > 0 {
                TermView {
                    history_pos: Some(i - 1),
                    input: t.history[i - 1],
                    cursor: t.history[i - 1].len() as int,
                    ..t
                }
            } else {
                t
            },
        }
    }
}

/// One step toward newer history; past the newest the line clears.
pub open spec fn spec_term_history_down(t: TermView) -> TermView {
    match t.history_pos {
        None => t,
        Some(i) => if i + 1 < t.history.len() {
            TermView {
                history_pos: Some(i + 1),
                input: t.history[i + 1],
                cursor: t.history[i + 1].len() as int,
                ..t
            }
        } else {
            TermView { history_pos: None, input: Seq::empty(), cursor: 0, ..t }
        },
    }
}

impl TerminalPane {
    /// A fresh pane holding the welcome text.
    pub fn new() -> (t: TerminalPane)
        ensures
            t@.output == seq![
                ("Welcome to PascheK Shell TUI"@),
                ("Type :h for help, :l for logs, :q to quit."@),
            ],
            t@.scroll == 0,
            t@.input.len() == 0,
            t@.cursor == 0,
            t@.history.len() == 0,
            t@.history_pos is None,
            term_wf(t@),
    {
        let mut output: Vec<String> = Vec::new();
        output.push(String::from_str("Welcome to PascheK Shell TUI"));
        output.push(String::from_str("Type :h for help, :l for logs, :q to quit."));
        let t = TerminalPane {
            output,
            scroll: 0,
            input: String::new(),
            cursor: 0,
            history: Vec::new(),
            history_pos: None,
        };
        proof {
            assert(strs_view(t.output@) =~= seq![
                ("Welcome to PascheK Shell TUI"@),
                ("Type :h for help, :l for logs, :q to quit."@),
            ]);
            assert(strs_view(t.history@) =~= Seq::<Seq<char>>::empty());
        }
        t
    }

    /// Insert a character at the cursor position.
    pub fn insert_char(&mut self, c: char)
        requires
            term_wf(old(self)@),
        ensures
            final(self)@ == spec_term_insert(old(self)@, c),
            term_wf(final(self)@),
    {
        if self.cursor == usize::MAX {
            return ;
        }
        let n = self.input.unicode_len();
        let mut t = String::from_str(self.input.as_str().substring_char(0, self.cursor));
        string_push(&mut t, c);
        let tail = self.input.as_str().substring_char(self.cursor, n).to_owned();
        t.append(tail.as_str());
        self.input = t;
        self.cursor = self.cursor + 1;
        proof {
            assert(self@.input =~= old(self)@.input.insert(old(self)@.cursor, c));
            assert(self@ =~= (TermView {
                input: old(self)@.input.insert(old(self)@.cursor, c),
                cursor: old(self)@.cursor + 1,
                ..old(self)@
            }));
        }
    }

    /// Delete the character before the cursor, if any.
    pub fn backspace(&mut self)
        requires
            term_wf(old(self)@),
        ensures
            final(self)@ == spec_term_backspace(old(self)@),
            term_wf(final(self)@),
    {
        if self.cursor > 0 {
            let n = self.input.unicode_len();
            let mut t = String::from_str(self.input.as_str().substring_char(0, self.cursor - 1));
            let tail = self.input.as_str().substring_char(self.cursor, n).to_owned();
            t.append(tail.as_str());
            self.input = t;
            self.cursor = self.cursor - 1;
            proof {
                assert(self@.input =~= old(self)@.input.remove(old(self)@.cursor - 1));
                assert(self@ =~= (TermView {
                    input: old(self)@.input.remove(old(self)@.cursor - 1),
                    cursor: old(self)@.cursor - 1,
                    ..old(self)@
                }));
            }
        }
    }

    /// Delete the character under the cursor, if any.
    pub fn delete_forward(&mut self)
        requires
            term_wf(old(self)@),
        ensures
            final(self)@ == spec_term_delete_forward(old(self)@),
            term_wf(final(self)@),
    {
        let n = self.input.unicode_len();
        if self.cursor < n {
            let mut t = String::from_str(self.input.as_str().substring_char(0, self.cursor));
            let tail = self.input.as_str().substring_char(self.cursor + 1, n).to_owned();
            t.append(tail.as_str());
            self.input = t;
            proof {
                assert(self@.input =~= old(self)@.input.remove(old(self)@.cursor));
                assert(self@ =~= (TermView {
                    input: old(self)@.input.remove(old(self)@.cursor),
                    ..old(self)@
                }));
            }
        }
    }

    /// Move the cursor one position left.
    pub fn move_left(&mut self)
        ensures
            final(self)@ == spec_term_move_left(old(self)@),
            term_wf(old(self)@) ==> term_wf(final(self)@),
    {
        if self.cursor > 0 {
            self.cursor = self.cursor - 1;
        }
        proof {
            assert(self@ =~= (TermView {
                cursor: if old(self)@.cursor > 0 {
                    old(self)@.cursor - 1
                } else {
                    0int
                },
                ..old(self)@
            }));
        }
    }

    /// Move the cursor one position right.
    pub fn move_right(&mut self)
        requires
            term_wf(old(self)@),
        ensures
            final(self)@ == spec_term_move_right(old(self)@),
            term_wf(final(self)@),
    {
        let n = self.input.unicode_len();
        if self.cursor < n {
            self.cursor = self.cursor + 1;
        }
        proof {
            assert(self@ =~= (TermView {
                cursor: if old(self)@.cursor < old(self)@.input.len() {
                    old(self)@.cursor + 1
                } else {
                    old(self)@.cursor
                },
                ..old(self)@
            }));
        }
    }

    /// Move the cursor to the start of the line.
    pub fn move_to_start(&mut self)
        ensures
            final(self)@ == spec_term_move_start(old(self)@),
            term_wf(old(self)@) ==> term_wf(final(self)@),
    {
        self.cursor = 0;
        proof {
            assert(self@ =~= (TermView { cursor: 0, ..old(self)@ }));
        }
    }

    /// Move the cursor to the end of the line.
    pub fn move_to_end(&mut self)
        ensures
            final(self)@ == spec_term_move_end(old(self)@),
            term_wf(old(self)@) ==> term_wf(final(self)@),
    {
        self.cursor = self.input.unicode_len();
        proof {
            assert(self@ =~= (TermView { cursor: old(self)@.input.len() as int, ..old(self)@ }));
        }
    }

    /// Clear the input line and leave history navigation.
    pub fn clear_input(&mut self)
        ensures
            final(self)@ == spec_term_clear_input(old(self)@),
            term_wf(old(self)@) ==> term_wf(final(self)@),
    {
        self.input = String::new();
        self.cursor = 0;
        self.history_pos = None;
        proof {
            assert(self@ =~= (TermView {
                input: Seq::empty(),
                cursor: 0,
                history_pos: None,
                ..old(self)@
            }));
        }
    }

    /// The current input line.
    pub fn current_line(&self) -> (r: &str)
        ensures
            r@ == self@.input,
    {
        self.input.as_str()
    }

    /// Append one line to the output.
    pub fn push_output(&mut self, s: String)
        ensures
            final(self)@ == spec_term_push_output(old(self)@, s@),
            term_wf(old(self)@) ==> term_wf(final(self)@),
    {
        let ghost gs = s@;
        self.output.push(s);
        proof {
            assert(strs_view(self.output@) =~= old(self)@.output.push(gs));
            assert(self@ =~= (TermView { output: old(self)@.output.push(gs), ..old(self)@ }));
        }
    }

    /// Remove all output lines.
    pub fn clear_output(&mut self)
        ensures
            final(self)@ == spec_term_clear_output(old(self)@),
            term_wf(old(self)@) ==> term_wf(final(self)@),
    {
        self.output = Vec::new();
        proof {
            assert(strs_view(self.output@) =~= Seq::<Seq<char>>::empty());
            assert(self@ =~= (TermView { output: Seq::empty(), ..old(self)@ }));
        }
    }

    /// Scroll one step toward older output.
    pub fn scroll_up(&mut self)
        ensures
            final(self)@ == spec_term_scroll_up(old(self)@),
            term_wf(old(self)@) ==> term_wf(final(self)@),
    {
        let len = self.output.len();
        if len > 0 && self.scroll < len - 1 {
            self.scroll = self.scroll + 1;
        }
        proof {
            assert(self@ =~= (TermView {
                scroll: if old(self)@.output.len() > 0 && old(self)@.scroll < old(
                    self,
                )@.output.len() - 1 {
                    old(self)@.scroll + 1
                } else {
                    old(self)@.scroll
                },
                ..old(self)@
            }));
        }
    }

    /// Scroll one step toward newer output.
    pub fn scroll_down(&mut self)
        ensures
            final(self)@ == spec_term_scroll_down(old(self)@),
            term_wf(old(self)@) ==> term_wf(final(self)@),
    {
        if self.scroll > 0 {
            self.scroll = self.scroll - 1;
        }
        proof {
            assert(self@ =~= (TermView {
                scroll: if old(self)@.scroll > 0 {
                    old(self)@.scroll - 1
                } else {
                    0int
                },
                ..old(self)@
            }));
        }
    }

    /// Record an executed command: trimmed, skipped when empty or equal to
    /// the newest entry; history navigation resets.
    pub fn push_history_if_new(&mut self, line: &str)
        requires
            term_wf(old(self)@),
        ensures
            final(self)@ == spec_term_push_history(old(self)@, line@),
            term_wf(final(self)@),
    {
        let lv = chars_of(line);
        let tv = trim_chars(&lv);
        if tv.len() == 0 {
            proof {
                assert(self@ =~= (TermView {
                    history: old(self)@.history,
                    history_pos: old(self)@.history_pos,
                    ..old(self)@
                }));
            }
            return ;
        }
        let t = string_from_chars(&tv);
        let n = self.history.len();
        let dup = if n == 0 {
            false
        } else {
            self.history[n - 1] == t
        };
        if !dup {
            self.history.push(t);
            proof {
                assert(strs_view(self.history@) =~= old(self)@.history.push(trim_of(line@)));
            }
        }
        self.history_pos = None;
        proof {
            assert(self@ =~= (TermView {
                history: if !dup {
                    old(self)@.history.push(trim_of(line@))
                } else {
                    old(self)@.history
                },
                history_pos: None,
                ..old(self)@
            }));
        }
    }

    /// Step one entry up in the history (toward older commands); a fresh
    /// line jumps to the newest entry.
    pub fn history_up(&mut self)
        requires
            term_wf(old(self)@),
        ensures
            final(self)@ == spec_term_history_up(old(self)@),
            term_wf(final(self)@),
    {
        let n = self.history.len();
        if n == 0 {
            return ;
        }
        match self.history_pos {
            None => {
                let entry = self.history[n - 1].clone();
                let cl = entry.unicode_len();
                self.history_pos = Some(n - 1);
                self.input = entry;
                self.cursor = cl;
                proof {
                    assert(self@ =~= (TermView {
                        history_pos: Some(old(self)@.history.len() - 1),
                        input: old(self)@.history.last(),
                        cursor: old(self)@.history.last().len() as int,
                        ..old(self)@
                    }));
                }
            },
            Some(i) => {
                if i > 0 {
                    let entry = self.history[i - 1].clone();
                    let cl = entry.unicode_len();
                    self.history_pos = Some(i - 1);
                    self.input = entry;
                    self.cursor = cl;
                    proof {
                        assert(self@ =~= (TermView {
                            history_pos: Some(i - 1 as int),
                            input: old(self)@.history[i - 1],
                            cursor: old(self)@.history[i - 1].len() as int,
                            ..old(self)@
                        }));
                    }
                }
            },
        }
    }

    /// Step one entry down in the history (toward newer commands); past
    /// the newest the line clears and navigation ends.
    pub fn history_down(&mut self)
        requires
            term_wf(old(self)@),
        ensures
            final(self)@ == spec_term_history_down(old(self)@),
            term_wf(final(self)@),
    {
        let n = self.history.len();
        match self.history_pos {
            None => {},
            Some(i) => {
                if i + 1 < n {
                    let entry = self.history[i + 1].clone();
                    let cl = entry.unicode_len();
                    self.history_pos = Some(i + 1);
                    self.input = entry;
                    self.cursor = cl;
                    proof {
                        assert(self@ =~= (TermView {
                            history_pos: Some(i + 1 as int),
                            input: old(self)@.history[i + 1],
                            cursor: old(self)@.history[i + 1].len() as int,
                            ..old(self)@
                        }));
                    }
                } else {
                    self.history_pos = None;
                    self.input = String::new();
                    self.cursor = 0;
                    proof {
                        assert(self@ =~= (TermView {
                            history_pos: None,
                            input: Seq::empty(),
                            cursor: 0,
                            ..old(self)@
                        }));
                    }
                }
            },
        }
    }
}

/// A scrollable list of log entries.
pub struct LogPanel {
    pub entries: Vec<String>,
    pub scroll: usize,
}

/// The mathematical content of the log panel.
#[verifier::ext_equal]
pub ghost struct LogView {
    pub entries: Seq<Seq<char>>,
    pub scroll: int,
}

pub open spec fn spec_log_add(l: LogView, line: Seq<char>) -> LogView {
    LogView { entries: l.entries.push(line), ..l }
}

pub open spec fn spec_log_clear(l: LogView) -> LogView {
    LogView { entries: Seq::empty(), ..l }
}

pub open spec fn spec_log_scroll_up(l: LogView) -> LogView {
    LogView {
        scroll: if l.entries.len() > 0 && l.scroll < l.entries.len() - 1 {
            l.scroll + 1
        } else {
            l.scroll
        },
        ..l
    }
}

pub open spec fn spec_log_scroll_down(l: LogView) -> LogView {
    LogView {
        scroll: if l.scroll > 0 {
            l.scroll - 1
        } else {
            0int
        },
        ..l
    }
}

impl View for LogPanel {
    type V = LogView;

    open spec fn view(&self) -> LogView {
        LogView { entries: strs_view(self.entries@), scroll: self.scroll as int }
    }
}

impl LogPanel {
    /// An empty log panel.
    pub fn new() -> (r: LogPanel)
        ensures
            r@.entries.len() == 0,
            r@.scroll == 0,
    {
        let r = LogPanel { entries: Vec::new(), scroll: 0 };
        proof {
            assert(strs_view(r.entries@) =~= Seq::<Seq<char>>::empty());
        }
        r
    }

    /// Append one log entry.
    pub fn add(&mut self, s: String)
        ensures
            final(self)@ == spec_log_add(old(self)@, s@),
    {
        self.entries.push(s);
        proof {
            assert(self@ =~= (LogView { entries: old(self)@.entries.push(s@), ..old(self)@ }));
        }
    }

    /// Remove all entries.
    pub fn clear(&mut self)
        ensures
            final(self)@ == spec_log_clear(old(self)@),
    {
        self.entries = Vec::new();
        proof {
            assert(strs_view(self.entries@) =~= Seq::<Seq<char>>::empty());
            assert(self@ =~= (LogView { entries: Seq::empty(), ..old(self)@ }));
        }
    }

    /// Scroll one step toward older entries.
    pub fn scroll_up(&mut self)
        ensures
            final(self)@ == spec_log_scroll_up(old(self)@),
    {
        let len = self.entries.len();
        if len > 0 && self.scroll < len - 1 {
            self.scroll = self.scroll + 1;
        }
        proof {
            assert(self@ =~= (LogView {
                scroll: if old(self)@.entries.len() > 0 && old(self)@.scroll < old(
                    self,
                )@.entries.len() - 1 {
                    old(self)@.scroll + 1
                } else {
                    old(self)@.scroll
                },
                ..old(self)@
            }));
        }
    }

    /// Scroll one step toward newer entries.
    pub fn scroll_down(&mut self)
        ensures
            final(self)@ == spec_log_scroll_down(old(self)@),
    {
        if self.scroll > 0 {
            self.scroll = self.scroll - 1;
        }
        proof {
            assert(self@ =~= (LogView {
                scroll: if old(self)@.scroll > 0 {
                    old(self)@.scroll - 1
                } else {
                    0int
                },
                ..old(self)@
            }));
        }
    }
}

/// A minimal single-line input field.
pub struct InputField {
    pub buffer: String,
    pub cursor_pos: usize,
}

impl InputField {
    /// An empty field.
    pub fn new() -> (r: InputField)
        ensures
            r.buffer@.len() == 0,
            r.cursor_pos == 0,
    {
        InputField { buffer: String::new(), cursor_pos: 0 }
    }

    /// Insert a character at the cursor.
    pub fn input(&mut self, c: char)
        requires
            old(self).cursor_pos <= old(self).buffer@.len(),
        ensures
            old(self).cursor_pos < usize::MAX ==> final(self).buffer@ == old(self).buffer@.insert(
                old(self).cursor_pos as int,
                c,
            ) && final(self).cursor_pos == old(self).cursor_pos + 1,
            old(self).cursor_pos == usize::MAX ==> *final(self) == *old(self),
            final(self).cursor_pos <= final(self).buffer@.len(),
    {
        if self.cursor_pos == usize::MAX {
            return ;
        }
        let n = self.buffer.unicode_len();
        let mut t = String::from_str(self.buffer.as_str().substring_char(0, self.cursor_pos));
        string_push(&mut t, c);
        let tail = self.buffer.as_str().substring_char(self.cursor_pos, n).to_owned();
        t.append(tail.as_str());
        self.buffer = t;
        self.cursor_pos = self.cursor_pos + 1;
        proof {
            assert(self.buffer@ =~= old(self).buffer@.insert(old(self).cursor_pos as int, c));
        }
    }

    /// Delete the character before the cursor, if any.
    pub fn backspace(&mut self)
        requires
            old(self).cursor_pos <= old(self).buffer@.len(),
        ensures
            old(self).cursor_pos > 0 ==> final(self).buffer@ == old(self).buffer@.remove(
                old(self).cursor_pos - 1,
            ) && final(self).cursor_pos == old(self).cursor_pos - 1,
            old(self).cursor_pos == 0 ==> *final(self) == *old(self),
            final(self).cursor_pos <= final(self).buffer@.len(),
    {
        if self.cursor_pos > 0 {
            let n = self.buffer.unicode_len();
            let mut t = String::from_str(
                self.buffer.as_str().substring_char(0, self.cursor_pos - 1),
            );
            let tail = self.buffer.as_str().substring_char(self.cursor_pos, n).to_owned();
            t.append(tail.as_str());
            self.buffer = t;
            self.cursor_pos = self.cursor_pos - 1;
            proof {
                assert(self.buffer@ =~= old(self).buffer@.remove(old(self).cursor_pos - 1));
            }
        }
    }

    /// Clear the field.
    pub fn clear(&mut self)
        ensures
            final(self).buffer@.len() == 0,
            final(self).cursor_pos == 0,
    {
        self.buffer = String::new();
        self.cursor_pos = 0;
    }

    /// The field's content.
    pub fn get_value(&self) -> (r: &str)
        ensures
            r@ == self.buffer@,
    {
        self.buffer.as_str()
    }
}

} // verus!
