//! Trusted view of the ropey rope that backs the document buffer.
//!
//! The rope is opaque to the verifier; `rope_text` names what it holds, as
//! one flat character sequence, and each wrapper states over that name what
//! the ropey call does.  The crate is built without ropey's extra line-break
//! features, so the only line break is `'\n'`, matching `crate::text`.

use vstd::prelude::*;
use crate::text::{line_count, line_start, line_with_break};

verus! {

#[verifier::external_type_specification]
#[verifier::external_body]
pub struct ExRope(ropey::Rope);

/// What the rope holds, as one flat character sequence.
pub uninterp spec fn rope_text(r: ropey::Rope) -> Seq<char>;

/// Relies on ropey::Rope::from_str: builds a rope holding exactly `s`.
#[verifier::external_body]
pub(crate) fn rope_from_str(s: &str) -> (r: ropey::Rope)
    ensures
        rope_text(r) == s@,
{
    ropey::Rope::from_str(s)
}

/// Relies on ropey::Rope's Clone impl: the clone holds the same text.
#[verifier::external_body]
pub(crate) fn rope_clone(r: &ropey::Rope) -> (c: ropey::Rope)
    ensures
        rope_text(c) == rope_text(*r),
{
    r.clone()
}

/// Relies on ropey::Rope's Display impl (through ToString): writes out the
/// whole text unchanged.
#[verifier::external_body]
pub(crate) fn rope_to_string(r: &ropey::Rope) -> (s: String)
    ensures
        s@ == rope_text(*r),
{
    r.to_string()
}

/// Relies on ropey::Rope::len_chars: the total character count.
#[verifier::external_body]
pub(crate) fn rope_len_chars(r: &ropey::Rope) -> (n: usize)
    ensures
        n == rope_text(*r).len(),
{
    r.len_chars()
}

/// Relies on ropey::Rope::len_lines: one more than the number of breaks.
#[verifier::external_body]
pub(crate) fn rope_len_lines(r: &ropey::Rope) -> (n: usize)
    ensures
        n == line_count(rope_text(*r)),
{
    r.len_lines()
}

/// Relies on ropey::Rope::line_to_char: the character index where a line
/// begins.
#[verifier::external_body]
pub(crate) fn rope_line_to_char(r: &ropey::Rope, row: usize) -> (n: usize)
    requires
        row < line_count(rope_text(*r)),
    ensures
        n == line_start(rope_text(*r), row as int),
{
    r.line_to_char(row)
}

/// Relies on ropey::Rope::line and ropey's character iterator over a line
/// slice: hands out one line, content plus its break when it has one.
#[verifier::external_body]
pub(crate) fn rope_line_chars(r: &ropey::Rope, row: usize) -> (v: Vec<char>)
    requires
        row < line_count(rope_text(*r)),
    ensures
        v@ == line_with_break(rope_text(*r), row as int),
{
    r.line(row).chars().collect()
}

/// Relies on ropey::Rope::insert_char: inserts one character at a
/// character index.
#[verifier::external_body]
pub(crate) fn rope_insert_char(r: &mut ropey::Rope, char_idx: usize, ch: char)
    requires
        char_idx <= rope_text(*old(r)).len(),
    ensures
        rope_text(*final(r)) == rope_text(*old(r)).insert(char_idx as int, ch),
{
    r.insert_char(char_idx, ch)
}

/// Relies on ropey::Rope::remove: removes the characters of a character
/// index range.
#[verifier::external_body]
pub(crate) fn rope_remove(r: &mut ropey::Rope, start: usize, end: usize)
    requires
        start <= end <= rope_text(*old(r)).len(),
    ensures
        rope_text(*final(r)) == rope_text(*old(r)).take(start as int) + rope_text(*old(r)).skip(
            end as int,
        ),
{
    r.remove(start..end)
}

} // verus!
