//! Line structure of a document held as one flat character sequence.
//!
//! A document is a `Seq<char>`; its lines are the segments separated by
//! `'\n'`.  The final line has no terminating break, so a document always
//! has one line more than it has breaks (the empty document has one empty
//! line).  The lemmas here say how the line structure moves when one
//! character is inserted or removed, which is all the editing engine does.

use vstd::prelude::*;

verus! {

/// Number of line breaks in `t`.
pub open spec fn nl_count(t: Seq<char>) -> nat
    decreases t.len(),
{
    if t.len() == 0 {
        0
    } else {
        nl_count(t.drop_last()) + if t.last() == '\n' {
            1nat
        } else {
            0nat
        }
    }
}

/// Number of lines of `t`: one more than the number of breaks.
pub open spec fn line_count(t: Seq<char>) -> nat {
    nl_count(t) + 1
}

/// Index of the first `'\n'` at or after `from`, or `t.len()` if there is none.
pub open spec fn next_break(t: Seq<char>, from: int) -> int
    recommends
        0 <= from <= t.len(),
    decreases t.len() - from when 0 <= from <= t.len()
{
    if from >= t.len() {
        t.len() as int
    } else if t[from] == '\n' {
        from
    } else {
        next_break(t, from + 1)
    }
}

/// Character index where line `i` begins.
pub open spec fn line_start(t: Seq<char>, i: int) -> int
    decreases i when i >= 0
{
    if i <= 0 {
        0
    } else {
        next_break(t, line_start(t, i - 1)) + 1
    }
}

/// Character index one past the content of line `i` (the index of its
/// break, or `t.len()` for the final line).
pub open spec fn line_end(t: Seq<char>, i: int) -> int {
    next_break(t, line_start(t, i))
}

/// Number of content characters of line `i` (its break not counted).
pub open spec fn line_len(t: Seq<char>, i: int) -> int {
    line_end(t, i) - line_start(t, i)
}

/// The content characters of line `i`, without its break.
pub open spec fn line_content(t: Seq<char>, i: int) -> Seq<char> {
    t.subrange(line_start(t, i), line_end(t, i))
}

/// Line `i` as a rope hands it out: its content plus the terminating
/// break, when there is one.
pub open spec fn line_with_break(t: Seq<char>, i: int) -> Seq<char> {
    if line_end(t, i) < t.len() {
        t.subrange(line_start(t, i), line_end(t, i) + 1)
    } else {
        t.subrange(line_start(t, i), t.len() as int)
    }
}

/// A text cannot hold more breaks than characters.
pub proof fn lemma_nl_count_le_len(t: Seq<char>)
    ensures
        nl_count(t) <= t.len(),
    decreases t.len(),
{
    if t.len() > 0 {
        lemma_nl_count_le_len(t.drop_last());
    }
}

pub proof fn lemma_nl_count_add(a: Seq<char>, b: Seq<char>)
    ensures
        nl_count(a + b) == nl_count(a) + nl_count(b),
    decreases b.len(),
{
    if b.len() == 0 {
        assert(a + b =~= a);
    } else {
        lemma_nl_count_add(a, b.drop_last());
        assert((a + b).drop_last() =~= a + b.drop_last());
        assert((a + b).last() == b.last());
    }
}

pub proof fn lemma_nl_count_take_succ(t: Seq<char>, k: int)
    requires
        0 <= k < t.len(),
    ensures
        nl_count(t.take(k + 1)) == nl_count(t.take(k)) + if t[k] == '\n' {
            1nat
        } else {
            0nat
        },
{
    assert(t.take(k + 1).drop_last() =~= t.take(k));
    assert(t.take(k + 1).last() == t[k]);
}

/// Newline counts of prefixes grow with the prefix, strictly past a break.
pub proof fn lemma_nl_count_take_mono(t: Seq<char>, a: int, b: int)
    requires
        0 <= a <= b <= t.len(),
    ensures
        nl_count(t.take(a)) <= nl_count(t.take(b)),
        forall|k: int| a <= k < b && t[k] == '\n' ==> nl_count(t.take(a)) < nl_count(t.take(b)),
    decreases b - a,
{
    if a < b {
        lemma_nl_count_take_succ(t, b - 1);
        lemma_nl_count_take_mono(t, a, b - 1);
        assert forall|k: int| a <= k < b && t[k] == '\n' implies nl_count(t.take(a)) < nl_count(
            t.take(b),
        ) by {
            if k < b - 1 {
                assert(nl_count(t.take(a)) < nl_count(t.take(b - 1)));
            }
        }
    }
}

/// A prefix holds no more breaks than the whole.
pub proof fn lemma_nl_count_take_all(t: Seq<char>)
    ensures
        nl_count(t.take(t.len() as int)) == nl_count(t),
{
    assert(t.take(t.len() as int) =~= t);
}

pub proof fn lemma_next_break(t: Seq<char>, from: int)
    requires
        0 <= from <= t.len(),
    ensures
        from <= next_break(t, from) <= t.len(),
        next_break(t, from) < t.len() ==> t[next_break(t, from)] == '\n',
        forall|k: int| from <= k < next_break(t, from) ==> t[k] != '\n',
    decreases t.len() - from,
{
    if from < t.len() && t[from] != '\n' {
        lemma_next_break(t, from + 1);
    }
}

/// `next_break` is pinned by its characterization.
pub proof fn lemma_next_break_is(t: Seq<char>, from: int, e: int)
    requires
        0 <= from <= e <= t.len(),
        forall|k: int| from <= k < e ==> t[k] != '\n',
        e < t.len() ==> t[e] == '\n',
    ensures
        next_break(t, from) == e,
    decreases e - from,
{
    if from < e {
        lemma_next_break_is(t, from + 1, e);
    }
}

/// No breaks sit between two prefix cuts of equal count.
pub proof fn lemma_nl_count_take_range(t: Seq<char>, a: int, b: int)
    requires
        0 <= a <= b <= t.len(),
        forall|k: int| a <= k < b ==> t[k] != '\n',
    ensures
        nl_count(t.take(b)) == nl_count(t.take(a)),
    decreases b - a,
{
    if a < b {
        lemma_nl_count_take_succ(t, b - 1);
        lemma_nl_count_take_range(t, a, b - 1);
    }
}

/// Where line `i` begins: in bounds, preceded by a break (except line 0),
/// with exactly `i` breaks before it.
pub proof fn lemma_line_start_props(t: Seq<char>, i: int)
    requires
        0 <= i < line_count(t),
    ensures
        0 <= line_start(t, i) <= t.len(),
        nl_count(t.take(line_start(t, i))) == i,
        i > 0 ==> 0 < line_start(t, i) && t[line_start(t, i) - 1] == '\n',
    decreases i,
{
    if i == 0 {
        assert(t.take(0) =~= Seq::<char>::empty());
    } else {
        lemma_line_start_props(t, i - 1);
        let s = line_start(t, i - 1);
        let nb = next_break(t, s);
        lemma_next_break(t, s);
        lemma_nl_count_take_range(t, s, nb);
        if nb == t.len() {
            lemma_nl_count_take_all(t);
            assert(false);
        }
        lemma_nl_count_take_succ(t, nb);
    }
}

/// `line_start` is pinned by its characterization.
pub proof fn lemma_line_start_is(t: Seq<char>, i: int, s: int)
    requires
        0 <= i < line_count(t),
        0 <= s <= t.len(),
        nl_count(t.take(s)) == i,
        s > 0 ==> t[s - 1] == '\n',
    ensures
        line_start(t, i) == s,
{
    lemma_line_start_props(t, i);
    let s0 = line_start(t, i);
    if s0 < s {
        lemma_nl_count_take_mono(t, s0, s);
        assert(nl_count(t.take(s0)) < nl_count(t.take(s)));
        assert(false);
    }
    if s < s0 {
        lemma_nl_count_take_mono(t, s, s0);
        assert(nl_count(t.take(s)) < nl_count(t.take(s0)));
        assert(false);
    }
}

/// A line with its break is the content plus one `'\n'`, or the bare
/// content for the final line; the content itself holds no break.
pub proof fn lemma_line_with_break_content(t: Seq<char>, i: int)
    requires
        0 <= i < line_count(t),
    ensures
        line_end(t, i) < t.len() ==> line_with_break(t, i) == line_content(t, i).push('\n'),
        line_end(t, i) == t.len() ==> line_with_break(t, i) == line_content(t, i),
        forall|k: int| 0 <= k < line_content(t, i).len() ==> line_content(t, i)[k] != '\n',
{
    lemma_line_bounds(t, i);
    if line_end(t, i) < t.len() {
        assert(line_with_break(t, i) =~= line_content(t, i).push('\n'));
    } else {
        assert(line_with_break(t, i) =~= line_content(t, i));
    }
}

/// How many breaks an insertion adds.
pub proof fn lemma_nl_count_insert(t: Seq<char>, p: int, c: char)
    requires
        0 <= p <= t.len(),
    ensures
        nl_count(t.insert(p, c)) == nl_count(t) + if c == '\n' {
            1nat
        } else {
            0nat
        },
{
    let mid = Seq::<char>::empty().push(c);
    assert(t.insert(p, c) =~= t.take(p) + (mid + t.skip(p)));
    lemma_nl_count_add(t.take(p), mid + t.skip(p));
    lemma_nl_count_add(mid, t.skip(p));
    assert(mid.len() == 1);
    assert(mid.last() == c);
    assert(mid.drop_last() =~= Seq::<char>::empty());
    assert(nl_count(Seq::<char>::empty()) == 0);
    assert(nl_count(mid) == if c == '\n' { 1nat } else { 0nat });
    assert(t =~= t.take(p) + t.skip(p));
    lemma_nl_count_add(t.take(p), t.skip(p));
}

/// How many breaks a removal takes away.
pub proof fn lemma_nl_count_remove(t: Seq<char>, p: int)
    requires
        0 <= p < t.len(),
    ensures
        nl_count(t.remove(p)) == nl_count(t) - if t[p] == '\n' {
            1nat
        } else {
            0nat
        },
{
    let mid = Seq::<char>::empty().push(t[p]);
    assert(t =~= t.take(p) + (mid + t.skip(p + 1)));
    lemma_nl_count_add(t.take(p), mid + t.skip(p + 1));
    lemma_nl_count_add(mid, t.skip(p + 1));
    assert(mid.len() == 1);
    assert(mid.last() == t[p]);
    assert(mid.drop_last() =~= Seq::<char>::empty());
    assert(nl_count(Seq::<char>::empty()) == 0);
    assert(nl_count(mid) == if t[p] == '\n' { 1nat } else { 0nat });
    assert(t.remove(p) =~= t.take(p) + t.skip(p + 1));
    lemma_nl_count_add(t.take(p), t.skip(p + 1));
}

/// Inserting a plain character inside a line leaves the line structure in
/// place and lengthens that one line.
pub proof fn lemma_insert_char_in_line(t: Seq<char>, row: int, col: int, c: char)
    requires
        0 <= row < line_count(t),
        0 <= col <= line_len(t, row),
        c != '\n',
    ensures
        ({
            let t2 = t.insert(line_start(t, row) + col, c);
            &&& line_count(t2) == line_count(t)
            &&& line_start(t2, row) == line_start(t, row)
            &&& line_len(t2, row) == line_len(t, row) + 1
        }),
{
    let s = line_start(t, row);
    let e = line_end(t, row);
    let p = s + col;
    lemma_line_bounds(t, row);
    let t2 = t.insert(p, c);
    t.insert_ensures(p, c);
    lemma_nl_count_insert(t, p, c);
    assert(t2.take(s) =~= t.take(s));
    lemma_line_start_props(t, row);
    lemma_line_start_is(t2, row, s);
    assert forall|k: int| s <= k < e + 1 implies t2[k] != '\n' by {
        if k < p {
            assert(t2[k] == t[k]);
        } else if k == p {
            assert(t2[k] == c);
        } else {
            assert(t2[k] == t[k - 1]);
        }
    }
    if e < t.len() {
        assert(t2[e + 1] == t[e]);
    }
    lemma_next_break_is(t2, s, e + 1);
}

/// Inserting a break splits a line: the text gains one line, and the cursor
/// line's tail becomes the start of the next line.
pub proof fn lemma_insert_break_in_line(t: Seq<char>, row: int, col: int)
    requires
        0 <= row < line_count(t),
        0 <= col <= line_len(t, row),
    ensures
        ({
            let t2 = t.insert(line_start(t, row) + col, '\n');
            &&& line_count(t2) == line_count(t) + 1
            &&& line_start(t2, row + 1) == line_start(t, row) + col + 1
            &&& line_len(t2, row + 1) == line_len(t, row) - col
        }),
{
    let s = line_start(t, row);
    let e = line_end(t, row);
    let p = s + col;
    lemma_line_bounds(t, row);
    let t2 = t.insert(p, '\n');
    t.insert_ensures(p, '\n');
    lemma_nl_count_insert(t, p, '\n');
    lemma_line_start_props(t, row);
    // Breaks before position p + 1 in t2: the `row` old ones, plus the new one.
    assert(t2.take(p) =~= t.take(p));
    lemma_nl_count_take_range(t, s, p);
    assert(nl_count(t2.take(p)) == row);
    lemma_nl_count_take_succ(t2, p);
    assert(t2.take(p).len() == p);
    assert(nl_count(t2.take(p + 1)) == row + 1);
    lemma_line_start_is(t2, row + 1, p + 1);
    assert forall|k: int| p + 1 <= k < e + 1 implies t2[k] != '\n' by {
        assert(t2[k] == t[k - 1]);
    }
    if e < t.len() {
        assert(t2[e + 1] == t[e]);
    }
    lemma_next_break_is(t2, p + 1, e + 1);
}

/// Removing a plain character from inside a line leaves the line structure
/// in place and shortens that one line.
pub proof fn lemma_remove_char_in_line(t: Seq<char>, row: int, col: int)
    requires
        0 <= row < line_count(t),
        0 <= col < line_len(t, row),
    ensures
        ({
            let t2 = t.remove(line_start(t, row) + col);
            &&& line_count(t2) == line_count(t)
            &&& line_start(t2, row) == line_start(t, row)
            &&& line_len(t2, row) == line_len(t, row) - 1
        }),
{
    let s = line_start(t, row);
    let e = line_end(t, row);
    let p = s + col;
    lemma_line_bounds(t, row);
    let t2 = t.remove(p);
    t.remove_ensures(p);
    lemma_nl_count_remove(t, p);
    assert(t2.take(s) =~= t.take(s));
    lemma_line_start_props(t, row);
    lemma_line_start_is(t2, row, s);
    assert forall|k: int| s <= k < e - 1 implies t2[k] != '\n' by {
        if k < p {
            assert(t2[k] == t[k]);
        } else {
            assert(t2[k] == t[k + 1]);
        }
    }
    if e - 1 < t2.len() {
        assert(t2[e - 1] == t[e]);
    }
    lemma_next_break_is(t2, s, e - 1);
}

/// Removing the break before a line joins it onto the line above.
pub proof fn lemma_remove_break_join(t: Seq<char>, row: int)
    requires
        1 <= row < line_count(t),
    ensures
        ({
            let t2 = t.remove(line_start(t, row) - 1);
            &&& line_count(t2) == line_count(t) - 1
            &&& line_start(t2, row - 1) == line_start(t, row - 1)
            &&& line_len(t2, row - 1) == line_len(t, row - 1) + line_len(t, row)
        }),
{
    let s0 = line_start(t, row - 1);
    let e0 = line_end(t, row - 1);
    let s = line_start(t, row);
    let e = line_end(t, row);
    lemma_line_bounds(t, row - 1);
    lemma_line_bounds(t, row);
    lemma_line_start_props(t, row);
    assert(s == e0 + 1);
    let p = s - 1;
    let t2 = t.remove(p);
    t.remove_ensures(p);
    lemma_nl_count_remove(t, p);
    assert(t2.take(s0) =~= t.take(s0));
    lemma_line_start_props(t, row - 1);
    lemma_line_start_is(t2, row - 1, s0);
    assert forall|k: int| s0 <= k < e - 1 implies t2[k] != '\n' by {
        if k < p {
            assert(t2[k] == t[k]);
        } else {
            assert(t2[k] == t[k + 1]);
        }
    }
    if e - 1 < t2.len() {
        assert(t2[e - 1] == t[e]);
    }
    lemma_next_break_is(t2, s0, e - 1);
}

/// The basic bounds of a valid line, and where its break stands.
pub proof fn lemma_line_bounds(t: Seq<char>, i: int)
    requires
        0 <= i < line_count(t),
    ensures
        0 <= line_start(t, i) <= line_end(t, i) <= t.len(),
        i < line_count(t) - 1 ==> line_end(t, i) < t.len() && t[line_end(t, i)] == '\n',
        i == line_count(t) - 1 ==> line_end(t, i) == t.len(),
        forall|k: int| line_start(t, i) <= k < line_end(t, i) ==> t[k] != '\n',
{
    lemma_line_start_props(t, i);
    let s = line_start(t, i);
    let e = next_break(t, s);
    lemma_next_break(t, s);
    lemma_nl_count_take_range(t, s, e);
    lemma_nl_count_take_all(t);
    if i == line_count(t) - 1 {
        if e < t.len() {
            lemma_nl_count_take_succ(t, e);
            lemma_nl_count_take_mono(t, e + 1, t.len() as int);
            assert(false);
        }
    } else {
        if e == t.len() {
            assert(nl_count(t) == i);
            assert(false);
        }
    }
}

} // verus!
