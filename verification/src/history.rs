//! Laws of the editing history: a run of insertions is reversed exactly by
//! as many undos, redone exactly by as many redos, and the undo stack keeps
//! only the most recent snapshots once it is full.

use vstd::prelude::*;
use crate::editor::{
    EdView, SnapView, cursor_view, spec_insert_char, spec_undo, spec_redo, spec_snap_push,
    undo_cap,
};

verus! {

/// The state after inserting the characters of `cs` one by one.
pub open spec fn spec_insert_seq(e: EdView, cs: Seq<char>) -> EdView
    decreases cs.len(),
{
    if cs.len() == 0 {
        e
    } else {
        spec_insert_char(spec_insert_seq(e, cs.drop_last()), cs.last())
    }
}

/// The state after `n` undos.
pub open spec fn spec_undo_n(e: EdView, n: nat) -> EdView
    decreases n,
{
    if n == 0 {
        e
    } else {
        spec_undo(spec_undo_n(e, (n - 1) as nat))
    }
}

/// The state after `n` redos.
pub open spec fn spec_redo_n(e: EdView, n: nat) -> EdView
    decreases n,
{
    if n == 0 {
        e
    } else {
        spec_redo(spec_redo_n(e, (n - 1) as nat))
    }
}

/// The snapshots that inserting `cs` records, oldest first.
pub open spec fn snaps_of(e: EdView, cs: Seq<char>) -> Seq<SnapView> {
    Seq::new(cs.len(), |k: int| cursor_view(spec_insert_seq(e, cs.take(k))))
}

/// Whether two editor states agree on text, cursor, scroll and dirty flag.
pub open spec fn core_eq(a: EdView, b: EdView) -> bool {
    &&& a.text == b.text
    &&& a.row == b.row
    &&& a.col == b.col
    &&& a.scroll == b.scroll
    &&& a.dirty == b.dirty
}

proof fn lemma_insert_seq_len(e: EdView, cs: Seq<char>)
    requires
        e.undo.len() + cs.len() <= undo_cap(),
    ensures
        spec_insert_seq(e, cs).undo.len() == e.undo.len() + cs.len(),
        cs.len() > 0 ==> spec_insert_seq(e, cs).redo == Seq::<SnapView>::empty(),
        spec_insert_seq(e, cs).path == e.path,
        spec_insert_seq(e, cs).mode == e.mode,
        spec_insert_seq(e, cs).cmdline == e.cmdline,
        spec_insert_seq(e, cs).last_search == e.last_search,
    decreases cs.len(),
{
    if cs.len() > 0 {
        lemma_insert_seq_len(e, cs.drop_last());
    }
}

/// After `j` undos of the state that `cs` built, the editor agrees with
/// the state that the first `cs.len() - j` insertions alone would have
/// built, and the redo stack holds the undone states, newest last.
proof fn lemma_undo_phase(e: EdView, cs: Seq<char>, j: nat)
    requires
        e.undo.len() + cs.len() <= undo_cap(),
        j <= cs.len(),
    ensures
        ({
            let ei = spec_insert_seq(e, cs);
            let m = spec_insert_seq(e, cs.take(cs.len() - j));
            let u = spec_undo_n(ei, j);
            &&& core_eq(u, m)
            &&& u.undo == m.undo
            &&& u.redo == ei.redo + Seq::new(
                j as nat,
                |k: int| cursor_view(spec_insert_seq(e, cs.take(cs.len() - k))),
            )
        }),
    decreases j,
{
    let ei = spec_insert_seq(e, cs);
    if j == 0 {
        assert(cs.take(cs.len() as int) =~= cs);
        assert(ei.redo + Seq::new(0, |k: int| cursor_view(spec_insert_seq(e, cs.take(cs.len() - k))))
            =~= ei.redo);
    } else {
        lemma_undo_phase(e, cs, (j - 1) as nat);
        let up = spec_undo_n(ei, (j - 1) as nat);
        let d = cs.take(cs.len() - j + 1);
        let dp = cs.take(cs.len() - j);
        let m = spec_insert_seq(e, d);
        let mp = spec_insert_seq(e, dp);
        assert(d.drop_last() =~= dp);
        assert(d.last() == cs[cs.len() - j]);
        assert(m == spec_insert_char(mp, cs[cs.len() - j]));
        lemma_insert_seq_len(e, dp);
        assert(m.undo == spec_snap_push(mp.undo, cursor_view(mp)));
        assert(mp.undo.len() + 1 <= undo_cap());
        assert(m.undo == mp.undo.push(cursor_view(mp)));
        assert(up.undo == m.undo);
        assert(up.undo.len() > 0);
        assert(up.undo.last() == cursor_view(mp));
        let u = spec_undo_n(ei, j);
        assert(u == spec_undo(up));
        assert(core_eq(u, mp));
        assert(u.undo =~= mp.undo);
        assert(cursor_view(up) =~= cursor_view(m));
        assert(u.redo =~= ei.redo + Seq::new(
            j as nat,
            |k: int| cursor_view(spec_insert_seq(e, cs.take(cs.len() - k))),
        ));
    }
}

/// After the full run of undos and then `j` redos, the editor agrees with
/// the state that the first `j` insertions alone would have built.
proof fn lemma_redo_phase(e: EdView, cs: Seq<char>, j: nat)
    requires
        e.undo.len() + cs.len() <= undo_cap(),
        j <= cs.len(),
    ensures
        ({
            let ei = spec_insert_seq(e, cs);
            let u = spec_undo_n(ei, cs.len());
            let m = spec_insert_seq(e, cs.take(j as int));
            let r = spec_redo_n(u, j);
            &&& core_eq(r, m)
            &&& r.undo == m.undo
            &&& cs.len() > 0 ==> r.redo == u.redo.take(cs.len() - j)
        }),
    decreases j,
{
    let n = cs.len();
    let ei = spec_insert_seq(e, cs);
    let u = spec_undo_n(ei, n);
    lemma_undo_phase(e, cs, n);
    if j == 0 {
        assert(cs.take(0) =~= Seq::<char>::empty());
        assert(spec_insert_seq(e, cs.take(0)) == e);
        if n > 0 {
            lemma_insert_seq_len(e, cs);
            assert(ei.redo =~= Seq::<SnapView>::empty());
            assert(u.redo.len() == n);
            assert(u.redo.take(n as int) =~= u.redo);
        }
        assert(core_eq(u, spec_insert_seq(e, cs.take(0))));
    } else {
        lemma_redo_phase(e, cs, (j - 1) as nat);
        let rp = spec_redo_n(u, (j - 1) as nat);
        let d = cs.take(j as int);
        let dp = cs.take(j - 1);
        let m = spec_insert_seq(e, d);
        let mp = spec_insert_seq(e, dp);
        assert(d.drop_last() =~= dp);
        assert(d.last() == cs[j - 1]);
        assert(m == spec_insert_char(mp, cs[j - 1]));
        lemma_insert_seq_len(e, dp);
        assert(m.undo == spec_snap_push(mp.undo, cursor_view(mp)));
        assert(mp.undo.len() + 1 <= undo_cap());
        assert(m.undo == mp.undo.push(cursor_view(mp)));
        // The redo stack before this step: the undone states down to level j.
        assert(rp.redo == u.redo.take(n - j + 1));
        lemma_insert_seq_len(e, cs);
        assert(ei.redo =~= Seq::<SnapView>::empty());
        assert(u.redo =~= Seq::new(
            n as nat,
            |k: int| cursor_view(spec_insert_seq(e, cs.take(n - k))),
        ));
        assert(rp.redo.len() == n - j + 1);
        assert(rp.redo.last() == u.redo[n - j]);
        assert(cs.take(n - (n - j)) =~= d);
        assert(rp.redo.last() == cursor_view(m));
        let r = spec_redo_n(u, j);
        assert(r == spec_redo(rp));
        assert(core_eq(r, m));
        assert(cursor_view(rp) =~= cursor_view(mp));
        assert(r.undo =~= m.undo);
        assert(r.redo =~= u.redo.take(n - j));
    }
}

/// A run of insertions followed by as many undos restores the text and
/// the cursor; as many redos then restore the state the insertions built.
/// This holds whenever the run fits into the undo stack's free room.
pub proof fn lemma_insert_undo_redo_round_trip(e: EdView, cs: Seq<char>)
    requires
        e.undo.len() + cs.len() <= undo_cap(),
    ensures
        ({
            let ei = spec_insert_seq(e, cs);
            let u = spec_undo_n(ei, cs.len());
            let r = spec_redo_n(u, cs.len());
            &&& u.text == e.text
            &&& u.row == e.row
            &&& u.col == e.col
            &&& u.scroll == e.scroll
            &&& u.dirty == e.dirty
            &&& r.text == ei.text
            &&& r.row == ei.row
            &&& r.col == ei.col
        }),
{
    lemma_undo_phase(e, cs, cs.len());
    lemma_redo_phase(e, cs, cs.len());
    assert(cs.take(cs.len() - cs.len()) =~= Seq::<char>::empty());
    assert(cs.take(cs.len() as int) =~= cs);
}

/// However many insertions run, the undo stack stays within its bound and
/// holds exactly the most recent snapshots, oldest first.
pub proof fn lemma_undo_stack_keeps_latest(e: EdView, cs: Seq<char>)
    requires
        e.undo.len() <= undo_cap(),
    ensures
        ({
            let total = e.undo + snaps_of(e, cs);
            let ov: int = if total.len() > undo_cap() {
                total.len() - undo_cap()
            } else {
                0
            };
            &&& spec_insert_seq(e, cs).undo.len() <= undo_cap()
            &&& spec_insert_seq(e, cs).undo == total.skip(ov)
        }),
    decreases cs.len(),
{
    let total = e.undo + snaps_of(e, cs);
    let ov: int = if total.len() > undo_cap() {
        total.len() - undo_cap()
    } else {
        0
    };
    if cs.len() == 0 {
        assert(snaps_of(e, cs) =~= Seq::<SnapView>::empty());
        assert(total.skip(0) =~= e.undo);
    } else {
        lemma_undo_stack_keeps_latest(e, cs.drop_last());
        let dp = cs.drop_last();
        let totalp = e.undo + snaps_of(e, dp);
        let ovp: int = if totalp.len() > undo_cap() {
            totalp.len() - undo_cap()
        } else {
            0
        };
        let mp = spec_insert_seq(e, dp);
        let m = spec_insert_seq(e, cs);
        assert(m == spec_insert_char(mp, cs.last()));
        assert(m.undo == spec_snap_push(mp.undo, cursor_view(mp)));
        // The snapshot list grows by the state the last insertion saw.
        assert forall|k: int| 0 <= k < dp.len() implies snaps_of(e, cs)[k] == snaps_of(e, dp)[k] by {
            assert(cs.take(k) =~= dp.take(k));
        }
        assert(cs.take(cs.len() - 1) =~= dp);
        assert(snaps_of(e, cs) =~= snaps_of(e, dp).push(cursor_view(mp)));
        assert(total =~= totalp.push(cursor_view(mp)));
        if mp.undo.len() + 1 > undo_cap() {
            assert(mp.undo.len() == undo_cap());
            assert(m.undo =~= mp.undo.push(cursor_view(mp)).skip(1));
            assert(ov == ovp + 1);
            assert(m.undo =~= total.skip(ov));
        } else {
            assert(m.undo == mp.undo.push(cursor_view(mp)));
            assert(ov == ovp);
            assert(m.undo =~= total.skip(ov));
        }
    }
}

} // verus!
