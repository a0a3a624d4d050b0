//! The file explorer: a sandboxed, sorted view of one directory subtree.
//!
//! All filesystem reads stay with the caller: `refresh` is handed the raw
//! directory listing and does the filtering, ordering and clamping; paths
//! handed back for opening have passed the confinement check.

use vstd::prelude::*;
use vstd::seq_lib::group_to_multiset_ensures;
use vstd::string::StringExecFns;
use crate::paths::{is_within, within_root, parent_of, parent_dir, join_of, join_path};
use crate::util::{lex_le, lower_of, lowercase, chars_of, lex_le_vec, lemma_lex_le_total,
    lemma_lex_le_trans};

verus! {

broadcast use group_to_multiset_ensures;

/// A single displayed entry: its name and whether it is a directory.
pub struct DirEntryView {
    pub name: String,
    pub is_dir: bool,
}

/// The mathematical content of an entry.
#[verifier::ext_equal]
pub ghost struct EntryV {
    pub name: Seq<char>,
    pub is_dir: bool,
}

impl View for DirEntryView {
    type V = EntryV;

    open spec fn view(&self) -> EntryV {
        EntryV { name: self.name@, is_dir: self.is_dir }
    }
}

pub open spec fn entries_view(v: Seq<DirEntryView>) -> Seq<EntryV> {
    v.map_values(|e: DirEntryView| e@)
}

/// The explorer's ordering: directories before files, then the
/// case-folded names, lexicographically.
pub open spec fn entry_le(a: EntryV, b: EntryV) -> bool {
    if a.is_dir != b.is_dir {
        a.is_dir
    } else {
        lex_le(lower_of(a.name), lower_of(b.name))
    }
}

pub open spec fn entries_sorted(s: Seq<EntryV>) -> bool {
    forall|i: int, j: int| 0 <= i < j < s.len() ==> entry_le(#[trigger] s[i], #[trigger] s[j])
}

proof fn lemma_entry_le_total(a: EntryV, b: EntryV)
    ensures
        entry_le(a, b) || entry_le(b, a),
{
    lemma_lex_le_total(lower_of(a.name), lower_of(b.name));
}

proof fn lemma_entry_le_trans(a: EntryV, b: EntryV, c: EntryV)
    requires
        entry_le(a, b),
        entry_le(b, c),
    ensures
        entry_le(a, c),
{
    if a.is_dir == b.is_dir && b.is_dir == c.is_dir {
        lemma_lex_le_trans(lower_of(a.name), lower_of(b.name), lower_of(c.name));
    }
}

/// Decides the explorer ordering on two entries.
fn entry_le_exec(a: &DirEntryView, b: &DirEntryView) -> (r: bool)
    ensures
        r == entry_le(a@, b@),
{
    if a.is_dir != b.is_dir {
        a.is_dir
    } else {
        let la = lowercase(a.name.as_str());
        let lb = lowercase(b.name.as_str());
        let va = chars_of(la.as_str());
        let vb = chars_of(lb.as_str());
        lex_le_vec(&va, &vb)
    }
}

/// Sorts entries: directories first, then case-insensitively by name.
/// The result is a permutation of the input.
fn sort_entries(input: Vec<DirEntryView>) -> (r: Vec<DirEntryView>)
    ensures
        entries_sorted(entries_view(r@)),
        entries_view(r@).to_multiset() == entries_view(input@).to_multiset(),
{
    let ghost total = entries_view(input@);
    let mut src = input;
    let mut out: Vec<DirEntryView> = Vec::new();
    proof {
        assert(entries_view(out@) =~= Seq::<EntryV>::empty());
        assert(entries_view(out@).to_multiset().add(entries_view(src@).to_multiset())
            =~= total.to_multiset());
    }
    while src.len() > 0
        invariant
            entries_sorted(entries_view(out@)),
            entries_view(out@).to_multiset().add(entries_view(src@).to_multiset())
                == total.to_multiset(),
        decreases src.len(),
    {
        let ghost svpre = entries_view(src@);
        let x = match src.pop() {
            Some(x) => x,
            None => {
                return out;
            },
        };
        proof {
            assert(entries_view(src@).push(x@) =~= svpre);
            assert(svpre.to_multiset() =~= entries_view(src@).to_multiset().insert(x@));
        }
        let mut j: usize = 0;
        while j < out.len() && entry_le_exec(&out[j], &x)
            invariant
                j <= out@.len(),
                forall|k: int| 0 <= k < j ==> entry_le(entries_view(out@)[k], x@),
            decreases out.len() - j,
        {
            j += 1;
        }
        let ghost opre = entries_view(out@);
        let ghost vpre = out@;
        proof {
            if (j as int) < opre.len() {
                lemma_entry_le_total(opre[j as int], x@);
            }
        }
        out.insert(j, x);
        proof {
            let onew = entries_view(out@);
            assert(out@ == vpre.insert(j as int, x));
            vpre.insert_ensures(j as int, x);
            opre.insert_ensures(j as int, x@);
            assert(onew.len() == opre.len() + 1);
            assert forall|i: int| 0 <= i < onew.len() implies onew[i] == opre.insert(
                j as int,
                x@,
            )[i] by {
                if i < j {
                    assert(out@[i] == vpre[i]);
                } else if i == j {
                    assert(out@[i] == x);
                } else {
                    assert(out@[i] == vpre[i - 1]);
                }
            }
            assert(onew =~= opre.insert(j as int, x@));
            // Sortedness: everything before `j` is at most `x`, everything
            // after at least `x`.
            assert forall|i1: int, i2: int|
                0 <= i1 < i2 < onew.len() implies entry_le(onew[i1], onew[i2]) by {
                let a = onew[i1];
                let b = onew[i2];
                if i1 < j && i2 == j {
                } else if i1 == j && i2 > j {
                    if i2 - 1 > j {
                        lemma_entry_le_trans(x@, opre[j as int], opre[i2 - 1]);
                    }
                } else if i1 < j && i2 > j {
                    assert(entry_le(opre[i1], opre[i2 - 1]));
                } else if i1 > j {
                    assert(entry_le(opre[i1 - 1], opre[i2 - 1]));
                } else if i2 < j {
                    assert(entry_le(opre[i1], opre[i2]));
                }
            }
            // The multiset gains exactly `x`.
            assert(onew.remove(j as int) =~= opre);
            assert(opre.to_multiset() =~= onew.to_multiset().remove(x@));
            assert(onew[j as int] == x@);
            assert(onew.contains(x@));
            assert(onew.to_multiset().count(x@) > 0);
            assert(onew.to_multiset() =~= opre.to_multiset().insert(x@)) by {
                let m = onew.to_multiset();
                let mp = opre.to_multiset();
                assert(mp == m.remove(x@));
                assert forall|y: EntryV| m.count(y) == mp.insert(x@).count(y) by {
                    if y == x@ {
                        assert(mp.count(y) == m.count(y) - 1);
                    } else {
                        assert(mp.count(y) == m.count(y));
                    }
                }
                assert(m =~= mp.insert(x@));
            }
        }
    }
    proof {
        assert(entries_view(src@).to_multiset().len() == 0);
        assert(entries_view(out@).to_multiset().add(entries_view(src@).to_multiset())
            =~= entries_view(out@).to_multiset());
    }
    out
}

/// An entry name beginning with a dot, hidden unless asked for.
pub open spec fn is_hidden(e: EntryV) -> bool {
    e.name.len() > 0 && e.name[0] == '.'
}

/// The entries that a listing shows: everything when `show_hidden`, else
/// only the names that do not start with a dot.
pub open spec fn visible_of(s: Seq<EntryV>, show_hidden: bool) -> Seq<EntryV> {
    s.filter(|e: EntryV| show_hidden || !is_hidden(e))
}

/// The mathematical content of the explorer.
#[verifier::ext_equal]
pub ghost struct ExplorerView {
    pub cwd: Seq<char>,
    pub root: Seq<char>,
    pub entries: Seq<EntryV>,
    pub selected: int,
    pub show_hidden: bool,
}

/// The explorer state: a confined working directory, its listing, a
/// selection, and the hidden-files toggle.
pub struct FileExplorerState {
    pub cwd: String,
    pub root: String,
    pub entries: Vec<DirEntryView>,
    pub selected: usize,
    pub show_hidden: bool,
}

impl View for FileExplorerState {
    type V = ExplorerView;

    open spec fn view(&self) -> ExplorerView {
        ExplorerView {
            cwd: self.cwd@,
            root: self.root@,
            entries: entries_view(self.entries@),
            selected: self.selected as int,
            show_hidden: self.show_hidden,
        }
    }
}

/// The working directory stays confined and the selection stays inside
/// the listing.
pub open spec fn explorer_wf(v: ExplorerView) -> bool {
    &&& is_within(v.cwd, v.root)
    &&& (v.entries.len() == 0 ==> v.selected == 0)
    &&& (v.entries.len() > 0 ==> 0 <= v.selected < v.entries.len())
}

impl FileExplorerState {
    /// A fresh explorer rooted (and starting) at `root`.
    pub fn new(root: String) -> (s: FileExplorerState)
        ensures
            s@.cwd == root@,
            s@.root == root@,
            s@.entries.len() == 0,
            s@.selected == 0,
            !s@.show_hidden,
            explorer_wf(s@),
    {
        let cwd = root.clone();
        let s = FileExplorerState { cwd, root, entries: Vec::new(), selected: 0, show_hidden: false };
        proof {
            assert(entries_view(s.entries@) =~= Seq::<EntryV>::empty());
        }
        s
    }
}

/// Where the `go_up` action lands: the parent directory, provided there is
/// one and it stays confined.
pub open spec fn spec_go_up_cwd(v: ExplorerView) -> Seq<char> {
    match parent_of(v.cwd) {
        Some(par) => if is_within(par, v.root) {
            par
        } else {
            v.cwd
        },
        None => v.cwd,
    }
}


/// The selection moved one entry up.
pub open spec fn spec_exp_move_up(x: ExplorerView) -> ExplorerView {
    ExplorerView {
        selected: if x.selected > 0 {
            x.selected - 1
        } else {
            0int
        },
        ..x
    }
}

/// The selection moved one entry down.
pub open spec fn spec_exp_move_down(x: ExplorerView) -> ExplorerView {
    ExplorerView {
        selected: if x.selected + 1 < x.entries.len() {
            x.selected + 1
        } else {
            x.selected
        },
        ..x
    }
}

/// The step to the parent directory, when confined.
pub open spec fn spec_exp_go_up(x: ExplorerView) -> ExplorerView {
    ExplorerView { cwd: spec_go_up_cwd(x), ..x }
}

/// Activating the selected entry: the new explorer state, and the
/// confined file path handed back for opening, if any.
pub open spec fn spec_activate(x: ExplorerView) -> (ExplorerView, Option<Seq<char>>) {
    if x.entries.len() == 0 {
        (x, None)
    } else {
        let e = x.entries[x.selected];
        if e.name == ".."@ {
            (spec_exp_go_up(x), None)
        } else {
            let p = join_of(x.cwd, e.name);
            if e.is_dir {
                (
                    ExplorerView {
                        cwd: if is_within(p, x.root) {
                            p
                        } else {
                            x.cwd
                        },
                        ..x
                    },
                    None,
                )
            } else if is_within(p, x.root) {
                (x, Some(p))
            } else {
                (x, None)
            }
        }
    }
}

/// Stateless explorer actions: refresh, navigate, activate.
pub struct FileExplorerView;

impl FileExplorerView {
    /// Rebuild the listing from a raw directory listing: a `..` entry is
    /// prepended away from the root, dotfiles are dropped unless shown,
    /// the rest is sorted directories-first then case-insensitively by
    /// name, and the selection is clamped into bounds.
    pub fn refresh(state: &mut FileExplorerState, listing: Vec<DirEntryView>)
        requires
            explorer_wf(old(state)@),
        ensures
            final(state)@.cwd == old(state)@.cwd,
            final(state)@.root == old(state)@.root,
            final(state)@.show_hidden == old(state)@.show_hidden,
            entries_sorted(final(state)@.entries),
            final(state)@.entries.to_multiset() == (
            if old(state)@.cwd == old(state)@.root {
                visible_of(entries_view(listing@), old(state)@.show_hidden).to_multiset()
            } else {
                visible_of(entries_view(listing@), old(state)@.show_hidden).to_multiset().insert(
                    EntryV { name: ".."@, is_dir: true },
                )
            }),
            final(state)@.selected == (if final(state)@.entries.len() == 0 {
                0int
            } else if old(state)@.selected < final(state)@.entries.len() {
                old(state)@.selected
            } else {
                final(state)@.entries.len() - 1
            }),
            explorer_wf(final(state)@),
    {
        let ghost lv = entries_view(listing@);
        let mut kept: Vec<DirEntryView> = Vec::new();
        if state.cwd != state.root {
            kept.push(DirEntryView { name: String::from_str(".."), is_dir: true });
        }
        let ghost base = entries_view(kept@);
        proof {
            if old(state)@.cwd == old(state)@.root {
                assert(base =~= Seq::<EntryV>::empty());
            } else {
                assert(base =~= seq![EntryV { name: ".."@, is_dir: true }]);
            }
        }
        let mut i: usize = 0;
        while i < listing.len()
            invariant
                i <= listing@.len(),
                lv == entries_view(listing@),
                entries_view(kept@) == base + visible_of(lv.take(i as int), state.show_hidden),
                state == old(state),
            decreases listing.len() - i,
        {
            let show = state.show_hidden;
            let e = &listing[i];
            let ghost nv0 = e.name@;
            let keep = if show {
                true
            } else {
                let nv = chars_of(e.name.as_str());
                proof {
                    assert(nv@ == nv0);
                }
                !(nv.len() > 0 && nv[0] == '.')
            };
            proof {
                assert(lv.take(i + 1).drop_last() =~= lv.take(i as int));
                assert(lv.take(i + 1).last() == lv[i as int]);
                reveal(Seq::<EntryV>::filter);
            }
            if keep {
                let name = e.name.clone();
                let is_dir = e.is_dir;
                let entry = DirEntryView { name, is_dir };
                let ghost gentry = entry@;
                let ghost kpre = entries_view(kept@);
                kept.push(entry);
                proof {
                    reveal(Seq::<EntryV>::filter);
                    assert(gentry == lv[i as int]);
                    assert(entries_view(kept@) =~= kpre.push(gentry));
                    assert(lv[i as int].name == nv0);
                    assert(state.show_hidden || !is_hidden(lv[i as int]));
                    assert(visible_of(lv.take(i + 1), state.show_hidden) == visible_of(
                        lv.take(i as int),
                        state.show_hidden,
                    ).push(lv[i as int]));
                    assert(entries_view(kept@) =~= base + visible_of(
                        lv.take(i + 1),
                        state.show_hidden,
                    ));
                }
            } else {
                proof {
                    reveal(Seq::<EntryV>::filter);
                    assert(entries_view(kept@) =~= base + visible_of(
                        lv.take(i + 1),
                        state.show_hidden,
                    ));
                }
            }
            i += 1;
        }
        proof {
            assert(lv.take(lv.len() as int) =~= lv);
        }
        let sorted = sort_entries(kept);
        let ghost sv = entries_view(sorted@);
        state.entries = sorted;
        if state.selected >= state.entries.len() {
            state.selected = if state.entries.len() == 0 {
                0
            } else {
                state.entries.len() - 1
            };
        }
        proof {
            let vis = visible_of(lv, old(state)@.show_hidden);
            if old(state)@.cwd == old(state)@.root {
                assert(base + vis =~= vis);
            } else {
                assert((base + vis).drop_first() =~= vis);
                assert((base + vis).first() == EntryV { name: ".."@, is_dir: true });
                assert((base + vis) =~= vis.insert(0, EntryV { name: ".."@, is_dir: true }));
                assert((base + vis).to_multiset() =~= vis.to_multiset().insert(
                    EntryV { name: ".."@, is_dir: true },
                )) by {
                    assert((base + vis).remove(0) =~= vis);
                    let m = (base + vis).to_multiset();
                    let e0 = EntryV { name: ".."@, is_dir: true };
                    assert(vis.to_multiset() =~= m.remove(e0));
                    assert((base + vis).contains(e0));
                    assert(m.count(e0) > 0);
                    assert forall|y: EntryV| m.count(y) == vis.to_multiset().insert(e0).count(
                        y,
                    ) by {
                        if y == e0 {
                            assert(vis.to_multiset().count(y) == m.count(y) - 1);
                        } else {
                            assert(vis.to_multiset().count(y) == m.count(y));
                        }
                    }
                    assert(m =~= vis.to_multiset().insert(e0));
                }
            }
        }
    }

    /// Move the selection one entry up.
    pub fn move_up(state: &mut FileExplorerState)
        ensures
            final(state)@ == spec_exp_move_up(old(state)@),
            explorer_wf(old(state)@) ==> explorer_wf(final(state)@),
    {
        if state.selected > 0 {
            state.selected = state.selected - 1;
        }
        proof {
            assert(state@ =~= spec_exp_move_up(old(state)@));
        }
    }

    /// Move the selection one entry down.
    pub fn move_down(state: &mut FileExplorerState)
        ensures
            final(state)@ == spec_exp_move_down(old(state)@),
            explorer_wf(old(state)@) ==> explorer_wf(final(state)@),
    {
        let len = state.entries.len();
        if len > 0 && state.selected < len - 1 {
            state.selected = state.selected + 1;
        }
        proof {
            assert(state@ =~= spec_exp_move_down(old(state)@));
        }
    }

    /// Step to the parent directory when it exists and stays confined.
    /// The caller re-lists the directory and calls `refresh` afterwards.
    pub fn go_up(state: &mut FileExplorerState)
        requires
            explorer_wf(old(state)@),
        ensures
            final(state)@ == spec_exp_go_up(old(state)@),
            explorer_wf(final(state)@),
    {
        match parent_dir(state.cwd.as_str()) {
            Some(par) => {
                if within_root(state.root.as_str(), par.as_str()) {
                    state.cwd = par;
                }
            },
            None => {},
        }
        proof {
            assert(state@ =~= spec_exp_go_up(old(state)@));
        }
    }

    /// Activate the selected entry: `..` steps up, a directory is entered
    /// (both confined, and the caller refreshes afterwards), and a file's
    /// path is handed back for opening, provided confinement holds.
    pub fn activate(state: &mut FileExplorerState) -> (r: Option<String>)
        requires
            explorer_wf(old(state)@),
        ensures
            explorer_wf(final(state)@),
            final(state)@ == spec_activate(old(state)@).0,
            (match r {
                Some(rp) => Some(rp@),
                None => None::<Seq<char>>,
            }) == spec_activate(old(state)@).1,
    {
        if state.entries.len() == 0 {
            return None;
        }
        let name = state.entries[state.selected].name.clone();
        let is_dir = state.entries[state.selected].is_dir;
        if name == String::from_str("..") {
            Self::go_up(state);
            return None;
        }
        let path = join_path(state.cwd.as_str(), name.as_str());
        if is_dir {
            if within_root(state.root.as_str(), path.as_str()) {
                state.cwd = path;
            }
            proof {
                assert(state@ =~= spec_activate(old(state)@).0);
            }
            None
        } else if within_root(state.root.as_str(), path.as_str()) {
            Some(path)
        } else {
            None
        }
    }
}

} // verus!
