//! The tab manager: an ordered collection of open documents and the index
//! of the one currently shown.

use vstd::prelude::*;
use crate::editor::{EditorState, EdView, ed_wf};

verus! {

/// One open document.
pub struct EditorTab {
    pub state: EditorState,
}

impl View for EditorTab {
    type V = EdView;

    open spec fn view(&self) -> EdView {
        self.state@
    }
}

pub open spec fn tabs_seq_view(v: Seq<EditorTab>) -> Seq<EdView> {
    v.map_values(|t: EditorTab| t@)
}

/// The mathematical content of the tab collection.
#[verifier::ext_equal]
pub ghost struct TabsView {
    pub tabs: Seq<EdView>,
    pub current: int,
}

/// The ordered tabs and the current selector.
pub struct EditorTabs {
    pub tabs: Vec<EditorTab>,
    pub current: usize,
}

impl View for EditorTabs {
    type V = TabsView;

    open spec fn view(&self) -> TabsView {
        TabsView { tabs: tabs_seq_view(self.tabs@), current: self.current as int }
    }
}

/// The selector points at a tab (or at 0 while empty), and every open
/// document is well formed.
pub open spec fn tabs_wf(tv: TabsView) -> bool {
    &&& (tv.tabs.len() == 0 ==> tv.current == 0)
    &&& (tv.tabs.len() > 0 ==> 0 <= tv.current < tv.tabs.len())
    &&& forall|i: int| 0 <= i < tv.tabs.len() ==> ed_wf(#[trigger] tv.tabs[i])
}


/// The selector advanced one tab with wraparound; empty stays put.
pub open spec fn spec_tabs_next(tv: TabsView) -> TabsView {
    if tv.tabs.len() == 0 {
        tv
    } else {
        TabsView { current: (tv.current + 1) % (tv.tabs.len() as int), ..tv }
    }
}

/// The selector retreated one tab with wraparound; empty stays put.
pub open spec fn spec_tabs_prev(tv: TabsView) -> TabsView {
    if tv.tabs.len() == 0 {
        tv
    } else {
        TabsView {
            current: if tv.current == 0 {
                tv.tabs.len() - 1
            } else {
                tv.current - 1
            },
            ..tv
        }
    }
}

/// The current tab removed; the selector clamps to the last position.
pub open spec fn spec_tabs_close(tv: TabsView) -> TabsView {
    if tv.tabs.len() == 0 {
        tv
    } else {
        let rest = tv.tabs.remove(tv.current);
        TabsView {
            tabs: rest,
            current: if tv.current < rest.len() {
                tv.current
            } else if rest.len() > 0 {
                rest.len() - 1
            } else {
                0int
            },
        }
    }
}

impl EditorTabs {
    /// An empty collection.
    pub fn new() -> (t: EditorTabs)
        ensures
            t@.tabs.len() == 0,
            t@.current == 0,
            tabs_wf(t@),
    {
        let t = EditorTabs { tabs: Vec::new(), current: 0 };
        proof {
            assert(tabs_seq_view(t.tabs@) =~= Seq::<EdView>::empty());
        }
        t
    }

    /// Whether no tabs are open.
    pub fn is_empty(&self) -> (r: bool)
        ensures
            r == (self@.tabs.len() == 0),
    {
        self.tabs.len() == 0
    }

    /// The current document, if any.
    pub fn current(&self) -> (r: Option<&EditorState>)
        ensures
            match r {
                Some(ed) => self@.tabs.len() > 0 && 0 <= self@.current < self@.tabs.len() && ed@
                    == self@.tabs[self@.current],
                None => self@.tabs.len() == 0 || self@.current >= self@.tabs.len(),
            },
    {
        if self.current < self.tabs.len() {
            Some(&self.tabs[self.current].state)
        } else {
            None
        }
    }

    /// Focus the next tab, wrapping around; nothing happens while empty.
    pub fn next(&mut self)
        requires
            tabs_wf(old(self)@),
        ensures
            final(self)@ == spec_tabs_next(old(self)@),
            tabs_wf(final(self)@),
    {
        if self.tabs.len() > 0 {
            self.current = (self.current + 1) % self.tabs.len();
        }
        proof {
            assert(self@ =~= spec_tabs_next(old(self)@));
        }
    }

    /// Focus the previous tab, wrapping around; nothing happens while
    /// empty.
    pub fn prev(&mut self)
        requires
            tabs_wf(old(self)@),
        ensures
            final(self)@ == spec_tabs_prev(old(self)@),
            tabs_wf(final(self)@),
    {
        if self.tabs.len() > 0 {
            if self.current == 0 {
                self.current = self.tabs.len() - 1;
            } else {
                self.current = self.current - 1;
            }
        }
        proof {
            assert(self@ =~= spec_tabs_prev(old(self)@));
        }
    }

    /// Close the current tab; the selector clamps to the last position.
    pub fn close_current(&mut self)
        requires
            tabs_wf(old(self)@),
        ensures
            final(self)@ == spec_tabs_close(old(self)@),
            tabs_wf(final(self)@),
    {
        if self.tabs.len() == 0 {
            return ;
        }
        self.tabs.remove(self.current);
        if self.current >= self.tabs.len() {
            self.current = if self.tabs.len() == 0 {
                0
            } else {
                self.tabs.len() - 1
            };
        }
        proof {
            let pre = old(self)@.tabs;
            let cur = old(self)@.current;
            assert forall|i: int|
                0 <= i < tabs_seq_view(self.tabs@).len() implies tabs_seq_view(self.tabs@)[i]
                == pre.remove(cur)[i] by {
                if i < cur {
                    assert(self.tabs@[i] == old(self).tabs@[i]);
                } else {
                    assert(self.tabs@[i] == old(self).tabs@[i + 1]);
                }
            }
            assert(tabs_seq_view(self.tabs@) =~= pre.remove(cur));
            assert(self@ =~= spec_tabs_close(old(self)@));
        }
    }

    /// Focus the tab at `idx` if it exists.
    pub fn focus(&mut self, idx: usize)
        requires
            tabs_wf(old(self)@),
        ensures
            tabs_wf(final(self)@),
            final(self)@.tabs == old(self)@.tabs,
            final(self)@.current == (if idx < old(self)@.tabs.len() {
                idx as int
            } else {
                old(self)@.current
            }),
    {
        if idx < self.tabs.len() {
            self.current = idx;
        }
    }

    /// Open a document: the collection is replaced by this one tab, which
    /// takes focus.
    pub fn open_or_focus(&mut self, ed: EditorState)
        requires
            ed_wf(ed@),
        ensures
            final(self)@.tabs =~= seq![ed@],
            final(self)@.current == 0,
            tabs_wf(final(self)@),
    {
        self.tabs = Vec::new();
        self.tabs.push(EditorTab { state: ed });
        self.current = 0;
        proof {
            assert(tabs_seq_view(self.tabs@) =~= seq![ed@]);
        }
    }
}

} // verus!
