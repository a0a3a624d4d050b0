//! A minimal flat file list with a movable selection.

use vstd::prelude::*;

verus! {

/// A plain list of file names and the selected index.
pub struct FileExplorer {
    pub files: Vec<String>,
    pub selected: usize,
}

impl FileExplorer {
    /// A list over the given names, selecting the first.
    pub fn new(files: Vec<String>) -> (r: FileExplorer)
        ensures
            r.files@ == files@,
            r.selected == 0,
    {
        FileExplorer { files, selected: 0 }
    }

    /// Move the selection one entry up.
    pub fn move_up(&mut self)
        ensures
            final(self).files@ == old(self).files@,
            final(self).selected == (if old(self).selected > 0 {
                old(self).selected - 1
            } else {
                0
            }),
    {
        if self.selected > 0 {
            self.selected = self.selected - 1;
        }
    }

    /// Move the selection one entry down.
    pub fn move_down(&mut self)
        ensures
            final(self).files@ == old(self).files@,
            final(self).selected == (if old(self).selected + 1 < old(self).files@.len() {
                old(self).selected + 1
            } else {
                old(self).selected as int
            }),
    {
        let len = self.files.len();
        if len > 0 && self.selected < len - 1 {
            self.selected = self.selected + 1;
        }
    }
}

} // verus!
