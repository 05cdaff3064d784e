//! One file as the viewer sees it: the file's data, the viewport of its
//! active sheet, and sheet selection with wraparound.
use vstd::prelude::*;
use vstd::string::{StrSliceExecFns, StringExecFns};
use crate::file::{Records, TableFile};
use crate::table::{shaped, col_next_post, col_prev_post, row_next_post, row_prev_post, TableView};

verus! {

/// The label of a named sheet: "file/sheet".
pub open spec fn label_of(name: Seq<char>, sheet: Seq<char>) -> Seq<char> {
    name + seq!['/'] + sheet
}

/// A file's entries in the finder's candidate universe: one per sheet,
/// labelled "file/sheet" — except that an unloaded file, or a file with
/// exactly one unnamed sheet, is listed once under the file name alone.
pub open spec fn search_labels(v: FileView) -> Seq<Seq<char>> {
    match v.file.records {
        None => seq![v.file.name@],
        Some(rs) => if rs@.len() == 1 && rs@[0].0@.len() == 0 {
            seq![v.file.name@]
        } else {
            Seq::new(rs@.len(), |j: int| label_of(v.file.name@, rs@[j].0@))
        },
    }
}

/// The view of one file: its data and the viewport of the selected sheet.
pub struct FileView {
    pub file: TableFile,
    pub table_view: TableView,
    pub selected_sheet: usize,
}

/// What stepping to the next sheet leaves behind: with no sheets a no-op,
/// else the selection wraps forward and the viewport is shaped for the
/// newly selected sheet.
pub open spec fn sheet_next_post(v: FileView, w: FileView) -> bool {
    if v.spec_n_sheets() == 0 {
        w == v
    } else {
        &&& w.file == v.file
        &&& w.selected_sheet == if v.selected_sheet + 1 < v.spec_n_sheets() {
            v.selected_sheet + 1
        } else {
            0int
        }
        &&& shaped(
            w.table_view,
            v.file.records->Some_0@[w.selected_sheet as int].1.headers@,
            v.file.records->Some_0@[w.selected_sheet as int].1.rows@,
        )
    }
}

/// The mirror image: the selection wraps backward.
pub open spec fn sheet_prev_post(v: FileView, w: FileView) -> bool {
    if v.spec_n_sheets() == 0 {
        w == v
    } else {
        &&& w.file == v.file
        &&& w.selected_sheet == if v.selected_sheet > 0 {
            v.selected_sheet - 1
        } else {
            v.spec_n_sheets() - 1
        }
        &&& shaped(
            w.table_view,
            v.file.records->Some_0@[w.selected_sheet as int].1.headers@,
            v.file.records->Some_0@[w.selected_sheet as int].1.rows@,
        )
    }
}

/// What a finder jump leaves behind: a valid sheet index moves the
/// selection there (an invalid one leaves it), and the viewport is shaped
/// for the selected sheet of a loaded file.
pub open spec fn jump_post(v: FileView, w: FileView, si: int) -> bool {
    &&& w.file == v.file
    &&& w.selected_sheet == if 0 <= si < v.spec_n_sheets() {
        si
    } else {
        v.selected_sheet as int
    }
    &&& match v.file.records {
        Some(rs) => if w.selected_sheet < rs@.len() {
            shaped(
                w.table_view,
                rs@[w.selected_sheet as int].1.headers@,
                rs@[w.selected_sheet as int].1.rows@,
            )
        } else {
            w.table_view == v.table_view
        },
        None => w.table_view == v.table_view,
    }
}

impl FileView {
    /// The file and the viewport are well formed and the selected sheet
    /// exists (index 0 stands ready while the file has no sheets).
    pub open spec fn wf(&self) -> bool {
        &&& self.file.wf()
        &&& self.table_view.wf()
        &&& match self.file.records {
            Some(rs) => self.selected_sheet < rs@.len() || (rs@.len() == 0
                && self.selected_sheet == 0),
            None => self.selected_sheet == 0,
        }
    }

    /// How many sheets the selected-sheet index ranges over.
    pub open spec fn spec_n_sheets(&self) -> int {
        match self.file.records {
            Some(rs) => rs@.len() as int,
            None => 0int,
        }
    }

    /// Wrap a file that has not produced any view state yet.
    pub fn new(file: TableFile) -> (r: FileView)
        requires
            file.wf(),
        ensures
            r.file == file,
            r.selected_sheet == 0,
            r.table_view.is_initial(),
            r.wf(),
    {
        FileView { file, table_view: TableView::new(), selected_sheet: 0 }
    }

    /// The file's display name.
    pub fn name(&self) -> (r: &str)
        ensures
            r@ == self.file.name@,
    {
        self.file.name.as_str()
    }

    /// The file's finder labels, per `search_labels`.
    pub fn search_options(&self) -> (r: Vec<String>)
        ensures
            r@.len() == search_labels(*self).len(),
            forall|j: int|
                0 <= j < r@.len() ==> (#[trigger] r@[j])@ == search_labels(*self)[j],
    {
        proof {
            reveal_strlit("/");
        }
        match &self.file.records {
            None => {
                let mut r: Vec<String> = Vec::new();
                r.push(self.file.name.clone());
                r
            },
            Some(rs) => {
                if rs.len() == 1 && rs[0].0.as_str().unicode_len() == 0 {
                    let mut r: Vec<String> = Vec::new();
                    r.push(self.file.name.clone());
                    r
                } else {
                    let n = rs.len();
                    let mut r: Vec<String> = Vec::new();
                    let mut j: usize = 0;
                    while j < n
                        invariant
                            j <= n,
                            n == rs@.len(),
                            r@.len() == j,
                            "/"@ == seq!['/'],
                            forall|t: int|
                                0 <= t < j ==> (#[trigger] r@[t])@ == label_of(
                                    self.file.name@,
                                    rs@[t].0@,
                                ),
                        decreases n - j,
                    {
                        let mut s = self.file.name.clone();
                        s.append("/");
                        s.append(rs[j].0.as_str());
                        r.push(s);
                        j += 1;
                    }
                    r
                }
            },
        }
    }

    /// Jump straight to a sheet; an index past the sheets is ignored.
    pub fn select_sheet(&mut self, sheet_idx: usize)
        requires
            old(self).wf(),
        ensures
            final(self).wf(),
            final(self).file == old(self).file,
            final(self).table_view == old(self).table_view,
            final(self).selected_sheet == if sheet_idx < old(self).spec_n_sheets() {
                sheet_idx as int
            } else {
                old(self).selected_sheet as int
            },
    {
        if sheet_idx < self.file.n_sheets() {
            self.selected_sheet = sheet_idx;
        }
    }

    /// Recompute the viewport's shape from the selected sheet; a file
    /// with no loaded sheets leaves the viewport alone.
    pub fn refresh_shape(&mut self)
        requires
            old(self).wf(),
        ensures
            final(self).wf(),
            final(self).file == old(self).file,
            final(self).selected_sheet == old(self).selected_sheet,
            match old(self).file.records {
                Some(rs) => if old(self).selected_sheet < rs@.len() {
                    shaped(
                        final(self).table_view,
                        rs@[old(self).selected_sheet as int].1.headers@,
                        rs@[old(self).selected_sheet as int].1.rows@,
                    )
                } else {
                    final(self).table_view == old(self).table_view
                },
                None => final(self).table_view == old(self).table_view,
            },
    {
        match &self.file.records {
            None => {},
            Some(rs) => {
                if self.selected_sheet < rs.len() {
                    let recs = &rs[self.selected_sheet].1;
                    assert(recs.wf());
                    self.table_view.update_shape(recs);
                }
            },
        }
    }

    /// Install the sheets the loader produced, put the selection back on
    /// the first sheet when the old one no longer exists, and shape the
    /// viewport for the now-selected sheet.
    pub fn install_records(&mut self, recs: Vec<(String, Records)>)
        requires
            old(self).wf(),
            forall|j: int| 0 <= j < recs@.len() ==> (#[trigger] recs@[j]).1.wf(),
        ensures
            final(self).wf(),
            final(self).file.name == old(self).file.name,
            final(self).file.records == Some(recs),
            final(self).selected_sheet == if old(self).selected_sheet < recs@.len() {
                old(self).selected_sheet as int
            } else {
                0int
            },
            final(self).selected_sheet < recs@.len() ==> shaped(
                final(self).table_view,
                recs@[final(self).selected_sheet as int].1.headers@,
                recs@[final(self).selected_sheet as int].1.rows@,
            ),
    {
        let n = recs.len();
        self.file.install_records(recs);
        if self.selected_sheet >= n {
            self.selected_sheet = 0;
        }
        self.refresh_shape();
    }

    /// Move to the next sheet, wrapping from the last to the first, and
    /// shape the viewport for it; with no sheets nothing changes.
    pub fn next_sheet(&mut self)
        requires
            old(self).wf(),
        ensures
            final(self).wf(),
            sheet_next_post(*old(self), *final(self)),
    {
        let n = self.file.n_sheets();
        if n == 0 {
            return ;
        }
        if self.selected_sheet < n - 1 {
            self.selected_sheet = self.selected_sheet + 1;
        } else {
            self.selected_sheet = 0;
        }
        self.refresh_shape();
    }

    /// Move to the previous sheet, wrapping from the first to the last,
    /// and shape the viewport for it; with no sheets nothing changes.
    pub fn previous_sheet(&mut self)
        requires
            old(self).wf(),
        ensures
            final(self).wf(),
            sheet_prev_post(*old(self), *final(self)),
    {
        let n = self.file.n_sheets();
        if n == 0 {
            return ;
        }
        if self.selected_sheet > 0 {
            self.selected_sheet = self.selected_sheet - 1;
        } else {
            self.selected_sheet = n - 1;
        }
        self.refresh_shape();
    }

    /// Jump to the sheet a confirmed finder result names, and shape the
    /// viewport for it.
    pub fn jump_to_sheet(&mut self, sheet_idx: usize)
        requires
            old(self).wf(),
        ensures
            final(self).wf(),
            jump_post(*old(self), *final(self), sheet_idx as int),
    {
        self.select_sheet(sheet_idx);
        self.refresh_shape();
    }

    /// Step the row selection down (see the viewport engine).
    pub fn next_row(&mut self)
        requires
            old(self).wf(),
        ensures
            final(self).wf(),
            final(self).file == old(self).file,
            final(self).selected_sheet == old(self).selected_sheet,
            row_next_post(old(self).table_view, final(self).table_view),
    {
        self.table_view.next_row();
    }

    /// Step the row selection up (see the viewport engine).
    pub fn previous_row(&mut self)
        requires
            old(self).wf(),
        ensures
            final(self).wf(),
            final(self).file == old(self).file,
            final(self).selected_sheet == old(self).selected_sheet,
            row_prev_post(old(self).table_view, final(self).table_view),
    {
        self.table_view.previous_row();
    }

    /// Step the column selection right (see the viewport engine).
    pub fn next_column(&mut self, available_width: usize)
        requires
            old(self).wf(),
        ensures
            final(self).wf(),
            final(self).file == old(self).file,
            final(self).selected_sheet == old(self).selected_sheet,
            col_next_post(old(self).table_view, final(self).table_view, available_width as int),
    {
        self.table_view.next_column(available_width);
    }

    /// Step the column selection left (see the viewport engine).
    pub fn previous_column(&mut self, available_width: usize)
        requires
            old(self).wf(),
        ensures
            final(self).wf(),
            final(self).file == old(self).file,
            final(self).selected_sheet == old(self).selected_sheet,
            col_prev_post(old(self).table_view, final(self).table_view, available_width as int),
    {
        self.table_view.previous_column(available_width);
    }
}

} // verus!
