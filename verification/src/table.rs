//! The viewport engine: per-sheet column widths, the horizontal column
//! window with one-column paging, and row/column selection with wraparound.
use vstd::prelude::*;
use crate::file::Records;

verus! {

/// What `unicode_width::UnicodeWidthStr::width` returns for a string with
/// these characters: its width in terminal columns.
pub uninterp spec fn width_of(s: Seq<char>) -> usize;

/// Relies on unicode_width's `UnicodeWidthStr::width`: the number of
/// terminal columns a string occupies, a function of its characters alone;
/// an empty string occupies none.
#[verifier::external_body]
fn display_width(s: &str) -> (r: usize)
    ensures
        r == width_of(s@),
        s@.len() == 0 ==> r == 0,
{
    unicode_width::UnicodeWidthStr::width(s)
}

/// The width of column `i` over the header and the first `k` rows:
/// the widest display width among them.
pub open spec fn col_width_upto(
    headers: Seq<String>,
    rows: Seq<Vec<String>>,
    i: int,
    k: int,
) -> int
    decreases k,
{
    if k <= 0 {
        width_of(headers[i]@) as int
    } else {
        let cell = width_of(rows[k - 1]@[i]@) as int;
        let prev = col_width_upto(headers, rows, i, k - 1);
        if cell > prev {
            cell
        } else {
            prev
        }
    }
}

/// The width of column `i`: the widest display width among its header
/// and every cell of the column.
pub open spec fn col_width(headers: Seq<String>, rows: Seq<Vec<String>>, i: int) -> int {
    col_width_upto(headers, rows, i, rows.len() as int)
}

/// The partial maximum covers the header and every cell seen so far.
proof fn lemma_col_width_bounds(headers: Seq<String>, rows: Seq<Vec<String>>, i: int, k: int)
    requires
        0 <= k <= rows.len(),
    ensures
        col_width_upto(headers, rows, i, k) >= width_of(headers[i]@),
        forall|t: int|
            0 <= t < k ==> col_width_upto(headers, rows, i, k) >= width_of(rows[t]@[i]@),
    decreases k,
{
    if k > 0 {
        lemma_col_width_bounds(headers, rows, i, k - 1);
    }
}

/// Every column is at least as wide as its header and as every cell in
/// it, so neither is ever truncated by the computed width.
pub proof fn lemma_col_width_covers(headers: Seq<String>, rows: Seq<Vec<String>>, i: int)
    ensures
        col_width(headers, rows, i) >= width_of(headers[i]@),
        forall|t: int|
            0 <= t < rows.len() ==> col_width(headers, rows, i) >= width_of(rows[t]@[i]@),
{
    lemma_col_width_bounds(headers, rows, i, rows.len() as int);
}

/// How many columns fit, starting at column `i`, into `remaining` terminal
/// columns, when each column takes its width plus one column of padding.
pub open spec fn fit_from(widths: Seq<usize>, i: int, remaining: int) -> int
    decreases widths.len() - i,
{
    if i < 0 || i >= widths.len() || widths[i] + 1 > remaining {
        0
    } else {
        1 + fit_from(widths, i + 1, remaining - (widths[i] + 1))
    }
}

/// No more columns fit than there are columns left of the offset.
pub proof fn lemma_fit_from_bound(widths: Seq<usize>, i: int, remaining: int)
    requires
        0 <= i <= widths.len(),
    ensures
        0 <= fit_from(widths, i, remaining) <= widths.len() - i,
    decreases widths.len() - i,
{
    if i < widths.len() && widths[i] + 1 <= remaining {
        lemma_fit_from_bound(widths, i + 1, remaining - (widths[i] + 1));
    }
}

/// The per-frame derived window: how many columns are visible and whether
/// columns are hidden beyond either edge.
pub struct WindowLayout {
    pub visible_col_count: usize,
    pub overflow_left: bool,
    pub overflow_right: bool,
}

/// The view freshly shaped for a sheet with these headers and rows: one
/// computed width per column, the row count taken over, and the offset,
/// both selections and the scroll position reset.
pub open spec fn shaped(v: TableView, headers: Seq<String>, rows: Seq<Vec<String>>) -> bool {
    &&& v.col_widths@.len() == headers.len()
    &&& forall|i: int|
        0 <= i < headers.len() ==> #[trigger] v.col_widths@[i] == col_width(headers, rows, i)
    &&& v.n_rows == rows.len()
    &&& v.col_offset == 0
    &&& v.row_selection is None
    &&& v.col_selection is None
    &&& v.scroll_position == 0
}

/// The view state of one active sheet.
pub struct TableView {
    pub col_widths: Vec<usize>,
    pub n_rows: usize,
    pub row_selection: Option<usize>,
    pub col_selection: Option<usize>,
    pub col_offset: usize,
    pub scroll_position: usize,
}

/// How many columns are visible for this state at this available width.
pub open spec fn visible_count(v: TableView, avail: int) -> int {
    fit_from(v.col_widths@, v.col_offset as int, avail)
}

/// Columns are hidden left of the window.
pub open spec fn overflow_left_at(v: TableView) -> bool {
    v.col_offset > 0
}

/// Columns are hidden right of the window.
pub open spec fn overflow_right_at(v: TableView, avail: int) -> bool {
    v.col_offset + visible_count(v, avail) < v.col_widths@.len()
}

/// What `layout` returns: the three derived window fields, each a pure
/// function of the view state and the available width.
pub open spec fn layout_post(v: TableView, avail: int, r: WindowLayout) -> bool {
    &&& r.visible_col_count == visible_count(v, avail)
    &&& r.overflow_left == overflow_left_at(v)
    &&& r.overflow_right == overflow_right_at(v, avail)
}

impl TableView {
    /// The offset never passes the number of columns, and a selected row
    /// is a real row.
    pub open spec fn wf(&self) -> bool {
        &&& self.col_offset <= self.col_widths@.len()
        &&& match self.row_selection {
            Some(i) => i < self.n_rows,
            None => true,
        }
    }

    /// An empty view: no columns, no rows, nothing selected.
    pub open spec fn is_initial(&self) -> bool {
        &&& self.col_widths@.len() == 0
        &&& self.n_rows == 0
        &&& self.row_selection is None
        &&& self.col_selection is None
        &&& self.col_offset == 0
        &&& self.scroll_position == 0
    }

    /// An empty view: no columns, no rows, nothing selected.
    pub fn new() -> (r: TableView)
        ensures
            r.is_initial(),
            r.wf(),
    {
        TableView {
            col_widths: Vec::new(),
            n_rows: 0,
            row_selection: None,
            col_selection: None,
            col_offset: 0,
            scroll_position: 0,
        }
    }

    /// Recompute the column widths and the row count for a new sheet, and
    /// reset the window offset, both selections and the scroll position.
    pub fn update_shape(&mut self, records: &Records)
        requires
            records.wf(),
        ensures
            final(self).wf(),
            shaped(*final(self), records.headers@, records.rows@),
    {
        let n = records.headers.len();
        let mut widths: Vec<usize> = Vec::new();
        let mut i: usize = 0;
        while i < n
            invariant
                i <= n,
                n == records.headers@.len(),
                widths@.len() == i,
                forall|t: int|
                    0 <= t < i ==> #[trigger] widths@[t] == width_of(records.headers@[t]@),
            decreases n - i,
        {
            let w = display_width(records.headers[i].as_str());
            widths.push(w);
            i += 1;
        }
        assert(forall|t: int|
            0 <= t < n ==> #[trigger] widths@[t] == col_width_upto(
                records.headers@,
                records.rows@,
                t,
                0,
            ));
        let n_rows = records.rows.len();
        let mut k: usize = 0;
        while k < n_rows
            invariant
                records.wf(),
                k <= n_rows,
                n_rows == records.rows@.len(),
                n == records.headers@.len(),
                widths@.len() == n,
                forall|t: int|
                    0 <= t < n ==> #[trigger] widths@[t] == col_width_upto(
                        records.headers@,
                        records.rows@,
                        t,
                        k as int,
                    ),
            decreases n_rows - k,
        {
            let row = &records.rows[k];
            let mut j: usize = 0;
            while j < n
                invariant
                    records.wf(),
                    k < n_rows,
                    n_rows == records.rows@.len(),
                    n == records.headers@.len(),
                    j <= n,
                    widths@.len() == n,
                    row == &records.rows@[k as int],
                    row@.len() == n,
                    forall|t: int|
                        0 <= t < j ==> #[trigger] widths@[t] == col_width_upto(
                            records.headers@,
                            records.rows@,
                            t,
                            k + 1,
                        ),
                    forall|t: int|
                        j <= t < n ==> #[trigger] widths@[t] == col_width_upto(
                            records.headers@,
                            records.rows@,
                            t,
                            k as int,
                        ),
                decreases n - j,
            {
                let w = display_width(row[j].as_str());
                if w > widths[j] {
                    widths.set(j, w);
                }
                j += 1;
            }
            k += 1;
        }
        self.col_widths = widths;
        self.n_rows = n_rows;
        self.row_selection = None;
        self.col_selection = None;
        self.col_offset = 0;
        self.scroll_position = 0;
    }

    /// Compute the visible window for this frame. This is a pure function
    /// of the view state and the available width: it mutates nothing, and
    /// `lemma_layout_idempotent` shows that two computations from the same
    /// state and width agree.
    pub fn layout(&self, available_width: usize) -> (r: WindowLayout)
        requires
            self.wf(),
        ensures
            layout_post(*self, available_width as int, r),
    {
        let n = self.col_widths.len();
        let mut count: usize = 0;
        let mut used: usize = 0;
        let mut i: usize = self.col_offset;
        while i < n && self.col_widths[i] < available_width - used
            invariant
                self.wf(),
                n == self.col_widths@.len(),
                self.col_offset <= i <= n,
                used <= available_width,
                count == i - self.col_offset,
                visible_count(*self, available_width as int) == count + fit_from(
                    self.col_widths@,
                    i as int,
                    available_width - used,
                ),
            decreases n - i,
        {
            let w = self.col_widths[i];
            used = used + w + 1;
            count += 1;
            i += 1;
        }
        proof {
            lemma_fit_from_bound(self.col_widths@, self.col_offset as int, available_width as int);
        }
        WindowLayout {
            visible_col_count: count,
            overflow_left: self.col_offset > 0,
            overflow_right: self.col_offset + count < n,
        }
    }
}

/// The window layout is idempotent: computed twice from the same state and
/// the same available width, with no navigation in between, it yields the
/// same visible column count and overflow flags (and, `layout` taking the
/// view immutably, the same column offset).
pub proof fn lemma_layout_idempotent(v: TableView, avail: int, r1: WindowLayout, r2: WindowLayout)
    requires
        layout_post(v, avail, r1),
        layout_post(v, avail, r2),
    ensures
        r1 == r2,
{
}

/// What a row step leaves behind: with no rows it is a no-op; otherwise an
/// unset selection lands on row 0, the last row wraps to row 0, and any
/// other row moves one down. The scroll position follows the new row.
pub open spec fn row_next_post(v: TableView, w: TableView) -> bool {
    if v.n_rows == 0 {
        w == v
    } else {
        let t = match v.row_selection {
            None => 0int,
            Some(r) => if r + 1 < v.n_rows {
                r + 1
            } else {
                0int
            },
        };
        w == TableView {
            row_selection: Some(t as usize),
            scroll_position: t as usize,
            ..v
        }
    }
}

/// The mirror image: an unset selection lands on row 0, row 0 wraps to the
/// last row, and any other row moves one up.
pub open spec fn row_prev_post(v: TableView, w: TableView) -> bool {
    if v.n_rows == 0 {
        w == v
    } else {
        let t = match v.row_selection {
            None => 0int,
            Some(r) => if r == 0 {
                v.n_rows - 1
            } else {
                r - 1
            },
        };
        w == TableView {
            row_selection: Some(t as usize),
            scroll_position: t as usize,
            ..v
        }
    }
}

impl TableView {
    /// Move the row selection one down, wrapping from the last row to row
    /// 0; a sheet with no rows is left untouched.
    pub fn next_row(&mut self)
        requires
            old(self).wf(),
        ensures
            final(self).wf(),
            row_next_post(*old(self), *final(self)),
    {
        if self.n_rows == 0 {
            return ;
        }
        let t = match self.row_selection {
            None => 0,
            Some(r) => if r + 1 < self.n_rows {
                r + 1
            } else {
                0
            },
        };
        self.row_selection = Some(t);
        self.scroll_position = t;
    }

    /// Move the row selection one up, wrapping from row 0 to the last row;
    /// a sheet with no rows is left untouched.
    pub fn previous_row(&mut self)
        requires
            old(self).wf(),
        ensures
            final(self).wf(),
            row_prev_post(*old(self), *final(self)),
    {
        if self.n_rows == 0 {
            return ;
        }
        let t = match self.row_selection {
            None => 0,
            Some(r) => if r == 0 {
                self.n_rows - 1
            } else {
                r - 1
            },
        };
        self.row_selection = Some(t);
        self.scroll_position = t;
    }
}

/// What a rightward column step leaves behind, given the window computed
/// at `avail`: inside the window the selection moves one right; at the
/// right edge the window scrolls one column when columns are hidden to the
/// right, else the selection wraps to the left edge of the window; with no
/// visible column the step is a no-op.
pub open spec fn col_next_post(v: TableView, w: TableView, avail: int) -> bool {
    let vis = visible_count(v, avail);
    if vis <= 0 {
        w == v
    } else {
        match v.col_selection {
            None => w == TableView { col_selection: Some(0usize), ..v },
            Some(c) => if c + 1 < vis {
                w == TableView { col_selection: Some((c + 1) as usize), ..v }
            } else if overflow_right_at(v, avail) {
                w == TableView {
                    col_offset: (v.col_offset + 1) as usize,
                    col_selection: Some((vis - 1) as usize),
                    ..v
                }
            } else {
                w == TableView { col_selection: Some(0usize), ..v }
            },
        }
    }
}

/// The mirror image: inside the window the selection moves one left; at
/// the left edge the window scrolls one column back when columns are
/// hidden to the left, else the selection wraps to the right edge.
pub open spec fn col_prev_post(v: TableView, w: TableView, avail: int) -> bool {
    let vis = visible_count(v, avail);
    if vis <= 0 {
        w == v
    } else {
        match v.col_selection {
            None => w == TableView { col_selection: Some(0usize), ..v },
            Some(c) => if c == 0 {
                if overflow_left_at(v) {
                    w == TableView {
                        col_offset: (v.col_offset - 1) as usize,
                        col_selection: Some(0usize),
                        ..v
                    }
                } else {
                    w == TableView { col_selection: Some((vis - 1) as usize), ..v }
                }
            } else if c < vis {
                w == TableView { col_selection: Some((c - 1) as usize), ..v }
            } else {
                w == TableView { col_selection: Some((vis - 1) as usize), ..v }
            },
        }
    }
}

impl TableView {
    /// Move the column selection one right within the window computed for
    /// `available_width`, scrolling the window one column at the right
    /// edge while columns are hidden there, and wrapping to the window's
    /// left edge when none are.
    pub fn next_column(&mut self, available_width: usize)
        requires
            old(self).wf(),
        ensures
            final(self).wf(),
            col_next_post(*old(self), *final(self), available_width as int),
    {
        let lay = self.layout(available_width);
        let vis = lay.visible_col_count;
        if vis == 0 {
            return ;
        }
        match self.col_selection {
            None => {
                self.col_selection = Some(0);
            },
            Some(c) => {
                if c < vis - 1 {
                    self.col_selection = Some(c + 1);
                } else if lay.overflow_right {
                    let n = self.col_widths.len();
                    assert(self.col_offset < n);
                    self.col_offset = self.col_offset + 1;
                    self.col_selection = Some(vis - 1);
                } else {
                    self.col_selection = Some(0);
                }
            },
        }
    }

    /// Move the column selection one left within the window computed for
    /// `available_width`, scrolling the window one column back at the left
    /// edge while columns are hidden there, and wrapping to the window's
    /// right edge when none are.
    pub fn previous_column(&mut self, available_width: usize)
        requires
            old(self).wf(),
        ensures
            final(self).wf(),
            col_prev_post(*old(self), *final(self), available_width as int),
    {
        let lay = self.layout(available_width);
        let vis = lay.visible_col_count;
        if vis == 0 {
            return ;
        }
        match self.col_selection {
            None => {
                self.col_selection = Some(0);
            },
            Some(c) => {
                if c == 0 {
                    if lay.overflow_left {
                        self.col_offset = self.col_offset - 1;
                        self.col_selection = Some(0);
                    } else {
                        self.col_selection = Some(vis - 1);
                    }
                } else if c < vis {
                    self.col_selection = Some(c - 1);
                } else {
                    self.col_selection = Some(vis - 1);
                }
            },
        }
    }
}

/// How far along the window a selection is; a step that does not scroll
/// the window raises it, so repeated rightward steps reach the edge.
pub open spec fn selection_progress(v: TableView) -> int {
    match v.col_selection {
        None => 0int,
        Some(c) => c + 1,
    }
}

/// Column paging: while columns are hidden to the right, each rightward
/// step either advances the selection toward the window's right edge or
/// scrolls the window exactly one column, so repeated steps eventually
/// scroll it; and the offset never passes the first offset from which all
/// remaining columns are visible (total columns minus the visible count).
pub proof fn lemma_col_paging(v: TableView, w: TableView, avail: int)
    requires
        v.wf(),
        col_next_post(v, w, avail),
    ensures
        w.col_offset + visible_count(v, avail) <= v.col_widths@.len(),
        w.col_offset == v.col_offset || w.col_offset == v.col_offset + 1,
        w.col_offset == v.col_offset + 1 ==> overflow_right_at(v, avail),
        visible_count(v, avail) > 0 && overflow_right_at(v, avail) && w.col_offset == v.col_offset
            ==> selection_progress(w) > selection_progress(v),
        selection_progress(w) <= visible_count(v, avail) || w == v,
{
    assert(v.col_widths.len() == v.col_widths@.len());
    lemma_fit_from_bound(v.col_widths@, v.col_offset as int, avail);
}

} // verus!
