//! The navigation controller: a two-mode switch (browsing / finding) that
//! routes input intents to the viewport engine or to the fuzzy finder and
//! applies a confirmed finder result back to the active selection.
use vstd::prelude::*;
use crate::SheetAddress;
use crate::file::{Records, TableFile};
use crate::fileview::{
    jump_post, search_labels, sheet_next_post, sheet_prev_post, FileView,
};
use crate::finder::{results_ranked, FinderView};
use crate::table::{col_next_post, col_prev_post, row_next_post, row_prev_post};

verus! {

/// One user input, abstracted from key bindings. The surrounding program
/// translates keys mode-dependently: while finding, plain text becomes
/// `FinderInsert` / `FinderBackspace` and only a modifier-qualified
/// subset moves the result selection.
#[derive(Clone, Copy)]
pub enum Intent {
    NextRow,
    PrevRow,
    NextCol,
    PrevCol,
    NextSheet,
    PrevSheet,
    NextFile,
    PrevFile,
    OpenFinder,
    ConfirmFinder,
    CancelFinder,
    FinderNextResult,
    FinderPrevResult,
    FinderInsert(char),
    FinderBackspace,
    Quit,
}

/// Which of the two input routings is live. The finder's state exists
/// only while finding: editing a query while browsing is unrepresentable.
pub enum Mode {
    Browsing,
    Finding(FinderView),
}

/// Whether the interactive loop goes on.
pub enum AppState {
    Running,
    Quitting,
}

/// The whole application state: every file's view, which file is active,
/// the mode, and whether the loop goes on.
pub struct App {
    pub file_views: Vec<FileView>,
    pub selected_file: usize,
    pub mode: Mode,
    pub state: AppState,
}

/// File `fi`'s finder entries: one ((file index, label index), label)
/// pair per finder label of the file.
pub open spec fn tagged_labels(views: Seq<FileView>, fi: int) -> Seq<(SheetAddress, Seq<char>)> {
    Seq::new(
        search_labels(views[fi]).len(),
        |j: int| ((fi as usize, j as usize), search_labels(views[fi])[j]),
    )
}

/// The finder entries of the first `i` files, flattened in file order.
pub open spec fn candidates_prefix(views: Seq<FileView>, i: int) -> Seq<(SheetAddress, Seq<char>)>
    decreases i,
{
    if i <= 0 {
        Seq::empty()
    } else {
        candidates_prefix(views, i - 1) + tagged_labels(views, i - 1)
    }
}

/// The whole candidate universe: every file's finder entries in order.
pub open spec fn candidates_spec(views: Seq<FileView>) -> Seq<(SheetAddress, Seq<char>)> {
    candidates_prefix(views, views.len() as int)
}

/// Build the finder's candidate universe from every file, loaded or not.
pub fn build_candidates(views: &Vec<FileView>) -> (r: Vec<(SheetAddress, String)>)
    ensures
        r.deep_view() == candidates_spec(views@),
{
    let n = views.len();
    let mut r: Vec<(SheetAddress, String)> = Vec::new();
    proof {
        assert(r.deep_view() =~= candidates_prefix(views@, 0));
    }
    let mut i: usize = 0;
    while i < n
        invariant
            i <= n,
            n == views@.len(),
            r.deep_view() == candidates_prefix(views@, i as int),
        decreases n - i,
    {
        let labels = views[i].search_options();
        let m = labels.len();
        let mut j: usize = 0;
        proof {
            assert(tagged_labels(views@, i as int).take(0) =~= Seq::empty());
            assert(r.deep_view() =~= candidates_prefix(views@, i as int) + tagged_labels(
                views@,
                i as int,
            ).take(0));
        }
        while j < m
            invariant
                j <= m,
                i < n,
                n == views@.len(),
                m == search_labels(views@[i as int]).len(),
                labels@.len() == m,
                forall|t: int|
                    0 <= t < m ==> (#[trigger] labels@[t])@ == search_labels(views@[i as int])[t],
                r.deep_view() == candidates_prefix(views@, i as int) + tagged_labels(
                    views@,
                    i as int,
                ).take(j as int),
            decreases m - j,
        {
            let lab = labels[j].clone();
            let ghost prev = r.deep_view();
            r.push(((i, j), lab));
            proof {
                assert(r.deep_view() =~= prev.push(((i, j), lab@)));
                assert(tagged_labels(views@, i as int).take(j + 1) =~= tagged_labels(
                    views@,
                    i as int,
                ).take(j as int).push(tagged_labels(views@, i as int)[j as int]));
                assert(r.deep_view() =~= candidates_prefix(views@, i as int) + tagged_labels(
                    views@,
                    i as int,
                ).take(j + 1));
            }
            j += 1;
        }
        proof {
            assert(tagged_labels(views@, i as int).take(m as int) =~= tagged_labels(
                views@,
                i as int,
            ));
            assert(r.deep_view() =~= candidates_prefix(views@, i + 1));
        }
        i += 1;
    }
    r
}

/// The active file's view.
pub open spec fn active(a: App) -> FileView {
    a.file_views@[a.selected_file as int]
}

/// Everything but the active file's view is unchanged, and the list keeps
/// its length.
pub open spec fn only_active_view_changed(v: App, w: App) -> bool {
    &&& w.selected_file == v.selected_file
    &&& w.mode == v.mode
    &&& w.state == v.state
    &&& w.file_views@.len() == v.file_views@.len()
    &&& forall|t: int|
        0 <= t < v.file_views@.len() && t != v.selected_file ==> #[trigger] w.file_views@[t]
            == v.file_views@[t]
}

/// Everything but the mode is unchanged.
pub open spec fn only_mode_changed(v: App, w: App) -> bool {
    &&& w.selected_file == v.selected_file
    &&& w.file_views == v.file_views
    &&& w.state == v.state
}

/// The address the finder hands back on confirm, if any.
pub open spec fn finder_selection(f: FinderView) -> Option<SheetAddress> {
    if f.selected_result < f.results@.len() {
        Some(f.results@[f.selected_result as int].0)
    } else {
        None
    }
}

/// What one routed intent does to the whole application state.
pub open spec fn handle_post(v: App, w: App, intent: Intent, avail: int) -> bool {
    match v.mode {
        Mode::Browsing => match intent {
            Intent::NextRow => only_active_view_changed(v, w) && active(w).file == active(v).file
                && active(w).selected_sheet == active(v).selected_sheet && row_next_post(
                active(v).table_view,
                active(w).table_view,
            ),
            Intent::PrevRow => only_active_view_changed(v, w) && active(w).file == active(v).file
                && active(w).selected_sheet == active(v).selected_sheet && row_prev_post(
                active(v).table_view,
                active(w).table_view,
            ),
            Intent::NextCol => only_active_view_changed(v, w) && active(w).file == active(v).file
                && active(w).selected_sheet == active(v).selected_sheet && col_next_post(
                active(v).table_view,
                active(w).table_view,
                avail,
            ),
            Intent::PrevCol => only_active_view_changed(v, w) && active(w).file == active(v).file
                && active(w).selected_sheet == active(v).selected_sheet && col_prev_post(
                active(v).table_view,
                active(w).table_view,
                avail,
            ),
            Intent::NextSheet => only_active_view_changed(v, w) && sheet_next_post(
                active(v),
                active(w),
            ),
            Intent::PrevSheet => only_active_view_changed(v, w) && sheet_prev_post(
                active(v),
                active(w),
            ),
            Intent::NextFile => w == App {
                selected_file: (if v.selected_file + 1 < v.file_views@.len() {
                    (v.selected_file + 1) as usize
                } else {
                    0usize
                }),
                ..v
            },
            Intent::PrevFile => w == App {
                selected_file: (if v.selected_file > 0 {
                    (v.selected_file - 1) as usize
                } else {
                    (v.file_views@.len() - 1) as usize
                }),
                ..v
            },
            Intent::OpenFinder => {
                &&& only_mode_changed(v, w)
                &&& w.mode matches Mode::Finding(f) && {
                    &&& f.query@.len() == 0
                    &&& f.candidates.deep_view() == candidates_spec(v.file_views@)
                    &&& f.results@ == f.candidates@
                    &&& f.selected_result == 0
                }
            },
            Intent::Quit => w == App { state: AppState::Quitting, ..v },
            _ => w == v,
        },
        Mode::Finding(f) => match intent {
            Intent::FinderInsert(c) => {
                &&& only_mode_changed(v, w)
                &&& w.mode matches Mode::Finding(f2) && {
                    &&& f2.query@ == f.query@.push(c)
                    &&& f2.candidates == f.candidates
                    &&& f2.selected_result == 0
                    &&& results_ranked(f2)
                }
            },
            Intent::FinderBackspace => {
                &&& only_mode_changed(v, w)
                &&& w.mode matches Mode::Finding(f2) && {
                    &&& f2.query@ == if f.query@.len() == 0 {
                        f.query@
                    } else {
                        f.query@.drop_last()
                    }
                    &&& f2.candidates == f.candidates
                    &&& f2.selected_result == 0
                    &&& results_ranked(f2)
                }
            },
            Intent::FinderNextResult => {
                &&& only_mode_changed(v, w)
                &&& w.mode matches Mode::Finding(f2) && {
                    &&& f2.query == f.query
                    &&& f2.candidates == f.candidates
                    &&& f2.results == f.results
                    &&& f2.selected_result == if f.results@.len() == 0 {
                        0int
                    } else if f.selected_result + 1 < f.results@.len() {
                        f.selected_result + 1
                    } else {
                        0int
                    }
                }
            },
            Intent::FinderPrevResult => {
                &&& only_mode_changed(v, w)
                &&& w.mode matches Mode::Finding(f2) && {
                    &&& f2.query == f.query
                    &&& f2.candidates == f.candidates
                    &&& f2.results == f.results
                    &&& f2.selected_result == if f.results@.len() == 0 {
                        0int
                    } else if f.selected_result > 0 {
                        f.selected_result - 1
                    } else {
                        f.results@.len() - 1
                    }
                }
            },
            Intent::CancelFinder => w == App { mode: Mode::Browsing, ..v },
            Intent::ConfirmFinder => match finder_selection(f) {
                None => w == App { mode: Mode::Browsing, ..v },
                Some(addr) => if addr.0 < v.file_views@.len() {
                    &&& w.mode is Browsing
                    &&& w.state == v.state
                    &&& w.selected_file == addr.0
                    &&& w.file_views@.len() == v.file_views@.len()
                    &&& forall|t: int|
                        0 <= t < v.file_views@.len() && t != addr.0 ==> #[trigger] w.file_views@[t]
                            == v.file_views@[t]
                    &&& jump_post(
                        v.file_views@[addr.0 as int],
                        w.file_views@[addr.0 as int],
                        addr.1 as int,
                    )
                } else {
                    w == App { mode: Mode::Browsing, ..v }
                },
            },
            _ => w == v,
        },
    }
}

impl App {
    /// Every view is well formed, the active file exists, and so does the
    /// finder state while finding.
    pub open spec fn wf(&self) -> bool {
        &&& self.file_views@.len() > 0
        &&& self.selected_file < self.file_views@.len()
        &&& forall|t: int|
            0 <= t < self.file_views@.len() ==> (#[trigger] self.file_views@[t]).wf()
        &&& match self.mode {
            Mode::Finding(f) => f.wf(),
            Mode::Browsing => true,
        }
    }

    /// Start browsing the first of the discovered files. Discovering no
    /// file at all is fatal before the interactive loop and is the
    /// caller's check.
    pub fn new(files: Vec<TableFile>) -> (r: App)
        requires
            files@.len() > 0,
            forall|t: int| 0 <= t < files@.len() ==> (#[trigger] files@[t]).wf(),
        ensures
            r.wf(),
            r.file_views@.len() == files@.len(),
            forall|t: int|
                0 <= t < files@.len() ==> (#[trigger] r.file_views@[t]).file == files@[t],
            forall|t: int|
                0 <= t < files@.len() ==> (#[trigger] r.file_views@[t]).selected_sheet == 0
                    && r.file_views@[t].table_view.is_initial(),
            r.selected_file == 0,
            r.mode is Browsing,
            r.state is Running,
    {
        let n = files.len();
        let mut files = files;
        let mut views: Vec<FileView> = Vec::new();
        let ghost files0 = files@;
        while files.len() > 0
            invariant
                files0.len() == n,
                views@.len() + files@.len() == n,
                files@ == files0.skip((n - files@.len()) as int),
                forall|t: int| 0 <= t < files0.len() ==> (#[trigger] files0[t]).wf(),
                forall|t: int|
                    0 <= t < views@.len() ==> (#[trigger] views@[t]).file == files0[t]
                        && views@[t].selected_sheet == 0 && views@[t].table_view.is_initial()
                        && views@[t].wf(),
            decreases files@.len(),
        {
            proof {
                assert(files@[0] == files0[(n - files@.len()) as int]);
            }
            let f = files.remove(0);
            proof {
                assert(files@ =~= files0.skip((n - files@.len()) as int));
            }
            views.push(FileView::new(f));
        }
        App { file_views: views, selected_file: 0, mode: Mode::Browsing, state: AppState::Running }
    }

    /// Whether the finder is open (keys are translated differently then).
    pub fn is_finding(&self) -> (r: bool)
        ensures
            r == (self.mode is Finding),
    {
        match self.mode {
            Mode::Finding(_) => true,
            Mode::Browsing => false,
        }
    }

    /// Whether the loop goes on.
    pub fn is_running(&self) -> (r: bool)
        ensures
            r == (self.state is Running),
    {
        match self.state {
            AppState::Running => true,
            AppState::Quitting => false,
        }
    }

    /// Whether the active file still needs its data loaded.
    pub fn active_needs_load(&self) -> (r: bool)
        requires
            self.wf(),
        ensures
            r == (active(*self).file.records is None),
    {
        self.file_views[self.selected_file].file.records.is_none()
    }

    /// Install the loader's sheets into the active file's view.
    pub fn install_active_records(&mut self, recs: Vec<(String, Records)>)
        requires
            old(self).wf(),
            forall|j: int| 0 <= j < recs@.len() ==> (#[trigger] recs@[j]).1.wf(),
        ensures
            final(self).wf(),
            only_active_view_changed(*old(self), *final(self)),
            active(*final(self)).file.name == active(*old(self)).file.name,
            active(*final(self)).file.records == Some(recs),
    {
        let view = &mut self.file_views[self.selected_file];
        view.install_records(recs);
    }

    /// Route one intent to the component the current mode selects;
    /// `available_width` is the terminal width the viewport's column
    /// window is computed against this frame. An intent may move onto a
    /// file that is not loaded yet: the caller checks `active_needs_load`
    /// afterwards and hands the loader's sheets to
    /// `install_active_records`.
    pub fn handle_intent(&mut self, intent: Intent, available_width: usize)
        requires
            old(self).wf(),
        ensures
            final(self).wf(),
            handle_post(*old(self), *final(self), intent, available_width as int),
    {
        let finding = self.is_finding();
        if !finding {
            match intent {
                Intent::NextRow => {
                    let view = &mut self.file_views[self.selected_file];
                    view.next_row();
                },
                Intent::PrevRow => {
                    let view = &mut self.file_views[self.selected_file];
                    view.previous_row();
                },
                Intent::NextCol => {
                    let view = &mut self.file_views[self.selected_file];
                    view.next_column(available_width);
                },
                Intent::PrevCol => {
                    let view = &mut self.file_views[self.selected_file];
                    view.previous_column(available_width);
                },
                Intent::NextSheet => {
                    let view = &mut self.file_views[self.selected_file];
                    view.next_sheet();
                },
                Intent::PrevSheet => {
                    let view = &mut self.file_views[self.selected_file];
                    view.previous_sheet();
                },
                Intent::NextFile => {
                    if self.selected_file < self.file_views.len() - 1 {
                        self.selected_file = self.selected_file + 1;
                    } else {
                        self.selected_file = 0;
                    }
                },
                Intent::PrevFile => {
                    if self.selected_file > 0 {
                        self.selected_file = self.selected_file - 1;
                    } else {
                        self.selected_file = self.file_views.len() - 1;
                    }
                },
                Intent::OpenFinder => {
                    let cands = build_candidates(&self.file_views);
                    self.mode = Mode::Finding(FinderView::new(cands));
                },
                Intent::Quit => {
                    self.state = AppState::Quitting;
                },
                _ => {},
            }
        } else {
            match intent {
                Intent::FinderInsert(c) => {
                    match &mut self.mode {
                        Mode::Finding(f) => {
                            f.query_insert(c);
                            f.update_results();
                        },
                        Mode::Browsing => {},
                    }
                },
                Intent::FinderBackspace => {
                    match &mut self.mode {
                        Mode::Finding(f) => {
                            f.query_backspace();
                            f.update_results();
                        },
                        Mode::Browsing => {},
                    }
                },
                Intent::FinderNextResult => {
                    match &mut self.mode {
                        Mode::Finding(f) => f.select_next(),
                        Mode::Browsing => {},
                    }
                },
                Intent::FinderPrevResult => {
                    match &mut self.mode {
                        Mode::Finding(f) => f.select_previous(),
                        Mode::Browsing => {},
                    }
                },
                Intent::CancelFinder => {
                    self.mode = Mode::Browsing;
                },
                Intent::ConfirmFinder => {
                    let sel = match &self.mode {
                        Mode::Finding(f) => f.get_selected(),
                        Mode::Browsing => None,
                    };
                    self.mode = Mode::Browsing;
                    match sel {
                        Some((fi, si)) => {
                            if fi < self.file_views.len() {
                                self.selected_file = fi;
                                let view = &mut self.file_views[fi];
                                view.jump_to_sheet(si);
                            }
                        },
                        None => {},
                    }
                },
                _ => {},
            }
        }
    }
}

} // verus!
