use tabv::app::{App, AppState, Intent, Mode};
use tabv::file::{split_sheets, Records, TableFile};
use tabv::fileview::FileView;
use tabv::finder::FinderView;
use tabv::table::TableView;

fn records(headers: &[&str], rows: &[&[&str]]) -> Records {
    Records {
        headers: headers.iter().map(|s| s.to_string()).collect(),
        rows: rows
            .iter()
            .map(|r| r.iter().map(|s| s.to_string()).collect())
            .collect(),
    }
}

fn table_for(headers: &[&str], rows: &[&[&str]]) -> TableView {
    let mut t = TableView::new();
    t.update_shape(&records(headers, rows));
    t
}

#[test]
fn column_widths_cover_headers_and_cells() {
    let t = table_for(&["a", "bb", "ccc"], &[&["x", "yy", "zzz"]]);
    assert_eq!(t.col_widths, vec![1, 2, 3]);
}

#[test]
fn column_widths_take_the_widest_cell() {
    let t = table_for(
        &["id", "name"],
        &[&["1", "abcdef"], &["12345", "x"], &["22", "yy"]],
    );
    assert_eq!(t.col_widths, vec![5, 6]);
}

#[test]
fn column_widths_count_terminal_columns_not_chars() {
    // a CJK character occupies two terminal columns
    let t = table_for(&["\u{65e5}"], &[&["x"]]);
    assert_eq!(t.col_widths, vec![2]);
}

#[test]
fn next_row_wraps_to_first() {
    let mut t = table_for(&["h"], &[&["1"], &["2"], &["3"]]);
    t.row_selection = Some(2);
    t.next_row();
    assert_eq!(t.row_selection, Some(0));
    assert_eq!(t.scroll_position, 0);
}

#[test]
fn previous_row_wraps_to_last() {
    let mut t = table_for(&["h"], &[&["1"], &["2"], &["3"]]);
    t.row_selection = Some(0);
    t.previous_row();
    assert_eq!(t.row_selection, Some(2));
    assert_eq!(t.scroll_position, 2);
}

#[test]
fn row_steps_count_up_and_down() {
    let mut t = table_for(&["h"], &[&["1"], &["2"], &["3"]]);
    t.next_row();
    assert_eq!(t.row_selection, Some(0));
    t.next_row();
    assert_eq!(t.row_selection, Some(1));
    assert_eq!(t.scroll_position, 1);
    t.previous_row();
    assert_eq!(t.row_selection, Some(0));
}

#[test]
fn row_steps_on_empty_sheet_are_no_ops() {
    let mut t = table_for(&["h"], &[]);
    t.next_row();
    assert_eq!(t.row_selection, None);
    t.previous_row();
    assert_eq!(t.row_selection, None);
}

#[test]
fn layout_window_of_five_wide_columns() {
    let mut t = TableView::new();
    t.col_widths = vec![10, 10, 10, 10, 10];
    let lay = t.layout(25);
    assert_eq!(lay.visible_col_count, 2);
    assert!(lay.overflow_right);
    assert!(!lay.overflow_left);
}

#[test]
fn layout_is_idempotent_across_frames() {
    let mut t = TableView::new();
    t.col_widths = vec![3, 7, 2, 9];
    t.col_offset = 1;
    let a = t.layout(14);
    let b = t.layout(14);
    assert_eq!(a.visible_col_count, b.visible_col_count);
    assert_eq!(a.overflow_left, b.overflow_left);
    assert_eq!(a.overflow_right, b.overflow_right);
    assert_eq!(t.col_offset, 1);
}

#[test]
fn repeated_next_column_pages_within_bounds() {
    let mut t = TableView::new();
    t.col_widths = vec![10, 10, 10, 10, 10];
    let total = 5usize;
    for _ in 0..20 {
        t.next_column(25);
        let lay = t.layout(25);
        assert!(t.col_offset + lay.visible_col_count <= total);
    }
    // the window ends flush with the last column and scrolls no further
    assert_eq!(t.col_offset, 3);
}

#[test]
fn next_column_wraps_without_overflow() {
    let mut t = TableView::new();
    t.col_widths = vec![2, 2];
    t.next_column(80);
    assert_eq!(t.col_selection, Some(0));
    t.next_column(80);
    assert_eq!(t.col_selection, Some(1));
    t.next_column(80);
    assert_eq!(t.col_selection, Some(0));
    assert_eq!(t.col_offset, 0);
}

#[test]
fn previous_column_scrolls_back_at_left_edge() {
    let mut t = TableView::new();
    t.col_widths = vec![10, 10, 10, 10, 10];
    t.col_offset = 2;
    t.col_selection = Some(0);
    t.previous_column(25);
    assert_eq!(t.col_offset, 1);
    assert_eq!(t.col_selection, Some(0));
}

#[test]
fn previous_column_wraps_to_window_edge_without_overflow() {
    let mut t = TableView::new();
    t.col_widths = vec![2, 2, 2];
    t.col_selection = Some(0);
    t.previous_column(80);
    assert_eq!(t.col_selection, Some(2));
    assert_eq!(t.col_offset, 0);
}

#[test]
fn query_b_ranks_b2_above_a1() {
    let mut f = FinderView::new(vec![
        ((0, 0), "A/1".to_string()),
        ((0, 1), "B/2".to_string()),
    ]);
    f.query_insert('b');
    f.update_results();
    assert_eq!(f.results[0].1, "B/2");
    assert_eq!(f.results[1].1, "A/1");
}

#[test]
fn exact_match_ranks_first_case_insensitively() {
    let mut f = FinderView::new(vec![
        ((0, 0), "AB".to_string()),
        ((0, 1), "aX".to_string()),
    ]);
    f.query_insert('a');
    f.query_insert('b');
    f.update_results();
    assert_eq!(f.results[0].1, "AB");
}

#[test]
fn exact_duplicates_tie_in_enumeration_order() {
    let mut f = FinderView::new(vec![
        ((0, 0), "dup".to_string()),
        ((0, 1), "dup".to_string()),
        ((0, 2), "zz".to_string()),
    ]);
    f.query_insert('d');
    f.query_insert('u');
    f.query_insert('p');
    f.update_results();
    assert_eq!(f.results[0].0, (0, 0));
    assert_eq!(f.results[1].0, (0, 1));
    assert_eq!(f.results[2].0, (0, 2));
}

#[test]
fn empty_query_keeps_enumeration_order() {
    let f = FinderView::new(vec![
        ((0, 0), "zeta".to_string()),
        ((0, 1), "alpha".to_string()),
        ((1, 0), "mid".to_string()),
    ]);
    let labels: Vec<&str> = f.results.iter().map(|(_, l)| l.as_str()).collect();
    assert_eq!(labels, vec!["zeta", "alpha", "mid"]);
}

#[test]
fn backspace_to_empty_query_restores_order() {
    let mut f = FinderView::new(vec![
        ((0, 0), "zeta".to_string()),
        ((0, 1), "alpha".to_string()),
    ]);
    f.query_insert('l');
    f.update_results();
    assert_eq!(f.results[0].1, "alpha");
    f.query_backspace();
    f.update_results();
    assert_eq!(f.results[0].1, "zeta");
}

#[test]
fn result_selection_wraps_both_ways() {
    let mut f = FinderView::new(vec![
        ((0, 0), "a".to_string()),
        ((0, 1), "b".to_string()),
        ((0, 2), "c".to_string()),
    ]);
    assert_eq!(f.selected_result, 0);
    f.select_previous();
    assert_eq!(f.selected_result, 2);
    f.select_next();
    assert_eq!(f.selected_result, 0);
    f.select_next();
    assert_eq!(f.selected_result, 1);
}

#[test]
fn empty_finder_selection_is_total() {
    let mut f = FinderView::new(vec![]);
    f.select_next();
    assert_eq!(f.selected_result, 0);
    f.select_previous();
    assert_eq!(f.selected_result, 0);
    assert_eq!(f.get_selected(), None);
}

#[test]
fn confirm_with_zero_results_changes_no_selection() {
    let files = vec![TableFile::new("f".to_string())];
    let mut app = App::new(files);
    app.mode = Mode::Finding(FinderView::new(vec![]));
    app.handle_intent(Intent::ConfirmFinder, 80);
    assert_eq!(app.selected_file, 0);
    assert!(matches!(app.mode, Mode::Browsing));
    assert!(matches!(app.state, AppState::Running));
}

#[test]
fn confirm_jumps_to_the_selected_sheet() {
    let mut file = TableFile::new("f".to_string());
    file.install_records(vec![
        ("s1".to_string(), records(&["a"], &[&["1"]])),
        ("s2".to_string(), records(&["bb", "c"], &[&["22", "3"]])),
    ]);
    let files = vec![TableFile::new("empty".to_string()), file];
    let mut app = App::new(files);
    app.handle_intent(Intent::OpenFinder, 80);
    // candidates: ["empty", "f/s1", "f/s2"]; pick the last
    app.handle_intent(Intent::FinderPrevResult, 80);
    app.handle_intent(Intent::ConfirmFinder, 80);
    assert_eq!(app.selected_file, 1);
    assert_eq!(app.file_views[1].selected_sheet, 1);
    assert_eq!(app.file_views[1].table_view.col_widths, vec![2, 1]);
    assert!(matches!(app.mode, Mode::Browsing));
}

#[test]
fn open_finder_lists_every_file_and_sheet() {
    let mut file = TableFile::new("f".to_string());
    file.install_records(vec![
        ("s1".to_string(), records(&["a"], &[])),
        ("s2".to_string(), records(&["a"], &[])),
    ]);
    let files = vec![TableFile::new("g".to_string()), file];
    let mut app = App::new(files);
    app.handle_intent(Intent::OpenFinder, 80);
    match &app.mode {
        Mode::Finding(f) => {
            let labels: Vec<&str> = f.candidates.iter().map(|(_, l)| l.as_str()).collect();
            assert_eq!(labels, vec!["g", "f/s1", "f/s2"]);
            assert_eq!(f.candidates[1].0, (1, 0));
            assert_eq!(f.candidates[2].0, (1, 1));
        }
        Mode::Browsing => panic!("finder did not open"),
    }
}

#[test]
fn file_switching_wraps() {
    let files = vec![
        TableFile::new("a".to_string()),
        TableFile::new("b".to_string()),
    ];
    let mut app = App::new(files);
    app.handle_intent(Intent::NextFile, 80);
    assert_eq!(app.selected_file, 1);
    app.handle_intent(Intent::NextFile, 80);
    assert_eq!(app.selected_file, 0);
    app.handle_intent(Intent::PrevFile, 80);
    assert_eq!(app.selected_file, 1);
}

#[test]
fn quit_intent_stops_the_loop() {
    let mut app = App::new(vec![TableFile::new("a".to_string())]);
    assert!(app.is_running());
    app.handle_intent(Intent::Quit, 80);
    assert!(!app.is_running());
}

#[test]
fn browsing_intents_reach_the_active_viewport() {
    let mut file = TableFile::new("f".to_string());
    file.install_records(vec![(String::new(), records(&["h"], &[&["1"], &["2"]]))]);
    let mut app = App::new(vec![file]);
    app.file_views[0].refresh_shape();
    app.handle_intent(Intent::NextRow, 80);
    assert_eq!(app.file_views[0].table_view.row_selection, Some(0));
    app.handle_intent(Intent::NextRow, 80);
    assert_eq!(app.file_views[0].table_view.row_selection, Some(1));
    app.handle_intent(Intent::NextRow, 80);
    assert_eq!(app.file_views[0].table_view.row_selection, Some(0));
}

#[test]
fn sheet_switch_reshapes_and_resets() {
    let mut file = TableFile::new("f".to_string());
    file.install_records(vec![
        ("s1".to_string(), records(&["a"], &[&["1"]])),
        ("s2".to_string(), records(&["bbb"], &[&["2"], &["3"]])),
    ]);
    let mut view = FileView::new(file);
    view.refresh_shape();
    view.next_row();
    assert_eq!(view.table_view.row_selection, Some(0));
    view.next_sheet();
    assert_eq!(view.selected_sheet, 1);
    assert_eq!(view.table_view.col_widths, vec![3]);
    assert_eq!(view.table_view.n_rows, 2);
    assert_eq!(view.table_view.row_selection, None);
    assert_eq!(view.table_view.col_offset, 0);
    view.next_sheet();
    assert_eq!(view.selected_sheet, 0);
    view.previous_sheet();
    assert_eq!(view.selected_sheet, 1);
}

#[test]
fn search_options_label_forms() {
    let unloaded = FileView::new(TableFile::new("plain".to_string()));
    assert_eq!(unloaded.search_options(), vec!["plain".to_string()]);

    let mut single = TableFile::new("single".to_string());
    single.install_records(vec![(String::new(), records(&["a"], &[]))]);
    let single_view = FileView::new(single);
    assert_eq!(single_view.search_options(), vec!["single".to_string()]);

    let mut multi = TableFile::new("multi".to_string());
    multi.install_records(vec![
        ("x".to_string(), records(&["a"], &[])),
        ("y".to_string(), records(&["a"], &[])),
    ]);
    let multi_view = FileView::new(multi);
    assert_eq!(
        multi_view.search_options(),
        vec!["multi/x".to_string(), "multi/y".to_string()]
    );
}

#[test]
fn n_sheets_counts_loaded_sheets() {
    let mut file = TableFile::new("f".to_string());
    assert_eq!(file.n_sheets(), 0);
    file.install_records(vec![
        ("a".to_string(), records(&["h"], &[])),
        ("b".to_string(), records(&["h"], &[])),
    ]);
    assert_eq!(file.n_sheets(), 2);
}

fn lines(v: &[&str]) -> Vec<String> {
    v.iter().map(|s| s.to_string()).collect()
}

#[test]
fn split_sheets_groups_by_markers() {
    let r = split_sheets(&lines(&["#>one", "a,b", "1,2", "#>two", "c"]));
    assert_eq!(r.len(), 2);
    assert_eq!(r[0].0, "one");
    assert_eq!(r[0].1, lines(&["a,b", "1,2"]));
    assert_eq!(r[1].0, "two");
    assert_eq!(r[1].1, lines(&["c"]));
}

#[test]
fn split_sheets_keeps_leading_unnamed_lines() {
    let r = split_sheets(&lines(&["h", "1", "#>s", "b"]));
    assert_eq!(r.len(), 2);
    assert_eq!(r[0].0, "");
    assert_eq!(r[0].1, lines(&["h", "1"]));
    assert_eq!(r[1].0, "s");
    assert_eq!(r[1].1, lines(&["b"]));
}

#[test]
fn split_sheets_drops_empty_sheets_and_cuts_names_at_comma() {
    let r = split_sheets(&lines(&["#>skipped", "#>name,and more", "x"]));
    assert_eq!(r.len(), 1);
    assert_eq!(r[0].0, "name");
    assert_eq!(r[0].1, lines(&["x"]));
}

#[test]
fn split_sheets_of_nothing_is_empty() {
    let r = split_sheets(&lines(&[]));
    assert!(r.is_empty());
}
