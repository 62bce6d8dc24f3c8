use relay_curve_estimator::spreadsheet::{allows_row_change, needs_first_row, RowChange};
use relay_curve_estimator::spreadsheet::{
    CellWrite, EditKey, GridCellPos, GridRange, NavKey, PointText, SpreadsheetGrid,
};

fn pos(row: usize, col: usize) -> GridCellPos {
    GridCellPos { row, col }
}

fn texts(rows: &[(&str, &str)]) -> Vec<PointText> {
    rows.iter()
        .map(|(c, t)| PointText { current_str: c.to_string(), time_str: t.to_string() })
        .collect()
}

#[test]
fn test_grid_range_from_cells() {
    let a = GridCellPos { row: 3, col: 1 };
    let b = GridCellPos { row: 1, col: 0 };
    let r = GridRange::from_cells(a, b);
    assert_eq!(r.min_row, 1);
    assert_eq!(r.max_row, 3);
    assert_eq!(r.min_col, 0);
    assert_eq!(r.max_col, 1);
    assert!(r.contains(GridCellPos { row: 2, col: 0 }));
    assert!(!r.contains(GridCellPos { row: 4, col: 0 }));
}

#[test]
fn range_of_one_cell_is_single() {
    let r = GridRange::from_cells(pos(2, 1), pos(2, 1));
    assert!(r.is_single_cell());
    assert!(!GridRange::from_cells(pos(2, 0), pos(2, 1)).is_single_cell());
    assert_eq!(GridRange::from_cells(pos(0, 1), pos(5, 0)), GridRange::from_cells(pos(5, 0), pos(0, 1)));
}

#[test]
fn default_grid_selects_first_cell() {
    let g = SpreadsheetGrid::default();
    assert_eq!(g.active_cell, Some(pos(0, 0)));
    assert_eq!(g.anchor_cell, Some(pos(0, 0)));
    assert_eq!(g.selection_range, Some(GridRange { min_row: 0, max_row: 0, min_col: 0, max_col: 0 }));
    assert!(!g.is_editing && !g.is_dragging && !g.just_started_editing);
}

#[test]
fn select_cell_clamps_column_and_stops_editing() {
    let mut g = SpreadsheetGrid::default();
    g.is_editing = true;
    g.select_cell(4, 7);
    assert_eq!(g.active_cell, Some(pos(4, 1)));
    assert_eq!(g.anchor_cell, Some(pos(4, 1)));
    assert_eq!(g.selection_range, Some(GridRange { min_row: 4, max_row: 4, min_col: 1, max_col: 1 }));
    assert!(!g.is_editing);
}

#[test]
fn select_range_and_select_all() {
    let mut g = SpreadsheetGrid::default();
    g.select_range(pos(3, 1), pos(1, 0));
    assert_eq!(g.anchor_cell, Some(pos(3, 1)));
    assert_eq!(g.active_cell, Some(pos(1, 0)));
    assert_eq!(g.selection_range, Some(GridRange { min_row: 1, max_row: 3, min_col: 0, max_col: 1 }));
    g.select_all(5);
    assert_eq!(g.anchor_cell, Some(pos(0, 0)));
    assert_eq!(g.active_cell, Some(pos(4, 1)));
    let before = g;
    g.select_all(0);
    assert_eq!(g, before);
}

#[test]
fn arrow_keys_move_and_extend() {
    let mut g = SpreadsheetGrid::default();
    assert_eq!(g.navigate(NavKey::Down, false, pos(0, 0), 3), None);
    assert_eq!(g.active_cell, Some(pos(1, 0)));
    assert_eq!(g.navigate(NavKey::Right, true, pos(1, 0), 3), None);
    assert_eq!(g.anchor_cell, Some(pos(1, 0)));
    assert_eq!(g.active_cell, Some(pos(1, 1)));
    assert_eq!(g.selection_range, Some(GridRange { min_row: 1, max_row: 1, min_col: 0, max_col: 1 }));
    // No move past the top, the bottom or the sides.
    let mut top = SpreadsheetGrid::default();
    assert_eq!(top.navigate(NavKey::Up, false, pos(0, 0), 3), None);
    assert_eq!(top, SpreadsheetGrid::default());
    assert_eq!(top.navigate(NavKey::Left, false, pos(0, 0), 3), None);
    assert_eq!(top, SpreadsheetGrid::default());
    top.select_cell(2, 1);
    let before = top;
    assert_eq!(top.navigate(NavKey::Down, false, pos(2, 1), 3), None);
    assert_eq!(top.navigate(NavKey::Right, false, pos(2, 1), 3), None);
    assert_eq!(top, before);
}

#[test]
fn tab_and_enter_wrap_and_add_rows() {
    let mut g = SpreadsheetGrid::default();
    assert_eq!(g.navigate(NavKey::Tab, false, pos(0, 0), 2), None);
    assert_eq!(g.active_cell, Some(pos(0, 1)));
    assert_eq!(g.navigate(NavKey::Tab, false, pos(0, 1), 2), None);
    assert_eq!(g.active_cell, Some(pos(1, 0)));
    assert_eq!(g.navigate(NavKey::Tab, true, pos(1, 0), 2), None);
    assert_eq!(g.active_cell, Some(pos(0, 1)));
    g.select_cell(1, 1);
    assert_eq!(g.navigate(NavKey::Tab, false, pos(1, 1), 2), Some(pos(2, 0)));
    assert_eq!(g.active_cell, Some(pos(1, 1)));
    assert_eq!(g.navigate(NavKey::Enter, false, pos(1, 1), 2), Some(pos(2, 1)));
    assert_eq!(g.navigate(NavKey::Enter, true, pos(1, 1), 2), None);
    assert_eq!(g.active_cell, Some(pos(0, 1)));
}

#[test]
fn extending_without_anchor_starts_at_cursor() {
    let mut g = SpreadsheetGrid::default();
    g.anchor_cell = None;
    g.navigate(NavKey::Down, true, pos(0, 1), 4);
    assert_eq!(g.anchor_cell, Some(pos(0, 1)));
    assert_eq!(g.active_cell, Some(pos(1, 1)));
}

#[test]
fn finishing_an_edit() {
    let mut g = SpreadsheetGrid::default();
    g.double_click_cell(pos(0, 0));
    assert!(g.is_editing && g.just_started_editing);
    assert_eq!(g.finish_edit(EditKey::Tab, pos(0, 0), 2), None);
    assert!(!g.is_editing);
    assert_eq!(g.active_cell, Some(pos(0, 1)));
    g.begin_edit();
    assert_eq!(g.finish_edit(EditKey::Tab, pos(0, 1), 2), None);
    assert_eq!(g.active_cell, Some(pos(1, 0)));
    g.begin_edit();
    assert_eq!(g.finish_edit(EditKey::Enter, pos(1, 0), 2), Some(pos(2, 0)));
    assert!(!g.is_editing);
    assert_eq!(g.active_cell, Some(pos(1, 0)));
    g.begin_edit();
    assert_eq!(g.finish_edit(EditKey::Escape, pos(1, 0), 2), None);
    assert!(!g.is_editing);
    assert_eq!(g.active_cell, Some(pos(1, 0)));
}

#[test]
fn typing_starts_editing_inside_the_table_only() {
    let mut g = SpreadsheetGrid::default();
    g.select_cell(3, 0);
    let before = g;
    assert_eq!(g.begin_typing(3), None);
    assert_eq!(g, before);
    assert_eq!(g.begin_typing(4), Some(pos(3, 0)));
    assert!(g.is_editing && g.just_started_editing);
}

#[test]
fn mouse_selection() {
    let mut g = SpreadsheetGrid::default();
    g.click_cell(pos(2, 1), false);
    assert_eq!(g.active_cell, Some(pos(2, 1)));
    g.click_cell(pos(4, 0), true);
    assert_eq!(g.selection_range, Some(GridRange { min_row: 2, max_row: 4, min_col: 0, max_col: 1 }));
    g.begin_drag(pos(1, 0));
    assert!(g.is_dragging);
    g.drag_over(pos(3, 1));
    assert_eq!(g.anchor_cell, Some(pos(1, 0)));
    assert_eq!(g.active_cell, Some(pos(3, 1)));
    assert!(g.is_dragging);
    g.is_dragging = false;
    let before = g;
    g.drag_over(pos(0, 0));
    assert_eq!(g, before);
    g.select_row(5);
    assert_eq!(g.selection_range, Some(GridRange { min_row: 5, max_row: 5, min_col: 0, max_col: 1 }));
}

#[test]
fn removed_rows_pull_the_cursor_back() {
    let mut g = SpreadsheetGrid::default();
    g.select_cell(4, 1);
    g.row_removed(4);
    assert_eq!(g.active_cell, Some(pos(3, 1)));
    g.row_removed(5);
    assert_eq!(g.active_cell, Some(pos(3, 1)));
    g.row_removed(0);
    assert_eq!(g.active_cell, Some(pos(0, 1)));
}

#[test]
fn copy_text_is_tab_separated() {
    let t = texts(&[("2.000", "26.6667"), ("3.000", "10.0000"), ("5.000", "3.3333")]);
    let mut g = SpreadsheetGrid::default();
    g.select_range(pos(0, 0), pos(1, 1));
    assert_eq!(g.copy_text(&t).unwrap(), "2.000\t26.6667\r\n3.000\t10.0000");
    g.select_range(pos(1, 1), pos(9, 1));
    assert_eq!(g.copy_text(&t).unwrap(), "10.0000\r\n3.3333");
    g.select_cell(7, 0);
    assert_eq!(g.copy_text(&t), None);
    assert_eq!(g.copy_text(&Vec::new()), None);
    g.selection_range = None;
    g.active_cell = Some(pos(2, 0));
    assert_eq!(g.copy_text(&t).unwrap(), "5.000");
    g.active_cell = None;
    assert_eq!(g.copy_text(&t), None);
}

#[test]
fn selected_cells_are_clipped_to_the_table() {
    let mut g = SpreadsheetGrid::default();
    g.select_range(pos(1, 0), pos(5, 3));
    assert_eq!(g.selected_cells(3), vec![pos(1, 0), pos(1, 1), pos(2, 0), pos(2, 1)]);
    assert_eq!(g.selected_cells(0), vec![]);
    g.select_cell(6, 0);
    assert_eq!(g.selected_cells(3), vec![]);
}

#[test]
fn paste_plan_fills_from_the_active_cell() {
    let mut g = SpreadsheetGrid::default();
    g.select_cell(2, 1);
    let plan = g.plan_paste(&vec![2, 1]).unwrap();
    assert_eq!(plan.pasted_rows, 2);
    assert_eq!(plan.rows_needed, 4);
    assert_eq!(
        plan.writes,
        vec![
            CellWrite { row: 2, col: 1, source_row: 0, source_index: 0 },
            CellWrite { row: 3, col: 1, source_row: 1, source_index: 0 },
        ]
    );
    assert_eq!(g.anchor_cell, Some(pos(2, 1)));
    assert_eq!(g.active_cell, Some(pos(3, 1)));

    let mut h = SpreadsheetGrid::default();
    let plan = h.plan_paste(&vec![3, 1]).unwrap();
    assert_eq!(plan.rows_needed, 2);
    assert_eq!(plan.writes.len(), 3);
    assert_eq!(plan.writes[1], CellWrite { row: 0, col: 1, source_row: 0, source_index: 1 });
    assert_eq!(h.active_cell, Some(pos(1, 1)));

    let mut k = SpreadsheetGrid::default();
    k.plan_paste(&vec![1, 1]).unwrap();
    assert_eq!(k.active_cell, Some(pos(1, 0)));

    let mut e = SpreadsheetGrid::default();
    assert!(e.plan_paste(&vec![]).is_none());
    assert_eq!(e, SpreadsheetGrid::default());
}

#[test]
fn row_changes_keep_a_row() {
    assert!(needs_first_row(0));
    assert!(!needs_first_row(1));
    assert!(!allows_row_change(RowChange::Remove(0), 1));
    assert!(allows_row_change(RowChange::Remove(1), 2));
    assert!(!allows_row_change(RowChange::Remove(2), 2));
    assert!(allows_row_change(RowChange::Append, 1));
    assert!(allows_row_change(RowChange::Reset, 0));
}
