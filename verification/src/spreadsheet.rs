use vstd::prelude::*;

use crate::text::{joined, lemma_joined_push};

verus! {

/// A cell of the test-point table: column 0 holds the current, column 1 the time.
#[derive(Debug, Clone, Copy, PartialEq, Eq, Structural)]
pub struct GridCellPos {
    pub row: usize,
    pub col: usize,
}

/// A rectangle of cells, bounds included.
#[derive(Debug, Clone, Copy, PartialEq, Eq, Structural)]
pub struct GridRange {
    pub min_row: usize,
    pub max_row: usize,
    pub min_col: usize,
    pub max_col: usize,
}

/// The smaller of two indices.
pub open spec fn low(a: usize, b: usize) -> usize {
    if a <= b { a } else { b }
}

/// The larger of two indices.
pub open spec fn high(a: usize, b: usize) -> usize {
    if a <= b { b } else { a }
}

fn min_index(a: usize, b: usize) -> (m: usize)
    ensures
        m == low(a, b),
{
    if a <= b { a } else { b }
}

fn max_index(a: usize, b: usize) -> (m: usize)
    ensures
        m == high(a, b),
{
    if a <= b { b } else { a }
}

impl GridCellPos {
    /// The origin cell, where the table starts.
    pub open spec fn origin() -> GridCellPos {
        GridCellPos { row: 0, col: 0 }
    }
}

impl GridRange {
    /// The smallest rectangle that holds both cells.
    pub open spec fn spanning(a: GridCellPos, b: GridCellPos) -> GridRange {
        GridRange {
            min_row: low(a.row, b.row),
            max_row: high(a.row, b.row),
            min_col: low(a.col, b.col),
            max_col: high(a.col, b.col),
        }
    }

    /// Whether the rectangle holds the cell.
    pub open spec fn holds(self, pos: GridCellPos) -> bool {
        &&& self.min_row <= pos.row <= self.max_row
        &&& self.min_col <= pos.col <= self.max_col
    }

    /// The rectangle spanned by two cells, whichever corner each is.
    pub fn from_cells(a: GridCellPos, b: GridCellPos) -> (r: GridRange)
        ensures
            r == GridRange::spanning(a, b),
    {
        GridRange {
            min_row: min_index(a.row, b.row),
            max_row: max_index(a.row, b.row),
            min_col: min_index(a.col, b.col),
            max_col: max_index(a.col, b.col),
        }
    }

    /// Whether the cell lies in the rectangle.
    pub fn contains(&self, pos: GridCellPos) -> (b: bool)
        ensures
            b == self.holds(pos),
    {
        pos.row >= self.min_row && pos.row <= self.max_row && pos.col >= self.min_col && pos.col
            <= self.max_col
    }

    /// Whether the rectangle is one cell.
    pub fn is_single_cell(&self) -> (b: bool)
        ensures
            b == (self.min_row == self.max_row && self.min_col == self.max_col),
    {
        self.min_row == self.max_row && self.min_col == self.max_col
    }
}

/// The rectangle spanned by two cells holds exactly the cells between them, in both axes.
pub proof fn spanning_holds_between(a: GridCellPos, b: GridCellPos, p: GridCellPos)
    ensures
        GridRange::spanning(a, b).holds(p) <==> ((a.row <= p.row <= b.row || b.row <= p.row
            <= a.row) && (a.col <= p.col <= b.col || b.col <= p.col <= a.col)),
        GridRange::spanning(a, b).holds(a),
        GridRange::spanning(a, b).holds(b),
        GridRange::spanning(a, b) == GridRange::spanning(b, a),
        GridRange::spanning(a, b).min_row == GridRange::spanning(a, b).max_row
            && GridRange::spanning(a, b).min_col == GridRange::spanning(a, b).max_col <==> a == b,
{
}

/// Selection and edit state of the test-point table.
#[derive(Debug, Clone, Copy, PartialEq, Eq, Structural)]
pub struct SpreadsheetGrid {
    pub active_cell: Option<GridCellPos>,
    pub anchor_cell: Option<GridCellPos>,
    pub selection_range: Option<GridRange>,
    pub is_editing: bool,
    pub is_dragging: bool,
    pub just_started_editing: bool,
}

impl Default for SpreadsheetGrid {
    /// The top-left cell selected, nothing being edited or dragged.
    fn default() -> (g: Self)
        ensures
            g.selects(GridCellPos::origin(), GridCellPos::origin()),
            !g.is_dragging,
    {
        let origin = GridCellPos { row: 0, col: 0 };
        SpreadsheetGrid {
            active_cell: Some(origin),
            anchor_cell: Some(origin),
            selection_range: Some(GridRange::from_cells(origin, origin)),
            is_editing: false,
            is_dragging: false,
            just_started_editing: false,
        }
    }
}

impl SpreadsheetGrid {
    /// The grid selects the rectangle from `anchor` to `active`, with `active` the cell that
    /// has the cursor, and no cell is being edited.
    pub open spec fn selects(self, anchor: GridCellPos, active: GridCellPos) -> bool {
        &&& self.active_cell == Some(active)
        &&& self.anchor_cell == Some(anchor)
        &&& self.selection_range == Some(GridRange::spanning(anchor, active))
        &&& !self.is_editing
        &&& !self.just_started_editing
    }

    /// The selection rectangle is the one spanned by the anchor and the active cell.
    pub open spec fn is_consistent(self) -> bool {
        match (self.anchor_cell, self.active_cell) {
            (Some(anchor), Some(active)) => self.selection_range == Some(
                GridRange::spanning(anchor, active),
            ),
            _ => true,
        }
    }

    /// Moves the cursor to one cell, which becomes the whole selection; a column past the
    /// second is taken as the second.
    pub fn select_cell(&mut self, row: usize, col: usize)
        ensures
            final(self).selects(
                GridCellPos { row, col: low(col, 1) },
                GridCellPos { row, col: low(col, 1) },
            ),
            final(self).is_dragging == old(self).is_dragging,
    {
        let pos = GridCellPos { row, col: min_index(col, 1) };
        self.active_cell = Some(pos);
        self.anchor_cell = Some(pos);
        self.selection_range = Some(GridRange::from_cells(pos, pos));
        self.is_editing = false;
        self.just_started_editing = false;
    }

    /// Selects the rectangle from `a` to `b`, with the cursor on `b`.
    pub fn select_range(&mut self, a: GridCellPos, b: GridCellPos)
        ensures
            final(self).selects(a, b),
            final(self).is_dragging == old(self).is_dragging,
    {
        self.active_cell = Some(b);
        self.anchor_cell = Some(a);
        self.selection_range = Some(GridRange::from_cells(a, b));
        self.is_editing = false;
        self.just_started_editing = false;
    }

    /// Selects every cell of a table of `num_rows` rows; an empty table changes nothing.
    pub fn select_all(&mut self, num_rows: usize)
        ensures
            num_rows == 0 ==> *final(self) == *old(self),
            num_rows > 0 ==> final(self).selects(
                GridCellPos::origin(),
                GridCellPos { row: (num_rows - 1) as usize, col: 1 },
            ),
            final(self).is_dragging == old(self).is_dragging,
    {
        if num_rows == 0 {
            return ;
        }
        let a = GridCellPos { row: 0, col: 0 };
        let b = GridCellPos { row: num_rows - 1, col: 1 };
        self.select_range(a, b);
    }
}

/// A key that moves the cursor while no cell is being edited.
#[derive(Debug, Clone, Copy, PartialEq, Eq, Structural)]
pub enum NavKey {
    Up,
    Down,
    Left,
    Right,
    Tab,
    Enter,
}

/// A key that ends the editing of a cell.
#[derive(Debug, Clone, Copy, PartialEq, Eq, Structural)]
pub enum EditKey {
    Enter,
    Tab,
    Escape,
}

/// What a key asks of the selection.
#[derive(Debug, Clone, Copy, PartialEq, Eq, Structural)]
pub enum GridMove {
    /// Nothing moves.
    Stay,
    /// The cursor goes to the cell, which becomes the whole selection.
    Select(GridCellPos),
    /// The selection grows from the anchor to the cell.
    Extend(GridCellPos),
    /// A row is to be appended below the table, and the cell then selected.
    AddRow(GridCellPos),
}

/// There is a row below `row` in a table of `n` rows.
pub open spec fn has_row_below(row: usize, n: usize) -> bool {
    row + 1 < n
}

/// The cell in the given row and column.
pub open spec fn cell(row: int, col: int) -> GridCellPos {
    GridCellPos { row: row as usize, col: col as usize }
}

/// Where a navigation key sends the cursor that stands on `active`, in a table of `n` rows.
pub open spec fn nav_move(key: NavKey, shift: bool, active: GridCellPos, n: usize) -> GridMove {
    let (row, col) = (active.row, active.col);
    let step = |p: GridCellPos|
        if shift {
            GridMove::Extend(p)
        } else {
            GridMove::Select(p)
        };
    match key {
        NavKey::Up => if row > 0 { step(cell(row - 1, col as int)) } else { GridMove::Stay },
        NavKey::Down => if has_row_below(row, n) { step(cell(row + 1, col as int)) } else { GridMove::Stay },
        NavKey::Left => if col > 0 { step(cell(row as int, 0)) } else { GridMove::Stay },
        NavKey::Right => if col < 1 { step(cell(row as int, 1)) } else { GridMove::Stay },
        NavKey::Tab => if shift {
            if col > 0 {
                GridMove::Select(cell(row as int, 0))
            } else if row > 0 {
                GridMove::Select(cell(row - 1, 1))
            } else {
                GridMove::Stay
            }
        } else {
            if col == 0 {
                GridMove::Select(cell(row as int, 1))
            } else if has_row_below(row, n) {
                GridMove::Select(cell(row + 1, 0))
            } else {
                GridMove::AddRow(cell(n as int, 0))
            }
        },
        NavKey::Enter => if shift {
            if row > 0 {
                GridMove::Select(cell(row - 1, col as int))
            } else {
                GridMove::Stay
            }
        } else {
            if has_row_below(row, n) {
                GridMove::Select(cell(row + 1, col as int))
            } else {
                GridMove::AddRow(cell(n as int, col as int))
            }
        },
    }
}

/// Where a key that ends the editing of `at` sends the cursor, in a table of `n` rows.
pub open spec fn edit_move(key: EditKey, at: GridCellPos, n: usize) -> GridMove {
    match key {
        EditKey::Enter => if has_row_below(at.row, n) {
            GridMove::Select(cell(at.row + 1, at.col as int))
        } else {
            GridMove::AddRow(cell(n as int, at.col as int))
        },
        EditKey::Tab => if at.col == 0 {
            GridMove::Select(cell(at.row as int, 1))
        } else if has_row_below(at.row, n) {
            GridMove::Select(cell(at.row + 1, 0))
        } else {
            GridMove::AddRow(cell(n as int, 0))
        },
        EditKey::Escape => GridMove::Stay,
    }
}

/// The cell that `select_cell` puts the cursor on.
pub open spec fn clamped(p: GridCellPos) -> GridCellPos {
    GridCellPos { row: p.row, col: low(p.col, 1) }
}

/// The cell lies in a table of `n` rows.
pub open spec fn in_table(p: GridCellPos, n: usize) -> bool {
    p.row < n && p.col <= 1
}

/// From a cell of the table, a key never sends the cursor out of the table: it selects a
/// cell of the table, or asks for a row to be appended and names a cell of that row.
pub proof fn moves_stay_in_table(
    key: NavKey,
    edit_key: EditKey,
    shift: bool,
    active: GridCellPos,
    n: usize,
)
    requires
        in_table(active, n),
    ensures
        match nav_move(key, shift, active, n) {
            GridMove::Select(p) => in_table(p, n),
            GridMove::Extend(p) => in_table(p, n),
            GridMove::AddRow(p) => p.row == n && p.col <= 1,
            GridMove::Stay => true,
        },
        match edit_move(edit_key, active, n) {
            GridMove::Select(p) => in_table(p, n),
            GridMove::Extend(p) => in_table(p, n),
            GridMove::AddRow(p) => p.row == n && p.col <= 1,
            GridMove::Stay => true,
        },
{
}

/// A key move that goes to the cell: selecting it alone, or, with shift, stretching the
/// selection to it.
pub open spec fn step_to(shift: bool, p: GridCellPos) -> GridMove {
    if shift {
        GridMove::Extend(p)
    } else {
        GridMove::Select(p)
    }
}

/// The arrow keys move the cursor by one cell in their direction and keep the other
/// coordinate; with shift they stretch the selection instead; at the edge of the table they
/// do nothing. Enter goes one row down in the same column, Shift+Enter one row up; Tab goes
/// right, then to the start of the next row; Shift+Tab goes back the same way. Past the last
/// row, Enter and Tab ask for a new row and name its cell.
pub proof fn navigation_keys_move_one_step(shift: bool, a: GridCellPos, n: usize)
    requires
        in_table(a, n),
    ensures
        a.row > 0 ==> nav_move(NavKey::Up, shift, a, n) == step_to(
            shift,
            GridCellPos { row: (a.row - 1) as usize, col: a.col },
        ),
        a.row == 0 ==> nav_move(NavKey::Up, shift, a, n) == GridMove::Stay,
        a.row + 1 < n ==> nav_move(NavKey::Down, shift, a, n) == step_to(
            shift,
            GridCellPos { row: (a.row + 1) as usize, col: a.col },
        ),
        a.row + 1 == n ==> nav_move(NavKey::Down, shift, a, n) == GridMove::Stay,
        a.col == 1 ==> nav_move(NavKey::Left, shift, a, n) == step_to(
            shift,
            GridCellPos { row: a.row, col: 0 },
        ),
        a.col == 0 ==> nav_move(NavKey::Left, shift, a, n) == GridMove::Stay,
        a.col == 0 ==> nav_move(NavKey::Right, shift, a, n) == step_to(
            shift,
            GridCellPos { row: a.row, col: 1 },
        ),
        a.col == 1 ==> nav_move(NavKey::Right, shift, a, n) == GridMove::Stay,
        a.row + 1 < n ==> nav_move(NavKey::Enter, false, a, n) == GridMove::Select(
            GridCellPos { row: (a.row + 1) as usize, col: a.col },
        ),
        a.row + 1 == n ==> nav_move(NavKey::Enter, false, a, n) == GridMove::AddRow(
            GridCellPos { row: n, col: a.col },
        ),
        a.row > 0 ==> nav_move(NavKey::Enter, true, a, n) == GridMove::Select(
            GridCellPos { row: (a.row - 1) as usize, col: a.col },
        ),
        a.row == 0 ==> nav_move(NavKey::Enter, true, a, n) == GridMove::Stay,
        a.col == 0 ==> nav_move(NavKey::Tab, false, a, n) == GridMove::Select(
            GridCellPos { row: a.row, col: 1 },
        ),
        a.col == 1 && a.row + 1 < n ==> nav_move(NavKey::Tab, false, a, n) == GridMove::Select(
            GridCellPos { row: (a.row + 1) as usize, col: 0 },
        ),
        a.col == 1 && a.row + 1 == n ==> nav_move(NavKey::Tab, false, a, n) == GridMove::AddRow(
            GridCellPos { row: n, col: 0 },
        ),
        a.col == 1 ==> nav_move(NavKey::Tab, true, a, n) == GridMove::Select(
            GridCellPos { row: a.row, col: 0 },
        ),
        a.col == 0 && a.row > 0 ==> nav_move(NavKey::Tab, true, a, n) == GridMove::Select(
            GridCellPos { row: (a.row - 1) as usize, col: 1 },
        ),
        a.col == 0 && a.row == 0 ==> nav_move(NavKey::Tab, true, a, n) == GridMove::Stay,
{
}

/// Moving one way and then back returns to the starting cell: Up then Down, Left then Right,
/// Enter then Shift+Enter, and Tab then Shift+Tab, whenever the first move selects a cell.
pub proof fn navigation_moves_undo(shift: bool, a: GridCellPos, n: usize)
    requires
        in_table(a, n),
    ensures
        nav_move(NavKey::Up, shift, a, n) matches GridMove::Select(p) ==> nav_move(
            NavKey::Down,
            shift,
            p,
            n,
        ) == GridMove::Select(a),
        nav_move(NavKey::Left, shift, a, n) matches GridMove::Select(p) ==> nav_move(
            NavKey::Right,
            shift,
            p,
            n,
        ) == GridMove::Select(a),
        nav_move(NavKey::Enter, false, a, n) matches GridMove::Select(p) ==> nav_move(
            NavKey::Enter,
            true,
            p,
            n,
        ) == GridMove::Select(a),
        nav_move(NavKey::Tab, false, a, n) matches GridMove::Select(p) ==> nav_move(
            NavKey::Tab,
            true,
            p,
            n,
        ) == GridMove::Select(a),
{
}

/// Ending an edit: Enter goes to the cell below in the same column, or past the last row
/// asks for a new row and names its cell in that column; Tab goes from the first column to
/// the second, and from the second to the start of the next row (or of a new one); Escape
/// leaves the cursor where it is.
pub proof fn ending_an_edit_moves_on(at: GridCellPos, n: usize)
    requires
        in_table(at, n),
    ensures
        at.row + 1 < n ==> edit_move(EditKey::Enter, at, n) == GridMove::Select(
            GridCellPos { row: (at.row + 1) as usize, col: at.col },
        ),
        at.row + 1 == n ==> edit_move(EditKey::Enter, at, n) == GridMove::AddRow(
            GridCellPos { row: n, col: at.col },
        ),
        at.col == 0 ==> edit_move(EditKey::Tab, at, n) == GridMove::Select(
            GridCellPos { row: at.row, col: 1 },
        ),
        at.col == 1 && at.row + 1 < n ==> edit_move(EditKey::Tab, at, n) == GridMove::Select(
            GridCellPos { row: (at.row + 1) as usize, col: 0 },
        ),
        at.col == 1 && at.row + 1 == n ==> edit_move(EditKey::Tab, at, n) == GridMove::AddRow(
            GridCellPos { row: n, col: 0 },
        ),
        edit_move(EditKey::Escape, at, n) == GridMove::Stay,
{
}

impl SpreadsheetGrid {
    /// Carries out a move: the grid selects as the move says, or is left as it was.
    pub open spec fn moved(old_grid: SpreadsheetGrid, new_grid: SpreadsheetGrid, m: GridMove, from: GridCellPos) -> bool {
        &&& new_grid.is_dragging == old_grid.is_dragging
        &&& match m {
            GridMove::Select(p) => new_grid.selects(clamped(p), clamped(p)),
            GridMove::Extend(p) => new_grid.selects(
                match old_grid.anchor_cell {
                    Some(a) => a,
                    None => from,
                },
                p,
            ),
            _ => new_grid.active_cell == old_grid.active_cell && new_grid.anchor_cell
                == old_grid.anchor_cell && new_grid.selection_range == old_grid.selection_range
                && new_grid.just_started_editing == old_grid.just_started_editing,
        }
    }

    fn apply_move(&mut self, m: GridMove, from: GridCellPos) -> (added: Option<GridCellPos>)
        ensures
            SpreadsheetGrid::moved(*old(self), *final(self), m, from),
            final(self).is_editing == (old(self).is_editing && (m is Stay || m is AddRow)),
            added == (match m {
                GridMove::AddRow(p) => Some(p),
                _ => None,
            }),
    {
        match m {
            GridMove::Stay => None,
            GridMove::Select(p) => {
                self.select_cell(p.row, p.col);
                None
            },
            GridMove::Extend(p) => {
                let anchor = match self.anchor_cell {
                    Some(a) => a,
                    None => from,
                };
                self.select_range(anchor, p);
                None
            },
            GridMove::AddRow(p) => Some(p),
        }
    }

    /// Handles a navigation key pressed while no cell is edited, with the cursor on
    /// `active` when the key came. Returns the cell of a row to append, when the key asks
    /// for one; the caller appends the row and then selects that cell.
    pub fn navigate(&mut self, key: NavKey, shift: bool, active: GridCellPos, num_rows: usize) -> (added: Option<GridCellPos>)
        ensures
            SpreadsheetGrid::moved(*old(self), *final(self), nav_move(key, shift, active, num_rows), active),
            final(self).is_editing == (old(self).is_editing && (nav_move(key, shift, active, num_rows) is Stay
                || nav_move(key, shift, active, num_rows) is AddRow)),
            added == (match nav_move(key, shift, active, num_rows) {
                GridMove::AddRow(p) => Some(p),
                _ => None,
            }),
    {
        let row = active.row;
        let col = active.col;
        let below = num_rows > 0 && row < num_rows - 1;
        let m = match key {
            NavKey::Up => if row > 0 {
                let p = GridCellPos { row: row - 1, col };
                if shift { GridMove::Extend(p) } else { GridMove::Select(p) }
            } else {
                GridMove::Stay
            },
            NavKey::Down => if below {
                let p = GridCellPos { row: row + 1, col };
                if shift { GridMove::Extend(p) } else { GridMove::Select(p) }
            } else {
                GridMove::Stay
            },
            NavKey::Left => if col > 0 {
                let p = GridCellPos { row, col: 0 };
                if shift { GridMove::Extend(p) } else { GridMove::Select(p) }
            } else {
                GridMove::Stay
            },
            NavKey::Right => if col < 1 {
                let p = GridCellPos { row, col: 1 };
                if shift { GridMove::Extend(p) } else { GridMove::Select(p) }
            } else {
                GridMove::Stay
            },
            NavKey::Tab => if shift {
                if col > 0 {
                    GridMove::Select(GridCellPos { row, col: 0 })
                } else if row > 0 {
                    GridMove::Select(GridCellPos { row: row - 1, col: 1 })
                } else {
                    GridMove::Stay
                }
            } else {
                if col == 0 {
                    GridMove::Select(GridCellPos { row, col: 1 })
                } else if below {
                    GridMove::Select(GridCellPos { row: row + 1, col: 0 })
                } else {
                    GridMove::AddRow(GridCellPos { row: num_rows, col: 0 })
                }
            },
            NavKey::Enter => if shift {
                if row > 0 {
                    GridMove::Select(GridCellPos { row: row - 1, col })
                } else {
                    GridMove::Stay
                }
            } else {
                if below {
                    GridMove::Select(GridCellPos { row: row + 1, col })
                } else {
                    GridMove::AddRow(GridCellPos { row: num_rows, col })
                }
            },
        };
        assert(m == nav_move(key, shift, active, num_rows));
        self.apply_move(m, active)
    }

    /// Handles a key that ends the editing of cell `at`: editing stops, and the cursor moves
    /// as `edit_move` says. Returns the cell of a row to append, when the key asks for one.
    pub fn finish_edit(&mut self, key: EditKey, at: GridCellPos, num_rows: usize) -> (added: Option<GridCellPos>)
        ensures
            SpreadsheetGrid::moved(*old(self), *final(self), edit_move(key, at, num_rows), at),
            !final(self).is_editing,
            added == (match edit_move(key, at, num_rows) {
                GridMove::AddRow(p) => Some(p),
                _ => None,
            }),
    {
        self.is_editing = false;
        let below = num_rows > 0 && at.row < num_rows - 1;
        let m = match key {
            EditKey::Enter => if below {
                GridMove::Select(GridCellPos { row: at.row + 1, col: at.col })
            } else {
                GridMove::AddRow(GridCellPos { row: num_rows, col: at.col })
            },
            EditKey::Tab => if at.col == 0 {
                GridMove::Select(GridCellPos { row: at.row, col: 1 })
            } else if below {
                GridMove::Select(GridCellPos { row: at.row + 1, col: 0 })
            } else {
                GridMove::AddRow(GridCellPos { row: num_rows, col: 0 })
            },
            EditKey::Escape => GridMove::Stay,
        };
        assert(m == edit_move(key, at, num_rows));
        self.apply_move(m, at)
    }

    /// Starts editing the active cell.
    pub fn begin_edit(&mut self)
        ensures
            final(self).is_editing,
            final(self).just_started_editing,
            final(self).active_cell == old(self).active_cell,
            final(self).anchor_cell == old(self).anchor_cell,
            final(self).selection_range == old(self).selection_range,
            final(self).is_dragging == old(self).is_dragging,
    {
        self.is_editing = true;
        self.just_started_editing = true;
    }

    /// A character typed while no cell is edited starts editing the active cell, when that
    /// cell is in a table of `num_rows` rows; returns the cell whose text the character
    /// replaces.
    pub fn begin_typing(&mut self, num_rows: usize) -> (target: Option<GridCellPos>)
        ensures
            target == (match old(self).active_cell {
                Some(a) => if a.row < num_rows { Some(a) } else { None },
                None => None,
            }),
            target is Some ==> final(self).is_editing && final(self).just_started_editing,
            target is None ==> *final(self) == *old(self),
            final(self).active_cell == old(self).active_cell,
            final(self).anchor_cell == old(self).anchor_cell,
            final(self).selection_range == old(self).selection_range,
            final(self).is_dragging == old(self).is_dragging,
    {
        match self.active_cell {
            Some(a) => if a.row < num_rows {
                self.begin_edit();
                Some(a)
            } else {
                None
            },
            None => None,
        }
    }

    /// A click on a cell: with shift, the selection grows from the anchor (or from the cell,
    /// when there is no anchor) to the cell; without, the cell alone is selected.
    pub fn click_cell(&mut self, pos: GridCellPos, shift: bool)
        ensures
            shift ==> final(self).selects(
                match old(self).anchor_cell {
                    Some(a) => a,
                    None => pos,
                },
                pos,
            ),
            !shift ==> final(self).selects(clamped(pos), clamped(pos)),
            final(self).is_dragging == old(self).is_dragging,
    {
        if shift {
            let anchor = match self.anchor_cell {
                Some(a) => a,
                None => pos,
            };
            self.select_range(anchor, pos);
        } else {
            self.select_cell(pos.row, pos.col);
        }
    }

    /// A double click selects the cell and starts editing it.
    pub fn double_click_cell(&mut self, pos: GridCellPos)
        ensures
            final(self).active_cell == Some(clamped(pos)),
            final(self).anchor_cell == Some(clamped(pos)),
            final(self).selection_range == Some(GridRange::spanning(clamped(pos), clamped(pos))),
            final(self).is_editing,
            final(self).just_started_editing,
            final(self).is_dragging == old(self).is_dragging,
    {
        self.select_cell(pos.row, pos.col);
        self.begin_edit();
    }

    /// A drag that starts on a cell selects it and anchors the selection there.
    pub fn begin_drag(&mut self, pos: GridCellPos)
        ensures
            final(self).selects(clamped(pos), clamped(pos)),
            final(self).is_dragging,
    {
        self.anchor_cell = Some(pos);
        self.select_cell(pos.row, pos.col);
        self.is_dragging = true;
    }

    /// While a drag goes on, the pointer over a cell stretches the selection from the anchor
    /// to that cell.
    pub fn drag_over(&mut self, pos: GridCellPos)
        ensures
            (old(self).is_dragging && old(self).anchor_cell is Some) ==> final(self).selects(
                old(self).anchor_cell->0,
                pos,
            ) && final(self).is_dragging,
            !(old(self).is_dragging && old(self).anchor_cell is Some) ==> *final(self) == *old(self),
    {
        if self.is_dragging {
            if let Some(anchor) = self.anchor_cell {
                self.select_range(anchor, pos);
            }
        }
    }

    /// A click on a row header selects both cells of that row.
    pub fn select_row(&mut self, row: usize)
        ensures
            final(self).selects(cell(row as int, 0), cell(row as int, 1)),
            final(self).is_dragging == old(self).is_dragging,
    {
        self.select_range(GridCellPos { row, col: 0 }, GridCellPos { row, col: 1 });
    }

    /// After a row was removed, leaving `new_len` rows, a cursor past the end moves to the
    /// last row (or to the first, when none is left), in its column.
    pub fn row_removed(&mut self, new_len: usize)
        ensures
            match old(self).active_cell {
                Some(a) => if a.row >= new_len {
                    final(self).selects(
                        clamped(cell(if new_len > 0 { new_len - 1 } else { 0 }, a.col as int)),
                        clamped(cell(if new_len > 0 { new_len - 1 } else { 0 }, a.col as int)),
                    ) && final(self).is_dragging == old(self).is_dragging
                } else {
                    *final(self) == *old(self)
                },
                None => *final(self) == *old(self),
            },
    {
        if let Some(a) = self.active_cell {
            if a.row >= new_len {
                let last = if new_len > 0 { new_len - 1 } else { 0 };
                self.select_cell(last, a.col);
            }
        }
    }
}

/// The texts shown in one row of the table: the current and the time as typed.
#[derive(Debug, Clone)]
pub struct PointText {
    pub current_str: String,
    pub time_str: String,
}

/// The text of column `col` of a row: column 0 is the current, any other the time.
pub open spec fn cell_text(t: PointText, col: int) -> Seq<char> {
    if col == 0 {
        t.current_str@
    } else {
        t.time_str@
    }
}

/// The last row of the rectangle that exists in a table of `n > 0` rows.
pub open spec fn last_row(r: GridRange, n: usize) -> int {
    low(r.max_row, (n - 1) as usize) as int
}

/// The last column of the rectangle that exists in the table.
pub open spec fn last_col(r: GridRange) -> int {
    low(r.max_col, 1) as int
}

/// The rows of the rectangle that exist in a table of `n` rows, top to bottom.
pub open spec fn rows_in(r: GridRange, n: usize) -> Seq<int> {
    if n > 0 && r.min_row <= last_row(r, n) {
        Seq::new((last_row(r, n) - r.min_row + 1) as nat, |k: int| r.min_row + k)
    } else {
        Seq::empty()
    }
}

/// The columns of the rectangle that exist in the table, left to right.
pub open spec fn cols_in(r: GridRange) -> Seq<int> {
    if r.min_col <= last_col(r) {
        Seq::new((last_col(r) - r.min_col + 1) as nat, |k: int| r.min_col + k)
    } else {
        Seq::empty()
    }
}

/// The cell is in the rectangle and in a table of `n` rows.
pub open spec fn clipped_holds(r: GridRange, n: usize, p: GridCellPos) -> bool {
    &&& n > 0
    &&& r.min_row <= p.row <= last_row(r, n)
    &&& r.min_col <= p.col <= last_col(r)
}

/// Cell `a` comes before cell `b` in reading order: an earlier row, or the same row and
/// an earlier column.
pub open spec fn reads_before(a: GridCellPos, b: GridCellPos) -> bool {
    a.row < b.row || (a.row == b.row && a.col < b.col)
}

/// One row of a copied selection: the texts of its columns, separated by tabs.
pub open spec fn copied_line(texts: Seq<PointText>, r: GridRange, row: int) -> Seq<char> {
    joined(cols_in(r).map_values(|c: int| cell_text(texts[row], c)), "\t"@)
}

/// The lines of a copied selection, one per row.
pub open spec fn copied_lines(texts: Seq<PointText>, r: GridRange) -> Seq<Seq<char>> {
    rows_in(r, texts.len() as usize).map_values(|row: int| copied_line(texts, r, row))
}

impl SpreadsheetGrid {
    /// The cells that copying and clearing act on: the selection rectangle, or else the
    /// active cell alone.
    pub open spec fn target_range(self) -> Option<GridRange> {
        match self.selection_range {
            Some(r) => Some(r),
            None => match self.active_cell {
                Some(c) => Some(GridRange::spanning(c, c)),
                None => None,
            },
        }
    }

    fn acting_range(&self) -> (r: Option<GridRange>)
        ensures
            r == self.target_range(),
    {
        match self.selection_range {
            Some(r) => Some(r),
            None => match self.active_cell {
                Some(c) => Some(GridRange::from_cells(c, c)),
                None => None,
            },
        }
    }

    /// The selection as tab-separated text, one line per row, lines separated by "\r\n";
    /// `None` when there is nothing to act on or no row of it exists in the table.
    pub fn copy_text(&self, texts: &Vec<PointText>) -> (out: Option<String>)
        ensures
            match self.target_range() {
                None => out is None,
                Some(r) => if rows_in(r, texts@.len() as usize).len() == 0 {
                    out is None
                } else {
                    out is Some && out->0@ == joined(copied_lines(texts@, r), "\r\n"@)
                },
            },
    {
        let r = match self.acting_range() {
            Some(r) => r,
            None => return None,
        };
        let n = texts.len();
        if n == 0 {
            return None;
        }
        let hi = min_index(r.max_row, n - 1);
        if r.min_row > hi {
            return None;
        }
        let chi = min_index(r.max_col, 1);
        let ghost lines = copied_lines(texts@, r);
        let mut out = String::new();
        let mut row = r.min_row;
        while row <= hi
            invariant
                r.min_row <= row <= hi + 1,
                hi == last_row(r, n),
                chi == last_col(r),
                hi < n,
                n == texts@.len(),
                lines == copied_lines(texts@, r),
                lines.len() == hi - r.min_row + 1,
                out@ == joined(lines.take(row - r.min_row), "\r\n"@),
            decreases hi + 1 - row,
        {
            let line = Self::line_text(&texts[row], r.min_col, chi);
            proof {
                assert(line@ == lines[row - r.min_row]);
                assert(lines.take(row - r.min_row + 1) =~= lines.take(row - r.min_row).push(
                    lines[row - r.min_row],
                ));
                lemma_joined_push(lines.take(row - r.min_row), "\r\n"@, line@);
            }
            if row > r.min_row {
                out.append("\r\n");
            }
            out.append(line.as_str());
            row = row + 1;
        }
        assert(lines.take(row - r.min_row) =~= lines);
        Some(out)
    }

    fn line_text(t: &PointText, lo: usize, hi: usize) -> (s: String)
        requires
            hi <= 1,
        ensures
            s@ == joined(
                (if lo <= hi {
                    Seq::new((hi - lo + 1) as nat, |k: int| lo + k)
                } else {
                    Seq::<int>::empty()
                }).map_values(|c: int| cell_text(*t, c)),
                "\t"@,
            ),
    {
        let ghost cols = if lo <= hi {
            Seq::new((hi - lo + 1) as nat, |k: int| lo + k)
        } else {
            Seq::<int>::empty()
        };
        let ghost parts = cols.map_values(|c: int| cell_text(*t, c));
        let mut s = String::new();
        if lo > hi {
            assert(parts =~= Seq::<Seq<char>>::empty());
            return s;
        }
        let mut c = lo;
        while c <= hi
            invariant
                lo <= c <= hi + 1,
                hi <= 1,
                parts.len() == hi - lo + 1,
                forall|k: int| 0 <= k < parts.len() ==> #[trigger] parts[k] == cell_text(*t, lo + k),
                s@ == joined(parts.take(c - lo), "\t"@),
            decreases hi + 1 - c,
        {
            let part: &String = if c == 0 { &t.current_str } else { &t.time_str };
            proof {
                assert(part@ == parts[c - lo]);
                assert(parts.take(c - lo + 1) =~= parts.take(c - lo).push(parts[c - lo]));
                lemma_joined_push(parts.take(c - lo), "\t"@, part@);
            }
            if c > lo {
                s.append("\t");
            }
            s.append(part.as_str());
            c = c + 1;
        }
        assert(parts.take(c - lo) =~= parts);
        s
    }

    /// The cells that clearing empties: those of the target range that exist in a table of
    /// `num_rows` rows, each once, row by row.
    pub fn selected_cells(&self, num_rows: usize) -> (cells: Vec<GridCellPos>)
        ensures
            match self.target_range() {
                None => cells@.len() == 0,
                Some(r) => forall|p: GridCellPos| #[trigger] cells@.contains(p) <==> clipped_holds(
                    r,
                    num_rows,
                    p,
                ),
            },
            forall|i: int, j: int| 0 <= i < j < cells@.len() ==> reads_before(cells@[i], cells@[j]),
            forall|i: int, j: int| 0 <= i < j < cells@.len() ==> cells@[i] != cells@[j],
    {
        let mut cells: Vec<GridCellPos> = Vec::new();
        let r = match self.acting_range() {
            Some(r) => r,
            None => return cells,
        };
        if num_rows == 0 {
            assert forall|p: GridCellPos| #[trigger] cells@.contains(p) <==> clipped_holds(r, num_rows, p) by {}
            return cells;
        }
        let hi = min_index(r.max_row, num_rows - 1);
        let chi = min_index(r.max_col, 1);
        if r.min_row > hi {
            assert forall|p: GridCellPos| #[trigger] cells@.contains(p) <==> clipped_holds(r, num_rows, p) by {}
            return cells;
        }
        let mut row = r.min_row;
        while row <= hi
            invariant
                r.min_row <= row,
                row <= hi + 1,
                hi == last_row(r, num_rows),
                chi == last_col(r),
                hi < num_rows,
                num_rows > 0,
                forall|p: GridCellPos| #[trigger] cells@.contains(p) <==> (clipped_holds(r, num_rows, p) && p.row < row),
                forall|i: int, j: int| 0 <= i < j < cells@.len() ==> reads_before(cells@[i], cells@[j]),
            decreases hi + 1 - row,
        {
            let mut c = r.min_col;
            let ghost before = cells@;
            while c <= chi
                invariant
                    r.min_row <= row <= hi,
                    chi <= 1,
                    r.min_col <= c <= chi + 1 || (c == r.min_col && c > chi),
                    hi == last_row(r, num_rows),
                    chi == last_col(r),
                    hi < num_rows,
                    num_rows > 0,
                    forall|p: GridCellPos| #[trigger] cells@.contains(p) <==> (clipped_holds(r, num_rows, p) && (p.row < row || (p.row == row && p.col < c))),
                    forall|i: int, j: int| 0 <= i < j < cells@.len() ==> reads_before(cells@[i], cells@[j]),
                decreases chi + 1 - c,
            {
                let ghost prev = cells@;
                let p = GridCellPos { row, col: c };
                cells.push(p);
                proof {
                    assert forall|q: GridCellPos| #[trigger] cells@.contains(q) <==> (clipped_holds(r, num_rows, q) && (q.row < row || (q.row == row && q.col < c + 1))) by {
                        if cells@.contains(q) && q != p {
                            let k = choose|k: int| 0 <= k < cells@.len() && cells@[k] == q;
                            assert(prev[k] == q);
                            assert(prev.contains(q));
                        }
                        if q != p && clipped_holds(r, num_rows, q) && (q.row < row || (q.row == row && q.col < c)) {
                            assert(prev.contains(q));
                            let k = choose|k: int| 0 <= k < prev.len() && prev[k] == q;
                            assert(cells@[k] == q);
                        }
                        if q == p {
                            assert(cells@[cells@.len() - 1] == p);
                        }
                    }
                    assert forall|i: int, j: int| 0 <= i < j < cells@.len() implies reads_before(cells@[i], cells@[j]) by {
                        if j == cells@.len() - 1 {
                            assert(prev[i] == cells@[i]);
                            assert(prev.contains(cells@[i]));
                        } else {
                            assert(prev[i] == cells@[i] && prev[j] == cells@[j]);
                        }
                    }
                }
                c = c + 1;
            }
            row = row + 1;
        }
        assert forall|i: int, j: int| 0 <= i < j < cells@.len() implies cells@[i] != cells@[j] by {
            assert(reads_before(cells@[i], cells@[j]));
        }
        cells
    }
}

/// A pasted value to store: value `source_index` of pasted row `source_row` goes to the
/// cell at `row`, `col`.
#[derive(Debug, Clone, Copy, PartialEq, Eq, Structural)]
pub struct CellWrite {
    pub row: usize,
    pub col: usize,
    pub source_row: usize,
    pub source_index: usize,
}

/// How pasted rows of values land in the table.
#[derive(Debug, Clone)]
pub struct PastePlan {
    /// How many rows were pasted.
    pub pasted_rows: usize,
    /// The table must have at least this many rows before the values are stored.
    pub rows_needed: usize,
    /// The values to store, row by row and left to right.
    pub writes: Vec<CellWrite>,
}

/// The cell where a paste starts: the active cell, or else the first cell.
pub open spec fn paste_origin(g: SpreadsheetGrid) -> GridCellPos {
    match g.active_cell {
        Some(a) => a,
        None => GridCellPos::origin(),
    }
}

/// The values of pasted row `r`, `width` of them, that land in the table: those whose
/// column, counted from the start column, is one of the table's two columns.
pub open spec fn row_writes(start: GridCellPos, r: int, width: int) -> Seq<CellWrite> {
    let k = if start.col <= 1 {
        if width <= 2 - start.col { width } else { 2 - start.col }
    } else {
        0
    };
    Seq::new(
        k as nat,
        |c: int|
            CellWrite {
                row: (start.row + r) as usize,
                col: (start.col + c) as usize,
                source_row: r as usize,
                source_index: c as usize,
            },
    )
}

/// The writes of all pasted rows, in order.
pub open spec fn paste_writes(start: GridCellPos, widths: Seq<usize>) -> Seq<CellWrite>
    decreases widths.len(),
{
    if widths.len() == 0 {
        Seq::empty()
    } else {
        paste_writes(start, widths.drop_last()) + row_writes(
            start,
            widths.len() - 1,
            widths.last() as int,
        )
    }
}

/// The column where the selection of pasted cells ends: the second column when the paste
/// starts there (or further right), or when some row reaches it.
pub open spec fn paste_end_col(start: GridCellPos, widths: Seq<usize>) -> usize {
    if start.col >= 1 || exists|i: int| 0 <= i < widths.len() && widths[i] >= 2 {
        1
    } else {
        0
    }
}

impl SpreadsheetGrid {
    /// Plans a paste of rows holding `row_widths[i]` values each, starting at the active cell
    /// (or at the first cell): the rows the table needs, the cells that receive values, and
    /// the selection, which then covers the pasted cells. Nothing is pasted, and the grid
    /// stays as it is, when there are no rows.
    pub fn plan_paste(&mut self, row_widths: &Vec<usize>) -> (plan: Option<PastePlan>)
        requires
            paste_origin(*old(self)).row + row_widths@.len() <= usize::MAX,
        ensures
            row_widths@.len() == 0 ==> plan is None && *final(self) == *old(self),
            row_widths@.len() > 0 ==> {
                let start = paste_origin(*old(self));
                &&& plan is Some
                &&& plan->0.pasted_rows == row_widths@.len()
                &&& plan->0.rows_needed == start.row + row_widths@.len()
                &&& plan->0.writes@ == paste_writes(start, row_widths@)
                &&& final(self).selects(
                    start,
                    GridCellPos {
                        row: (start.row + row_widths@.len() - 1) as usize,
                        col: paste_end_col(start, row_widths@),
                    },
                )
                &&& final(self).is_dragging == old(self).is_dragging
            },
    {
        let start = match self.active_cell {
            Some(a) => a,
            None => GridCellPos { row: 0, col: 0 },
        };
        let n = row_widths.len();
        if n == 0 {
            return None;
        }
        let mut writes: Vec<CellWrite> = Vec::new();
        let mut max_col = start.col;
        let mut r: usize = 0;
        while r < n
            invariant
                n == row_widths@.len(),
                start == paste_origin(*old(self)),
                start.row + n <= usize::MAX,
                r <= n,
                writes@ == paste_writes(start, row_widths@.take(r as int)),
                max_col == if start.col >= 1 {
                    start.col
                } else if exists|i: int| 0 <= i < r && row_widths@[i] >= 2 {
                    1
                } else {
                    0
                },
            decreases n - r,
        {
            let w = row_widths[r];
            let limit = if start.col <= 1 {
                min_index(w, 2 - start.col)
            } else {
                0
            };
            let ghost before = writes@;
            let ghost row_part = row_writes(start, r as int, w as int);
            let mut c: usize = 0;
            while c < limit
                invariant
                    start.row + n <= usize::MAX,
                    r < n,
                    limit == row_part.len(),
                    limit <= 2,
                    start.col <= 1 || limit == 0,
                    c <= limit,
                    row_part == row_writes(start, r as int, w as int),
                    writes@ == before + row_part.take(c as int),
                    max_col == if start.col >= 1 {
                        start.col
                    } else if (exists|i: int| 0 <= i < r && row_widths@[i] >= 2) || c >= 2 {
                        1
                    } else {
                        0
                    },
                decreases limit - c,
            {
                let cw = CellWrite { row: start.row + r, col: start.col + c, source_row: r, source_index: c };
                writes.push(cw);
                if start.col + c > max_col {
                    max_col = start.col + c;
                }
                proof {
                    assert(row_part.take(c + 1) =~= row_part.take(c as int).push(row_part[c as int]));
                }
                c = c + 1;
            }
            proof {
                assert(row_part.take(c as int) =~= row_part);
                assert(row_widths@.take(r + 1).drop_last() =~= row_widths@.take(r as int));
                if start.col == 0 {
                    if w >= 2 {
                        assert(row_widths@[r as int] >= 2);
                    }
                    if exists|i: int| 0 <= i < r + 1 && row_widths@[i] >= 2 {
                        let i = choose|i: int| 0 <= i < r + 1 && row_widths@[i] >= 2;
                        if i == r {
                            assert(c >= 2);
                        }
                    }
                }
            }
            r = r + 1;
        }
        assert(row_widths@.take(n as int) =~= row_widths@);
        let end = GridCellPos { row: start.row + n - 1, col: min_index(max_col, 1) };
        self.select_range(start, end);
        Some(PastePlan { pasted_rows: n, rows_needed: start.row + n, writes })
    }
}

/// Every value that fits is pasted: value `j` of pasted row `i` goes to the cell `i` rows
/// below the start row and `j` columns right of the start column, whenever that column is
/// one of the table's two.
pub proof fn paste_writes_every_fitting_value(start: GridCellPos, widths: Seq<usize>, i: int, j: int)
    requires
        start.row + widths.len() <= usize::MAX,
        0 <= i < widths.len(),
        0 <= j < widths[i],
        start.col + j <= 1,
    ensures
        paste_writes(start, widths).contains(
            (CellWrite {
                row: (start.row + i) as usize,
                col: (start.col + j) as usize,
                source_row: i as usize,
                source_index: j as usize,
            }),
        ),
    decreases widths.len(),
{
    let rest = widths.drop_last();
    let head = paste_writes(start, rest);
    let all = paste_writes(start, widths);
    let w = CellWrite {
        row: (start.row + i) as usize,
        col: (start.col + j) as usize,
        source_row: i as usize,
        source_index: j as usize,
    };
    if i < widths.len() - 1 {
        assert(rest[i] == widths[i]);
        paste_writes_every_fitting_value(start, rest, i, j);
        let k = choose|k: int| 0 <= k < head.len() && head[k] == w;
        assert(all[k] == w);
    } else {
        let row = row_writes(start, i, widths.last() as int);
        assert(row[j] == w);
        assert(all[head.len() + j] == w);
    }
}

/// The writes of a paste come in reading order: row by row, left to right, so no cell is
/// written twice.
pub proof fn paste_writes_in_reading_order(start: GridCellPos, widths: Seq<usize>)
    requires
        start.row + widths.len() <= usize::MAX,
    ensures
        forall|a: int, b: int|
            0 <= a < b < paste_writes(start, widths).len() ==> reads_before(
                GridCellPos {
                    row: paste_writes(start, widths)[a].row,
                    col: paste_writes(start, widths)[a].col,
                },
                GridCellPos {
                    row: paste_writes(start, widths)[b].row,
                    col: paste_writes(start, widths)[b].col,
                },
            ),
    decreases widths.len(),
{
    if widths.len() > 0 {
        let rest = widths.drop_last();
        let head = paste_writes(start, rest);
        let all = paste_writes(start, widths);
        let r = widths.len() - 1;
        let row = row_writes(start, r, widths.last() as int);
        paste_writes_in_reading_order(start, rest);
        assert forall|a: int, b: int| 0 <= a < b < all.len() implies reads_before(
            GridCellPos { row: all[a].row, col: all[a].col },
            GridCellPos { row: all[b].row, col: all[b].col },
        ) by {
            if b < head.len() {
                assert(all[a] == head[a] && all[b] == head[b]);
            } else if a < head.len() {
                pasted_cells_lie_in_selection(start, rest, a);
                assert(all[a] == head[a]);
                assert(all[b] == row[b - head.len()]);
            } else {
                assert(all[a] == row[a - head.len()]);
                assert(all[b] == row[b - head.len()]);
            }
        }
    }
}

/// The selection a paste leaves ends in the rightmost column that receives a value, or in
/// the start column when none lies further right.
pub proof fn paste_selection_ends_at_last_written_column(start: GridCellPos, widths: Seq<usize>)
    requires
        start.row + widths.len() <= usize::MAX,
        widths.len() > 0,
        start.col <= 1,
    ensures
        start.col <= paste_end_col(start, widths) <= 1,
        forall|k: int|
            0 <= k < paste_writes(start, widths).len() ==> #[trigger] paste_writes(start, widths)[k].col
                <= paste_end_col(start, widths),
        paste_end_col(start, widths) > start.col ==> exists|k: int|
            0 <= k < paste_writes(start, widths).len() && #[trigger] paste_writes(start, widths)[k].col
                == paste_end_col(start, widths),
{
    assert forall|k: int| 0 <= k < paste_writes(start, widths).len() implies #[trigger] paste_writes(start, widths)[k].col
        <= paste_end_col(start, widths) by {
        pasted_cells_lie_in_selection(start, widths, k);
    }
    if paste_end_col(start, widths) > start.col {
        let i = choose|i: int| 0 <= i < widths.len() && widths[i] >= 2;
        paste_writes_every_fitting_value(start, widths, i, 1);
        let w = CellWrite {
            row: (start.row + i) as usize,
            col: 1,
            source_row: i as usize,
            source_index: 1,
        };
        let k = choose|k: int| 0 <= k < paste_writes(start, widths).len() && paste_writes(start, widths)[k] == w;
        assert(paste_writes(start, widths)[k].col == 1);
    }
}

/// Clearing and copying act on the cells that are both selected and in the table, and they
/// walk the rows top to bottom and the columns left to right.
pub proof fn clipping_keeps_selected_table_cells(r: GridRange, n: usize, p: GridCellPos)
    ensures
        clipped_holds(r, n, p) <==> r.holds(p) && in_table(p, n),
        forall|i: int, j: int| 0 <= i < j < rows_in(r, n).len() ==> rows_in(r, n)[i] < rows_in(r, n)[j],
        forall|i: int, j: int| 0 <= i < j < cols_in(r).len() ==> cols_in(r)[i] < cols_in(r)[j],
        rows_in(r, n).len() > 0 ==> rows_in(r, n)[0] == r.min_row,
        cols_in(r).len() > 0 ==> cols_in(r)[0] == r.min_col,
{
}

/// A copied row holds the selected texts of that row, left to right, separated by a tab: the
/// current then the time when both columns are selected, or the one selected text.
pub proof fn copied_rows_are_tab_separated(texts: Seq<PointText>, r: GridRange, row: int)
    ensures
        r.min_col == 0 && r.max_col >= 1 ==> copied_line(texts, r, row) == texts[row].current_str@
            + "\t"@ + texts[row].time_str@,
        r.min_col == 0 && r.max_col == 0 ==> copied_line(texts, r, row) == texts[row].current_str@,
        r.min_col == 1 && r.max_col >= 1 ==> copied_line(texts, r, row) == texts[row].time_str@,
        r.min_col > r.max_col || r.min_col >= 2 ==> copied_line(texts, r, row) == Seq::<char>::empty(),
{
    let cs = cols_in(r);
    let parts = cs.map_values(|c: int| cell_text(texts[row], c));
    if r.min_col == 0 && r.max_col >= 1 {
        assert(parts.len() == 2);
        assert(parts.drop_last() =~= seq![texts[row].current_str@]);
        assert(parts.last() == texts[row].time_str@);
        assert(joined(parts.drop_last(), "\t"@) == texts[row].current_str@);
        assert(joined(parts, "\t"@) == joined(parts.drop_last(), "\t"@) + "\t"@ + parts.last());
    } else if r.min_col <= last_col(r) {
        assert(parts.len() == 1);
    } else {
        assert(parts.len() == 0);
    }
}

/// Removing rows never leaves the cursor outside the table: a cursor past the end goes to
/// the last remaining row, in its column.
pub proof fn cursor_after_removal_stays_in_table(a: GridCellPos, new_len: usize)
    requires
        new_len > 0,
        a.row >= new_len,
        a.col <= 1,
    ensures
        clamped(cell(new_len - 1, a.col as int)) == (GridCellPos { row: (new_len - 1) as usize, col: a.col }),
        in_table(clamped(cell(new_len - 1, a.col as int)), new_len),
{
}

/// What a selection is: the cursor on `active`, the anchor on `anchor`, nothing being
/// edited, and highlighted exactly the cells between them in both directions.
pub proof fn selection_highlights_between(g: SpreadsheetGrid, anchor: GridCellPos, active: GridCellPos, q: GridCellPos)
    requires
        g.selects(anchor, active),
    ensures
        g.active_cell == Some(active),
        g.anchor_cell == Some(anchor),
        !g.is_editing,
        g.selection_range is Some,
        g.selection_range->0.holds(q) <==> ((anchor.row <= q.row <= active.row || active.row <= q.row
            <= anchor.row) && (anchor.col <= q.col <= active.col || active.col <= q.col <= anchor.col)),
{
}

/// `select_cell` keeps a column in the table: the first column stays, any other becomes
/// the second.
pub proof fn clamping_keeps_column_in_table(p: GridCellPos)
    ensures
        clamped(p).row == p.row,
        p.col == 0 ==> clamped(p).col == 0,
        p.col >= 1 ==> clamped(p).col == 1,
{
}

/// A change to the number of rows of the table.
#[derive(Debug, Clone, Copy, PartialEq, Eq, Structural)]
pub enum RowChange {
    /// A row is appended below the last one.
    Append,
    /// The row at the index is deleted.
    Remove(usize),
    /// The table is cleared down to a single fresh row.
    Reset,
}

/// Whether a table of `n` rows allows the change: a row can be deleted only when it exists
/// and another row is left.
pub open spec fn row_change_allowed(change: RowChange, n: usize) -> bool {
    match change {
        RowChange::Remove(i) => n > 1 && i < n,
        _ => true,
    }
}

/// How many rows a table of `n` rows has after the change.
pub open spec fn rows_after(change: RowChange, n: usize) -> int {
    match change {
        RowChange::Append => n + 1,
        RowChange::Remove(_) => n - 1,
        RowChange::Reset => 1,
    }
}

/// Whether a table of `num_rows` rows allows the change; the delete control of a row is
/// offered only when it does.
pub fn allows_row_change(change: RowChange, num_rows: usize) -> (b: bool)
    ensures
        b == row_change_allowed(change, num_rows),
{
    match change {
        RowChange::Remove(i) => num_rows > 1 && i < num_rows,
        _ => true,
    }
}

/// Whether the table must get a first row before it is shown: it has none.
pub fn needs_first_row(num_rows: usize) -> (b: bool)
    ensures
        b == (num_rows == 0),
{
    num_rows == 0
}

/// The table never becomes empty: from a table with rows, every allowed change leaves at
/// least one row.
pub proof fn table_keeps_a_row(change: RowChange, n: usize)
    requires
        n > 0,
        row_change_allowed(change, n),
    ensures
        rows_after(change, n) >= 1,
{
}

/// What carrying out a move does to the grid: selecting a cell of the table puts the cursor
/// and the anchor on it and highlights it alone; stretching puts the cursor on the cell,
/// keeps the anchor (or anchors at the starting cell when there was none) and highlights the
/// rectangle between them; staying or asking for a row leaves the selection as it was.
pub proof fn moves_place_the_cursor(g: SpreadsheetGrid, g2: SpreadsheetGrid, m: GridMove, from: GridCellPos)
    requires
        SpreadsheetGrid::moved(g, g2, m, from),
    ensures
        m matches GridMove::Select(p) ==> (p.col <= 1 ==> {
            &&& g2.active_cell == Some(p)
            &&& g2.anchor_cell == Some(p)
            &&& g2.selection_range == Some(
                (GridRange { min_row: p.row, max_row: p.row, min_col: p.col, max_col: p.col }),
            )
            &&& !g2.is_editing
        }),
        m matches GridMove::Extend(p) ==> {
            let anchor = if g.anchor_cell is Some { g.anchor_cell->0 } else { from };
            &&& g2.active_cell == Some(p)
            &&& g2.anchor_cell == Some(anchor)
            &&& g2.selection_range is Some
            &&& g2.selection_range->0.holds(p)
            &&& g2.selection_range->0.holds(anchor)
            &&& forall|q: GridCellPos| #[trigger] g2.selection_range->0.holds(q) ==> (
                (anchor.row <= q.row <= p.row || p.row <= q.row <= anchor.row)
                && (anchor.col <= q.col <= p.col || p.col <= q.col <= anchor.col))
            &&& !g2.is_editing
        },
        m is Stay || m is AddRow ==> g2.active_cell == g.active_cell && g2.anchor_cell
            == g.anchor_cell && g2.selection_range == g.selection_range,
        g2.is_dragging == g.is_dragging,
{
}

/// Every change of selection leaves the selection rectangle spanned by the anchor and the
/// cursor, so the cursor and the anchor always lie in the highlighted rectangle.
pub proof fn selection_holds_cursor_and_anchor(g: SpreadsheetGrid)
    requires
        g.is_consistent(),
        g.active_cell is Some,
        g.anchor_cell is Some,
    ensures
        g.selection_range is Some,
        g.selection_range->0.holds(g.active_cell->0),
        g.selection_range->0.holds(g.anchor_cell->0),
{
}

/// Selecting all of a table of `n > 0` rows highlights every cell of the table.
pub proof fn select_all_holds_every_cell(n: usize, p: GridCellPos)
    requires
        n > 0,
        in_table(p, n),
    ensures
        GridRange::spanning(GridCellPos::origin(), cell(n - 1, 1)).holds(p),
{
}

/// Copying and clearing act on the same cells: the cells that clearing empties are exactly
/// those whose texts copying gathers, the rows and columns of the target range that exist.
pub proof fn copy_and_clear_agree(r: GridRange, n: usize, p: GridCellPos)
    ensures
        clipped_holds(r, n, p) <==> (rows_in(r, n).contains(p.row as int) && cols_in(
            r,
        ).contains(p.col as int)),
{
    if clipped_holds(r, n, p) {
        assert(rows_in(r, n)[p.row - r.min_row] == p.row);
        assert(cols_in(r)[p.col - r.min_col] == p.col);
    }
}

/// Every pasted value lands in a row from the start row up to the last pasted row, in one of
/// the table's two columns, inside the selection that the paste leaves.
pub proof fn pasted_cells_lie_in_selection(start: GridCellPos, widths: Seq<usize>, k: int)
    requires
        start.row + widths.len() <= usize::MAX,
        widths.len() > 0,
        0 <= k < paste_writes(start, widths).len(),
    ensures
        ({
            let w = paste_writes(start, widths)[k];
            &&& start.row <= w.row < start.row + widths.len()
            &&& w.col <= 1
            &&& w.row == start.row + w.source_row
            &&& w.col == start.col + w.source_index
            &&& w.source_row < widths.len()
            &&& w.source_index < widths[w.source_row as int]
            &&& GridRange::spanning(
                start,
                GridCellPos {
                    row: (start.row + widths.len() - 1) as usize,
                    col: paste_end_col(start, widths),
                },
            ).holds(GridCellPos { row: w.row, col: w.col })
        }),
    decreases widths.len(),
{
    let rest = widths.drop_last();
    let head = paste_writes(start, rest);
    let w = paste_writes(start, widths)[k];
    if k < head.len() {
        pasted_cells_lie_in_selection(start, rest, k);
        assert(rest[w.source_row as int] == widths[w.source_row as int]);
        if w.col == 1 && start.col == 0 {
            assert(widths[w.source_row as int] >= 2);
        }
    } else {
        let r = widths.len() - 1;
        assert(w == row_writes(start, r, widths.last() as int)[k - head.len()]);
        if w.col == 1 && start.col == 0 {
            assert(widths[r] >= 2);
        }
    }
}

} // verus!
