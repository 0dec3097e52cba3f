//! The mathematical model of a board and of one generation of Life, and the
//! laws that hold of it.

use vstd::prelude::*;
use crate::coords::{
    column_of, coords_at, lemma_coords_in_bounds, lemma_index_in_bounds, lemma_join_then_split,
    lemma_split_then_join, linear_index, row_of, Coords,
};

verus! {

/// The pixel written for a live cell: the brightest value.
pub const LIVE_PIXEL: u32 = 0xFFFF_FFFF;

/// The pixel written for a dead cell: the darkest value.
pub const DEAD_PIXEL: u32 = 0;

/// How many of the cells in `cells` are alive.
pub open spec fn count_live(cells: Seq<bool>) -> nat
    decreases cells.len(),
{
    if cells.len() == 0 {
        0
    } else {
        count_live(cells.drop_last()) + if cells.last() {
            1nat
        } else {
            0nat
        }
    }
}

/// Conway's rule: a live cell survives with two or three live neighbours, a
/// dead cell comes alive with exactly three, and every other cell is dead.
pub open spec fn next_state(alive: bool, live_neighbors: nat) -> bool {
    if alive {
        live_neighbors == 2 || live_neighbors == 3
    } else {
        live_neighbors == 3
    }
}

/// The pixel that stands for a cell.
pub open spec fn pixel_of(alive: bool) -> u32 {
    if alive {
        LIVE_PIXEL
    } else {
        DEAD_PIXEL
    }
}

/// A board as a mathematical value: its dimensions and its cells in
/// row-major order.
pub struct BoardView {
    pub width: nat,
    pub height: nat,
    pub cells: Seq<bool>,
}

impl BoardView {
    /// A board has at least one column and one row, and one cell for each
    /// position.
    pub open spec fn wf(self) -> bool {
        &&& self.width > 0
        &&& self.height > 0
        &&& self.cells.len() == self.width * self.height
    }

    /// The board of the given size on which every cell is dead.
    pub open spec fn blank(width: nat, height: nat) -> BoardView {
        BoardView { width, height, cells: Seq::new(width * height, |i: int| false) }
    }

    /// Whether `(x, y)` names a cell of the board.
    pub open spec fn contains(self, x: int, y: int) -> bool {
        0 <= x < self.width && 0 <= y < self.height
    }

    /// The cell in column `x` and row `y`.
    pub open spec fn cell(self, x: int, y: int) -> bool
        recommends
            self.contains(x, y),
    {
        self.cells[linear_index(x, y, self.width as int)]
    }

    /// The board with the cell in column `x` and row `y` replaced by `value`.
    pub open spec fn with_cell(self, x: int, y: int, value: bool) -> BoardView
        recommends
            self.contains(x, y),
    {
        BoardView {
            cells: self.cells.update(linear_index(x, y, self.width as int), value),
            ..self
        }
    }

    /// Whether `(x, y)` lies in the outermost ring of cells.
    pub open spec fn on_border(self, x: int, y: int) -> bool {
        x == 0 || y == 0 || x == self.width - 1 || y == self.height - 1
    }

    /// The eight cells around `(x, y)`: the row above from left to right, the
    /// left and the right neighbour, then the row below from left to right.
    /// A cell on the border is given eight dead neighbours, whatever lies
    /// beside it.
    pub open spec fn neighbors(self, x: int, y: int) -> Seq<bool>
        recommends
            self.contains(x, y),
    {
        if self.on_border(x, y) {
            Seq::new(8, |i: int| false)
        } else {
            seq![
                self.cell(x - 1, y + 1),
                self.cell(x, y + 1),
                self.cell(x + 1, y + 1),
                self.cell(x - 1, y),
                self.cell(x + 1, y),
                self.cell(x - 1, y - 1),
                self.cell(x, y - 1),
                self.cell(x + 1, y - 1),
            ]
        }
    }

    /// The number of live cells that `(x, y)` sees around it.
    pub open spec fn live_neighbors(self, x: int, y: int) -> nat {
        count_live(self.neighbors(x, y))
    }

    /// The state of `(x, y)` one generation later.
    pub open spec fn next_cell(self, x: int, y: int) -> bool {
        next_state(self.cell(x, y), self.live_neighbors(x, y))
    }

    /// The state one generation later of the cell stored at `index`.
    pub open spec fn next_at(self, index: int) -> bool {
        self.next_cell(column_of(index, self.width as int), row_of(index, self.width as int))
    }

    /// The board one generation later: every cell follows Conway's rule on
    /// the neighbours it sees in `self`.
    pub open spec fn step(self) -> BoardView {
        BoardView { cells: Seq::new(self.cells.len(), |i: int| self.next_at(i)), ..self }
    }

    /// Each cell with its coordinates, in row-major order.
    pub open spec fn entries(self) -> Seq<(Coords, bool)> {
        Seq::new(self.cells.len(), |i: int| (coords_at(i, self.width as int), self.cells[i]))
    }

    /// The picture of the board: one pixel for each cell, in row-major order.
    pub open spec fn pixels(self) -> Seq<u32> {
        Seq::new(self.cells.len(), |i: int| pixel_of(self.cells[i]))
    }

    /// What a pixel buffer holds after the board was drawn into it: the
    /// picture where the buffer has one pixel for each cell, else what it
    /// held before.
    pub open spec fn rendered(self, buffer: Seq<u32>) -> Seq<u32> {
        if buffer.len() == self.cells.len() {
            self.pixels()
        } else {
            buffer
        }
    }
}

/// A sequence without a live cell counts zero.
pub proof fn lemma_count_live_all_dead(cells: Seq<bool>)
    requires
        forall|i: int| 0 <= i < cells.len() ==> !cells[i],
    ensures
        count_live(cells) == 0,
    decreases cells.len(),
{
    if cells.len() > 0 {
        lemma_count_live_all_dead(cells.drop_last());
    }
}

/// The count of live cells never exceeds the number of cells.
pub proof fn lemma_count_live_bounded(cells: Seq<bool>)
    ensures
        count_live(cells) <= cells.len(),
    decreases cells.len(),
{
    if cells.len() > 0 {
        lemma_count_live_bounded(cells.drop_last());
    }
}

/// A cell sees eight cells around it, so at most eight live ones.
pub proof fn lemma_live_neighbors_bounded(board: BoardView, x: int, y: int)
    ensures
        board.neighbors(x, y).len() == 8,
        board.live_neighbors(x, y) <= 8,
{
    lemma_count_live_bounded(board.neighbors(x, y));
}

/// On a freshly made board every cell is dead.
pub proof fn lemma_blank_is_dead(width: nat, height: nat, x: int, y: int)
    requires
        BoardView::blank(width, height).contains(x, y),
    ensures
        BoardView::blank(width, height).wf(),
        !BoardView::blank(width, height).cell(x, y),
{
    lemma_index_in_bounds(x, y, width as int, height as int);
}

/// Reading the cells of a board in row-major order gives back, in order, the
/// values it was made from.
pub proof fn lemma_entries_round_trip(width: nat, height: nat, values: Seq<bool>)
    requires
        width > 0,
        height > 0,
        values.len() == width * height,
    ensures
        (BoardView { width, height, cells: values }).entries().len() == values.len(),
        (BoardView { width, height, cells: values }).entries().map_values(
            |entry: (Coords, bool)| entry.1,
        ) == values,
{
    let board = BoardView { width, height, cells: values };
    assert(board.entries().map_values(|entry: (Coords, bool)| entry.1) =~= values);
}

/// On a board whose cells can be counted by a machine integer, the entry at
/// each position carries the coordinates of a cell of the board, and that
/// cell is the one stored at the position.
pub proof fn lemma_entries_coordinates(board: BoardView, index: int)
    requires
        board.wf(),
        board.cells.len() <= usize::MAX,
        0 <= index < board.cells.len(),
    ensures
        ({
            let entry = board.entries()[index];
            &&& entry.0.0 == column_of(index, board.width as int)
            &&& entry.0.1 == row_of(index, board.width as int)
            &&& board.contains(entry.0.0 as int, entry.0.1 as int)
            &&& linear_index(entry.0.0 as int, entry.0.1 as int, board.width as int) == index
            &&& entry.1 == board.cell(entry.0.0 as int, entry.0.1 as int)
        }),
{
    lemma_coords_in_bounds(index, board.width as int, board.height as int);
    lemma_split_then_join(index, board.width as int);
}

/// A cell on the border sees eight dead neighbours and is dead one generation
/// later, whatever the board holds.
pub proof fn lemma_border_dies(board: BoardView, x: int, y: int)
    requires
        board.wf(),
        board.contains(x, y),
        board.on_border(x, y),
    ensures
        board.neighbors(x, y) == Seq::new(8, |i: int| false),
        board.live_neighbors(x, y) == 0,
        !board.next_cell(x, y),
        !board.step().cell(x, y),
{
    lemma_count_live_all_dead(board.neighbors(x, y));
    lemma_step_cell(board, x, y);
}

/// One generation later each cell holds what Conway's rule gives for it.
pub proof fn lemma_step_cell(board: BoardView, x: int, y: int)
    requires
        board.wf(),
        board.contains(x, y),
    ensures
        board.step().wf(),
        board.step().cell(x, y) == board.next_cell(x, y),
{
    lemma_index_in_bounds(x, y, board.width as int, board.height as int);
    lemma_join_then_split(x, y, board.width as int);
}

/// Drawing a board twice into the same buffer leaves what the first drawing
/// left.
pub proof fn lemma_render_idempotent(board: BoardView, buffer: Seq<u32>)
    ensures
        board.rendered(board.rendered(buffer)) == board.rendered(buffer),
{
}

} // verus!
