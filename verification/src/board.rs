//! The board: a dense rectangle of cells in row-major storage.

use vstd::prelude::*;
use crate::coords::{coords_at, lemma_index_in_bounds, Coords};
use crate::error::BoardError;
use crate::model::{lemma_blank_is_dead, BoardView};

verus! {

/// A rectangle of `width` by `height` cells, each alive or dead.
///
/// The dimensions are fixed when the board is made and are never zero; the
/// cell in column `x` and row `y` is stored at position `x + y * width`.
#[derive(Debug)]
pub struct Board {
    width: usize,
    height: usize,
    cells: Vec<bool>,
}

impl View for Board {
    type V = BoardView;

    closed spec fn view(&self) -> BoardView {
        BoardView { width: self.width as nat, height: self.height as nat, cells: self.cells@ }
    }
}

impl Clone for Board {
    fn clone(&self) -> (copy: Board)
        ensures
            copy@ == self@,
    {
        proof {
            use_type_invariant(self);
        }
        Board { width: self.width, height: self.height, cells: self.cells.clone() }
    }
}

impl Board {
    /// Every board is well formed and its cells can be counted by a machine
    /// integer, at every moment.
    #[verifier::type_invariant]
    pub open spec fn inv(&self) -> bool {
        self@.wf() && self@.cells.len() <= usize::MAX
    }

    /// A board of the given size on which every cell is dead. A width or a
    /// height of zero is refused.
    pub fn new(width: usize, height: usize) -> (result: Result<Board, BoardError>)
        requires
            width * height <= usize::MAX,
        ensures
            match result {
                Ok(board) => {
                    &&& width > 0
                    &&& height > 0
                    &&& board@ == BoardView::blank(width as nat, height as nat)
                    &&& forall|x: int, y: int| #[trigger]
                        board@.contains(x, y) ==> !board@.cell(x, y)
                },
                Err(error) => (width == 0 || height == 0) && error == BoardError::ZeroDimension,
            },
    {
        if width == 0 || height == 0 {
            return Err(BoardError::ZeroDimension);
        }
        let cells = vec![false; width * height];
        let board = Board { width, height, cells };
        proof {
            assert(board@.cells =~= BoardView::blank(width as nat, height as nat).cells);
            assert forall|x: int, y: int| #[trigger] board@.contains(x, y) implies !board@.cell(
                x,
                y,
            ) by {
                lemma_blank_is_dead(width as nat, height as nat, x, y);
            }
        }
        Ok(board)
    }

    /// A board of the given size that holds `cells`, read in row-major order.
    /// A sequence that does not hold exactly `width * height` cells is
    /// refused as a length mismatch, whatever the dimensions are; an empty
    /// sequence for a width or a height of zero is refused as a zero
    /// dimension.
    pub fn from_vec(width: usize, height: usize, cells: Vec<bool>) -> (result: Result<
        Board,
        BoardError,
    >)
        ensures
            result == Err::<Board, BoardError>(BoardError::LengthMismatch) <==> cells@.len()
                != width * height,
            result == Err::<Board, BoardError>(BoardError::ZeroDimension) <==> cells@.len()
                == width * height && (width == 0 || height == 0),
            match result {
                Ok(board) => {
                    &&& width > 0
                    &&& height > 0
                    &&& cells@.len() == width * height
                    &&& board@ == (BoardView {
                        width: width as nat,
                        height: height as nat,
                        cells: cells@,
                    })
                },
                Err(error) => if cells@.len() != width * height {
                    error == BoardError::LengthMismatch
                } else {
                    (width == 0 || height == 0) && error == BoardError::ZeroDimension
                },
            },
    {
        let given = cells.len();
        match width.checked_mul(height) {
            Some(count) => {
                if given != count {
                    Err(BoardError::LengthMismatch)
                } else if width == 0 || height == 0 {
                    Err(BoardError::ZeroDimension)
                } else {
                    Ok(Board { width, height, cells })
                }
            },
            None => Err(BoardError::LengthMismatch),
        }
    }

    /// The number of columns.
    pub fn width(&self) -> (width: usize)
        ensures
            width == self@.width,
            width > 0,
    {
        proof {
            use_type_invariant(self);
        }
        self.width
    }

    /// The number of rows.
    pub fn height(&self) -> (height: usize)
        ensures
            height == self@.height,
            height > 0,
    {
        proof {
            use_type_invariant(self);
        }
        self.height
    }

    /// The state of the cell at `coords`, or `OutOfRange` where the board has
    /// no such cell.
    pub fn get(&self, coords: Coords) -> (result: Result<bool, BoardError>)
        ensures
            match result {
                Ok(alive) => {
                    &&& self@.contains(coords.0 as int, coords.1 as int)
                    &&& alive == self@.cell(coords.0 as int, coords.1 as int)
                },
                Err(error) => {
                    &&& !self@.contains(coords.0 as int, coords.1 as int)
                    &&& error == BoardError::OutOfRange
                },
            },
    {
        proof {
            use_type_invariant(self);
        }
        if coords.0 >= self.width || coords.1 >= self.height {
            return Err(BoardError::OutOfRange);
        }
        Ok(self.cell(coords.0, coords.1))
    }

    /// Sets the cell at `coords` to `value` and leaves every other cell as it
    /// was; where the board has no such cell, nothing changes and
    /// `OutOfRange` is returned.
    pub fn set(&mut self, coords: Coords, value: bool) -> (result: Result<(), BoardError>)
        ensures
            match result {
                Ok(_) => {
                    &&& old(self)@.contains(coords.0 as int, coords.1 as int)
                    &&& final(self)@ == old(self)@.with_cell(
                        coords.0 as int,
                        coords.1 as int,
                        value,
                    )
                },
                Err(error) => {
                    &&& !old(self)@.contains(coords.0 as int, coords.1 as int)
                    &&& error == BoardError::OutOfRange
                    &&& final(self)@ == old(self)@
                },
            },
    {
        proof {
            use_type_invariant(&*self);
        }
        if coords.0 >= self.width || coords.1 >= self.height {
            return Err(BoardError::OutOfRange);
        }
        proof {
            lemma_index_in_bounds(
                coords.0 as int,
                coords.1 as int,
                self.width as int,
                self.height as int,
            );
            assert(self.cells.len() == self.cells@.len());
        }
        let index = coords.as_index(self.width);
        self.cells[index] = value;
        Ok(())
    }

    /// The cell in column `x` and row `y` of a board that has it.
    fn cell(&self, x: usize, y: usize) -> (alive: bool)
        requires
            self@.contains(x as int, y as int),
        ensures
            alive == self@.cell(x as int, y as int),
    {
        proof {
            use_type_invariant(self);
            lemma_index_in_bounds(x as int, y as int, self.width as int, self.height as int);
            assert(self.cells.len() == self.cells@.len());
        }
        self.cells[Coords(x, y).as_index(self.width)]
    }

    /// The eight cells around `coords`: the row above from left to right, the
    /// left and the right neighbour, then the row below from left to right.
    /// A cell on the border is given eight dead neighbours, whatever lies
    /// beside it.
    pub fn neighbors(&self, coords: Coords) -> (around: [bool; 8])
        requires
            self@.contains(coords.0 as int, coords.1 as int),
        ensures
            around@ == self@.neighbors(coords.0 as int, coords.1 as int),
    {
        proof {
            use_type_invariant(self);
        }
        let x = coords.0;
        let y = coords.1;
        if x == 0 || y == 0 || x == self.width - 1 || y == self.height - 1 {
            let around = [false, false, false, false, false, false, false, false];
            assert(around@ =~= self@.neighbors(x as int, y as int));
            return around;
        }
        let around = [
            self.cell(x - 1, y + 1),
            self.cell(x, y + 1),
            self.cell(x + 1, y + 1),
            self.cell(x - 1, y),
            self.cell(x + 1, y),
            self.cell(x - 1, y - 1),
            self.cell(x, y - 1),
            self.cell(x + 1, y - 1),
        ];
        assert(around@ =~= self@.neighbors(x as int, y as int));
        around
    }

    /// Each cell with its coordinates, in row-major order.
    pub fn iter_cells(&self) -> (entries: Vec<(Coords, bool)>)
        ensures
            entries@ == self@.entries(),
            entries@.len() == self@.cells.len(),
            forall|i: int|
                0 <= i < entries@.len() ==> {
                    &&& (#[trigger] entries@[i]).0 == coords_at(i, self@.width as int)
                    &&& entries@[i].1 == self@.cells[i]
                },
    {
        proof {
            use_type_invariant(self);
        }
        let count = self.cells.len();
        let mut entries: Vec<(Coords, bool)> = Vec::with_capacity(count);
        let mut index: usize = 0;
        while index < count
            invariant
                self@.wf(),
                count == self.cells@.len(),
                index <= count,
                entries@.len() == index,
                forall|i: int| 0 <= i < index ==> entries@[i] == self@.entries()[i],
            decreases count - index,
        {
            entries.push((Coords::from_index(index, self.width), self.cells[index]));
            index += 1;
        }
        assert(entries@ =~= self@.entries());
        entries
    }

    /// Replaces each cell, in row-major order, by what `update` returns for
    /// its coordinates and its state. The dimensions stay as they are.
    pub fn iter_cells_mut<F: Fn(Coords, bool) -> bool>(&mut self, update: F)
        requires
            forall|i: int|
                0 <= i < old(self)@.cells.len() ==> call_requires(
                    update,
                    #[trigger] old(self)@.entries()[i],
                ),
        ensures
            final(self)@.width == old(self)@.width,
            final(self)@.height == old(self)@.height,
            final(self)@.cells.len() == old(self)@.cells.len(),
            forall|i: int|
                0 <= i < old(self)@.cells.len() ==> call_ensures(
                    update,
                    #[trigger] old(self)@.entries()[i],
                    final(self)@.cells[i],
                ),
    {
        proof {
            use_type_invariant(&*self);
        }
        let count = self.cells.len();
        let width = self.width;
        let mut index: usize = 0;
        while index < count
            invariant
                self.width == width,
                self.width == old(self).width,
                self.height == old(self).height,
                self@.wf(),
                count == self.cells@.len(),
                count == old(self)@.cells.len(),
                index <= count,
                forall|i: int| index <= i < count ==> self.cells@[i] == old(self).cells@[i],
                forall|i: int|
                    0 <= i < index ==> call_ensures(
                        update,
                        #[trigger] old(self)@.entries()[i],
                        self.cells@[i],
                    ),
                forall|i: int|
                    0 <= i < count ==> call_requires(update, #[trigger] old(self)@.entries()[i]),
            decreases count - index,
        {
            let coords = Coords::from_index(index, width);
            let alive = self.cells[index];
            assert(old(self)@.entries()[index as int] == (coords, alive));
            let value = update(coords, alive);
            self.cells[index] = value;
            index += 1;
        }
    }
}

} // verus!
