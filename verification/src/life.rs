//! The simulation: a board that moves from one generation to the next and
//! can be drawn into a pixel buffer.

use vstd::prelude::*;
use crate::board::Board;
use crate::coords::Coords;
use crate::error::BoardError;
use crate::model::{
    count_live, lemma_entries_coordinates, next_state, pixel_of, BoardView, DEAD_PIXEL, LIVE_PIXEL,
};

verus! {

/// How many of the eight cells are alive.
pub fn count_alive(cells: &[bool; 8]) -> (count: usize)
    ensures
        count == count_live(cells@),
{
    let mut count: usize = 0;
    let mut index: usize = 0;
    while index < 8
        invariant
            index <= 8,
            count <= index,
            count == count_live(cells@.take(index as int)),
        decreases 8 - index,
    {
        assert(cells@.take(index + 1).drop_last() =~= cells@.take(index as int));
        if cells[index] {
            count += 1;
        }
        index += 1;
    }
    assert(cells@.take(8) =~= cells@);
    count
}

/// Conway's rule for one cell that is `alive` or not and sees
/// `live_neighbors` live cells around it.
pub fn apply_rule(alive: bool, live_neighbors: usize) -> (next: bool)
    ensures
        next == next_state(alive, live_neighbors as nat),
{
    if alive {
        live_neighbors == 2 || live_neighbors == 3
    } else {
        live_neighbors == 3
    }
}

/// A simulation of Life: the board of the current generation.
#[derive(Debug)]
pub struct Life {
    pub board: Board,
}

impl Life {
    /// A simulation on a board of the given size on which every cell is
    /// dead. A width or a height of zero is refused.
    pub fn new(width: usize, height: usize) -> (result: Result<Life, BoardError>)
        requires
            width * height <= usize::MAX,
        ensures
            match result {
                Ok(life) => {
                    &&& width > 0
                    &&& height > 0
                    &&& life.board@ == BoardView::blank(width as nat, height as nat)
                },
                Err(error) => (width == 0 || height == 0) && error == BoardError::ZeroDimension,
            },
    {
        match Board::new(width, height) {
            Ok(board) => Ok(Life { board }),
            Err(error) => Err(error),
        }
    }

    /// Moves the board on by one generation. Every cell follows Conway's rule
    /// on the neighbours it had before the call; the dimensions stay.
    pub fn iterate(&mut self)
        ensures
            final(self).board@ == old(self).board@.step(),
    {
        let previous = self.board.clone();
        proof {
            use_type_invariant(&previous);
        }
        let update = |coords: Coords, alive: bool| -> (next: bool)
            requires
                previous@.contains(coords.0 as int, coords.1 as int),
            ensures
                next == next_state(
                    alive,
                    previous@.live_neighbors(coords.0 as int, coords.1 as int),
                ),
            {
                let around = previous.neighbors(coords);
                apply_rule(alive, count_alive(&around))
            };
        assert forall|i: int| 0 <= i < previous@.cells.len() implies call_requires(
            update,
            #[trigger] previous@.entries()[i],
        ) by {
            lemma_entries_coordinates(previous@, i);
        }
        self.board.iter_cells_mut(update);
        proof {
            assert forall|i: int| 0 <= i < previous@.cells.len() implies self.board@.cells[i]
                == previous@.next_at(i) by {
                lemma_entries_coordinates(previous@, i);
                assert(call_ensures(update, previous@.entries()[i], self.board@.cells[i]));
            }
            assert(self.board@.cells =~= previous@.step().cells);
        }
    }

    /// Draws the board into `pixbuf`, one pixel for each cell in row-major
    /// order: the brightest value for a live cell, zero for a dead one. A
    /// buffer that does not hold exactly one pixel for each cell is refused
    /// and left as it was.
    pub fn render(&self, pixbuf: &mut Vec<u32>) -> (result: Result<(), BoardError>)
        ensures
            final(pixbuf)@ == self.board@.rendered(old(pixbuf)@),
            match result {
                Ok(_) => old(pixbuf)@.len() == self.board@.cells.len(),
                Err(error) => {
                    &&& old(pixbuf)@.len() != self.board@.cells.len()
                    &&& error == BoardError::LengthMismatch
                },
            },
    {
        let entries = self.board.iter_cells();
        let count = entries.len();
        if pixbuf.len() != count {
            return Err(BoardError::LengthMismatch);
        }
        let mut index: usize = 0;
        while index < count
            invariant
                count == entries@.len(),
                entries@ == self.board@.entries(),
                pixbuf@.len() == count,
                index <= count,
                forall|i: int| 0 <= i < index ==> pixbuf@[i] == pixel_of(self.board@.cells[i]),
            decreases count - index,
        {
            let pixel = if entries[index].1 {
                LIVE_PIXEL
            } else {
                DEAD_PIXEL
            };
            pixbuf.set(index, pixel);
            index += 1;
        }
        assert(pixbuf@ =~= self.board@.pixels());
        Ok(())
    }
}

} // verus!
