//! The character grid that mirrors the screen.

use vstd::prelude::*;

verus! {

/// Number of text rows on the screen.
pub const NUM_ROWS: usize = 4;

/// Number of characters in one row.
pub const NUM_COLUMNS: usize = 20;

/// The byte that an empty cell holds.
pub const BLANK: u8 = 0x20;

/// A row in which every cell is blank.
pub open spec fn blank_row() -> Seq<u8> {
    Seq::new(NUM_COLUMNS as nat, |j: int| BLANK)
}

/// A grid in which every cell is blank.
pub open spec fn blank_grid() -> Seq<Seq<u8>> {
    Seq::new(NUM_ROWS as nat, |r: int| blank_row())
}

/// `row` with `text` laid over it from column `col` on.  Cells left of
/// `col` and cells right of the text keep what they held; text that would
/// run past the end of the row is cut off.
pub open spec fn overlay(row: Seq<u8>, col: int, text: Seq<u8>) -> Seq<u8> {
    Seq::new(
        row.len(),
        |j: int|
            if col <= j < col + text.len() {
                text[j - col]
            } else {
                row[j]
            },
    )
}

/// A fixed grid of `NUM_ROWS` by `NUM_COLUMNS` bytes, composed in memory
/// and then written to the screen row by row.
pub struct DisplayBuffer {
    pub cells: [[u8; NUM_COLUMNS]; NUM_ROWS],
}

impl View for DisplayBuffer {
    type V = Seq<Seq<u8>>;

    open spec fn view(&self) -> Seq<Seq<u8>> {
        Seq::new(NUM_ROWS as nat, |r: int| self.cells[r]@)
    }
}

impl DisplayBuffer {
    /// A blank buffer.
    pub fn new() -> (b: DisplayBuffer)
        ensures
            b@ == blank_grid(),
    {
        let b = DisplayBuffer { cells: [[BLANK; NUM_COLUMNS]; NUM_ROWS] };
        assert(b@ =~~= blank_grid());
        b
    }

    /// Fills every cell with a blank.
    pub fn clear(&mut self)
        ensures
            final(self)@ == blank_grid(),
    {
        self.cells = [[BLANK; NUM_COLUMNS]; NUM_ROWS];
        assert(self@ =~~= blank_grid());
    }

    /// Copies `text` into row `row` starting at column `col`, as far as it
    /// fits; the rest of the text is dropped and all other cells stay as
    /// they are.
    pub fn set_text(&mut self, row: usize, col: usize, text: &[u8])
        requires
            row < NUM_ROWS,
            col <= NUM_COLUMNS,
        ensures
            final(self)@ == old(self)@.update(
                row as int,
                overlay(old(self)@[row as int], col as int, text@),
            ),
    {
        let room = NUM_COLUMNS - col;
        let count = if text.len() < room {
            text.len()
        } else {
            room
        };
        let mut i: usize = 0;
        while i < count
            invariant
                row < NUM_ROWS,
                col + count <= NUM_COLUMNS,
                count <= text@.len(),
                i <= count,
                forall|r: int|
                    0 <= r < NUM_ROWS && r != row ==> self.cells[r] == old(self).cells[r],
                forall|j: int|
                    0 <= j < NUM_COLUMNS ==> self.cells[row as int][j] == if col <= j < col + i {
                        text@[j - col]
                    } else {
                        old(self).cells[row as int][j]
                    },
            decreases count - i,
        {
            self.cells[row][col + i] = text[i];
            i += 1;
        }
        assert(self@ =~~= old(self)@.update(
            row as int,
            overlay(old(self)@[row as int], col as int, text@),
        ));
    }

    /// The bytes of row `row`, as they go to the screen.
    pub fn row(&self, row: usize) -> (r: &[u8; NUM_COLUMNS])
        requires
            row < NUM_ROWS,
        ensures
            r@ == self@[row as int],
    {
        &self.cells[row]
    }
}

/// Text never reaches past the end of a row.  The row keeps its length;
/// what stood before `col` stays, then comes as much of the beginning of
/// the text as fits, then what stood behind it.
pub proof fn lemma_overlay_fits(row: Seq<u8>, col: int, text: Seq<u8>)
    requires
        0 <= col <= row.len(),
    ensures
        overlay(row, col, text).len() == row.len(),
        text.len() <= row.len() - col ==> overlay(row, col, text) == row.take(col) + text
            + row.skip(col + text.len()),
        text.len() >= row.len() - col ==> overlay(row, col, text) == row.take(col) + text.take(
            row.len() - col,
        ),
{
    if text.len() <= row.len() - col {
        assert(overlay(row, col, text) =~= row.take(col) + text + row.skip(col + text.len()));
    }
    if text.len() >= row.len() - col {
        assert(overlay(row, col, text) =~= row.take(col) + text.take(row.len() - col));
    }
}

/// Writing text changes one row and nothing else: the grid keeps its
/// shape, and every other row stays as it was.
pub proof fn lemma_set_text_touches_one_row(grid: Seq<Seq<u8>>, row: int, col: int, text: Seq<u8>)
    requires
        0 <= row < grid.len(),
    ensures
        grid.update(row, overlay(grid[row], col, text)).len() == grid.len(),
        grid.update(row, overlay(grid[row], col, text))[row].len() == grid[row].len(),
        forall|r: int|
            0 <= r < grid.len() && r != row ==> grid.update(row, overlay(grid[row], col, text))[r]
                == grid[r],
{
}

} // verus!
