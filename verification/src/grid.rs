use crate::gamma::lemma_corrected_is_corrected;
use crate::panel::{all_cells_corrected, Cell, PanelSize, COLUMNS};
use vstd::prelude::*;

verus! {

/// The cells of a panel, one row address after the other, 64 cells each.
pub(crate) struct Grid {
    cells: Vec<Cell>,
    size: PanelSize,
}

/// Replaces the cell at `index`.
fn replace_cell(cells: &mut Vec<Cell>, index: usize, cell: Cell)
    requires
        index < old(cells)@.len(),
    ensures
        final(cells)@ == old(cells)@.update(index as int, cell),
    no_unwind
{
    cells[index] = cell;
}

impl Grid {
    /// There is one cell for every column of every row address, and every
    /// level is a corrected level.
    #[verifier::type_invariant]
    spec fn well_formed(self) -> bool {
        &&& self.cells@.len() == self.size.spec_rows_per_half() * COLUMNS
        &&& forall|k: int| 0 <= k < self.cells@.len() ==> (#[trigger] self.cells@[k]).is_corrected()
    }

    /// The panel that the cells belong to.
    pub(crate) closed spec fn size(self) -> PanelSize {
        self.size
    }

    /// The cells as rows of 64, one row per row address.
    pub(crate) closed spec fn view(self) -> Seq<Seq<Cell>> {
        Seq::new(
            self.size.spec_rows_per_half() as nat,
            |r: int| Seq::new(COLUMNS as nat, |c: int| self.cells@[r * COLUMNS + c]),
        )
    }

    /// Allocates the cells of a panel, all dark.
    pub(crate) fn new(size: PanelSize) -> (grid: Self)
        ensures
            grid.size() == size,
            grid@ == Seq::new(
                size.spec_rows_per_half() as nat,
                |r: int| Seq::new(COLUMNS as nat, |c: int| Cell::dark()),
            ),
    {
        let total: usize = size.rows_per_half() * COLUMNS;
        let mut cells: Vec<Cell> = Vec::new();
        let mut filled: usize = 0;
        while filled < total
            invariant
                filled <= total,
                cells@.len() == filled,
                forall|k: int| 0 <= k < filled ==> cells@[k] == Cell::dark(),
            decreases total - filled,
        {
            cells.push(Cell { r1: 0, g1: 0, b1: 0, r2: 0, g2: 0, b2: 0 });
            filled += 1;
        }
        proof {
            lemma_corrected_is_corrected(0);
        }
        let grid = Grid { cells, size };
        assert(grid@ =~~= Seq::new(
            size.spec_rows_per_half() as nat,
            |r: int| Seq::new(COLUMNS as nat, |c: int| Cell::dark()),
        ));
        grid
    }

    /// The panel that the cells belong to. Its result comes with what always
    /// holds of the cells.
    pub(crate) fn panel_size(&self) -> (size: PanelSize)
        ensures
            size == self.size(),
            self@.len() == size.spec_rows_per_half(),
            forall|r: int| 0 <= r < self@.len() ==> (#[trigger] self@[r]).len() == COLUMNS,
            all_cells_corrected(self@),
    {
        proof {
            use_type_invariant(self);
            reveal(all_cells_corrected);
            assert forall|r: int, c: int|
                0 <= r < self@.len() && 0 <= c < self@[r].len() implies (
            #[trigger] self@[r][c]).is_corrected() by {
                assert(self@[r][c] == self.cells@[r * COLUMNS + c]);
            }
        }
        self.size
    }

    /// Reads one cell.
    pub(crate) fn get(&self, row: usize, column: usize) -> (cell: Cell)
        requires
            row < self.size().spec_rows_per_half(),
            column < COLUMNS,
        ensures
            cell == self@[row as int][column as int],
    {
        proof {
            use_type_invariant(self);
        }
        self.cells[row * COLUMNS + column]
    }

    /// Replaces one cell.
    pub(crate) fn put(&mut self, row: usize, column: usize, cell: Cell)
        requires
            row < old(self).size().spec_rows_per_half(),
            column < COLUMNS,
            cell.is_corrected(),
        ensures
            final(self).size() == old(self).size(),
            final(self)@ == old(self)@.update(
                row as int,
                old(self)@[row as int].update(column as int, cell),
            ),
    {
        proof {
            use_type_invariant(&*self);
        }
        replace_cell(&mut self.cells, row * COLUMNS + column, cell);
        assert(self@ =~~= old(self)@.update(
            row as int,
            old(self)@[row as int].update(column as int, cell),
        ));
    }

    /// Sets every cell dark.
    pub(crate) fn clear(&mut self)
        ensures
            final(self).size() == old(self).size(),
            final(self)@ == Seq::new(
                old(self).size().spec_rows_per_half() as nat,
                |r: int| Seq::new(COLUMNS as nat, |c: int| Cell::dark()),
            ),
    {
        proof {
            use_type_invariant(&*self);
        }
        let total: usize = self.cells.len();
        let mut done: usize = 0;
        proof {
            lemma_corrected_is_corrected(0);
        }
        while done < total
            invariant
                done <= total,
                self.size == old(self).size,
                self.cells@.len() == total,
                total == self.size.spec_rows_per_half() * COLUMNS,
                forall|k: int| 0 <= k < done ==> self.cells@[k] == Cell::dark(),
                forall|k: int| 0 <= k < total ==> (#[trigger] self.cells@[k]).is_corrected(),
                Cell::dark().is_corrected(),
            decreases total - done,
        {
            replace_cell(&mut self.cells, done, Cell { r1: 0, g1: 0, b1: 0, r2: 0, g2: 0, b2: 0 });
            done += 1;
        }
        assert(self@ =~~= Seq::new(
            old(self).size().spec_rows_per_half() as nat,
            |r: int| Seq::new(COLUMNS as nat, |c: int| Cell::dark()),
        ));
    }
}

} // verus!
