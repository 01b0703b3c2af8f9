use crate::brightness::threshold_for;
use crate::panel::{Cell, Hub75View};
use vstd::prelude::*;

verus! {

/// The logical lines of a HUB75 connector.
#[derive(Clone, Copy, Debug, PartialEq, Eq, Structural)]
pub enum Line {
    /// Red data of the top half.
    R1,
    /// Green data of the top half.
    G1,
    /// Blue data of the top half.
    B1,
    /// Red data of the bottom half.
    R2,
    /// Green data of the bottom half.
    G2,
    /// Blue data of the bottom half.
    B2,
    /// Row address, bit 0.
    A,
    /// Row address, bit 1.
    B,
    /// Row address, bit 2.
    C,
    /// Row address, bit 3.
    D,
    /// Row address, bit 4. Only 64 x 64 panels have it.
    F,
    /// Shift clock.
    Clk,
    /// Latch.
    Lat,
    /// Output enable. The panel is blanked while it is high.
    Oe,
}

/// One thing to do on the way through a refresh.
#[derive(Clone, Copy, Debug, PartialEq, Eq, Structural)]
pub enum Action {
    /// Drive `line` high or low.
    Drive { line: Line, high: bool },
    /// Block for `micros` microseconds.
    Wait { micros: u8 },
}

/// The settling time around the latch pulse and before unblanking, in
/// microseconds.
pub const SETTLE_MICROS: u8 = 2;

/// The number of actions that shift one column in: six data lines, then the
/// clock up and down.
pub const COLUMN_ACTIONS: usize = 8;

/// Bit `bit` of the row address `row`.
pub open spec fn address_bit(row: int, bit: nat) -> bool {
    (row / vstd::arithmetic::power2::pow2(bit) as int) % 2 == 1
}

/// Shifting one column in: each of the six data lines is driven high exactly
/// if the stored level has reached the threshold, then the clock is pulsed
/// once.
pub open spec fn column_signals(cell: Cell, threshold: int) -> Seq<Action> {
    seq![
        Action::Drive { line: Line::R1, high: cell.r1 >= threshold },
        Action::Drive { line: Line::G1, high: cell.g1 >= threshold },
        Action::Drive { line: Line::B1, high: cell.b1 >= threshold },
        Action::Drive { line: Line::R2, high: cell.r2 >= threshold },
        Action::Drive { line: Line::G2, high: cell.g2 >= threshold },
        Action::Drive { line: Line::B2, high: cell.b2 >= threshold },
        Action::Drive { line: Line::Clk, high: true },
        Action::Drive { line: Line::Clk, high: false },
    ]
}

/// Shifting the first `columns` cells of a row in, in ascending order.
pub open spec fn shift_signals(cells: Seq<Cell>, threshold: int, columns: nat) -> Seq<Action>
    decreases columns,
{
    if columns == 0 {
        Seq::empty()
    } else {
        shift_signals(cells, threshold, (columns - 1) as nat) + column_signals(
            cells[columns - 1],
            threshold,
        )
    }
}

/// Selecting the row address `row`: bit 0 goes to line A, bit 1 to B, bit 2
/// to C, bit 3 to D and, where the panel has it, bit 4 to F.
pub open spec fn address_signals(row: int, five_lines: bool) -> Seq<Action> {
    let four = seq![
        Action::Drive { line: Line::A, high: address_bit(row, 0) },
        Action::Drive { line: Line::B, high: address_bit(row, 1) },
        Action::Drive { line: Line::C, high: address_bit(row, 2) },
        Action::Drive { line: Line::D, high: address_bit(row, 3) },
    ];
    if five_lines {
        four.push(Action::Drive { line: Line::F, high: address_bit(row, 4) })
    } else {
        four
    }
}

/// Showing a row that was shifted in: blank the panel, pulse the latch low
/// and high again with the settling time before and after the falling edge,
/// select the row, wait once more and unblank.
pub open spec fn latch_signals(row: int, five_lines: bool) -> Seq<Action> {
    seq![
        Action::Drive { line: Line::Oe, high: true },
        Action::Wait { micros: SETTLE_MICROS },
        Action::Drive { line: Line::Lat, high: false },
        Action::Wait { micros: SETTLE_MICROS },
        Action::Drive { line: Line::Lat, high: true },
    ] + address_signals(row, five_lines) + seq![
        Action::Wait { micros: SETTLE_MICROS },
        Action::Drive { line: Line::Oe, high: false },
    ]
}

/// One row of one sub-frame: all its columns are shifted in, then it is
/// latched and shown.
pub open spec fn row_signals(cells: Seq<Cell>, threshold: int, row: int, five_lines: bool) -> Seq<
    Action,
> {
    shift_signals(cells, threshold, cells.len()) + latch_signals(row, five_lines)
}

/// The rows from `from` on of one sub-frame, in ascending order.
pub open spec fn rows_signals(
    grid: Seq<Seq<Cell>>,
    threshold: int,
    five_lines: bool,
    from: int,
) -> Seq<Action>
    decreases grid.len() - from,
{
    if from < 0 || from >= grid.len() {
        Seq::empty()
    } else {
        row_signals(grid[from], threshold, from, five_lines) + rows_signals(
            grid,
            threshold,
            five_lines,
            from + 1,
        )
    }
}

/// The sub-frames from `from` on of a refresh with `count` sub-frames. Each
/// is a pass over every row at the threshold of that sub-frame.
pub open spec fn subframes_signals(
    grid: Seq<Seq<Cell>>,
    five_lines: bool,
    step: int,
    count: int,
    from: int,
) -> Seq<Action>
    decreases count - from,
{
    if from < 0 || from >= count {
        Seq::empty()
    } else {
        rows_signals(grid, threshold_for(from, step), five_lines, 0) + subframes_signals(
            grid,
            five_lines,
            step,
            count,
            from + 1,
        )
    }
}

/// A whole refresh: unblank, run every sub-frame, and blank again at the
/// end, so that the row shown last is not lit longer than the others.
pub open spec fn refresh_signals(
    grid: Seq<Seq<Cell>>,
    five_lines: bool,
    step: int,
    count: int,
) -> Seq<Action> {
    seq![Action::Drive { line: Line::Oe, high: false }] + subframes_signals(
        grid,
        five_lines,
        step,
        count,
        0,
    ) + seq![Action::Drive { line: Line::Oe, high: true }]
}

impl Hub75View {
    /// Everything one refresh of this state does, in order.
    pub open spec fn signals(self) -> Seq<Action> {
        refresh_signals(
            self.grid,
            self.size.spec_five_address_lines(),
            self.brightness_step(),
            self.brightness_count(),
        )
    }

    /// The number of actions of one row: 64 columns of eight, and eleven or
    /// twelve to latch and show it.
    pub open spec fn row_actions(self) -> int {
        if self.size.spec_five_address_lines() {
            524
        } else {
            523
        }
    }

    /// The place in a refresh of action `slot` of the row `row` in the
    /// sub-frame `subframe`, all counted from zero: one action unblanks the
    /// panel, then the rows follow one another, sub-frame by sub-frame.
    pub open spec fn position(self, subframe: int, row: int, slot: int) -> int {
        1 + (subframe * self.size.spec_rows_per_half() + row) * self.row_actions() + slot
    }
}

} // verus!
