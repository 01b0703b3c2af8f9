use crate::brightness::{lemma_brightness_levels, threshold_for};
use crate::panel::{Cell, Hub75View, COLUMNS};
use crate::signal::{
    address_signals, column_signals, latch_signals, row_signals, rows_signals, shift_signals,
    subframes_signals, Action, Line, COLUMN_ACTIONS, SETTLE_MICROS,
};
use vstd::arithmetic::div_mod::{
    lemma_div_denominator, lemma_div_pos_is_pos, lemma_fundamental_div_mod, lemma_mod_pos_bound,
    lemma_multiply_divide_lt,
};
use vstd::prelude::*;

verus! {

/// The actions that shift `columns` cells in are eight per cell, and action
/// `k` of cell `c` stands at `8 * c + k`.
pub proof fn lemma_shift_signals(cells: Seq<Cell>, threshold: int, columns: nat)
    requires
        columns <= cells.len(),
    ensures
        shift_signals(cells, threshold, columns).len() == COLUMN_ACTIONS * columns,
        forall|c: int, k: int|
            0 <= c < columns && 0 <= k < COLUMN_ACTIONS ==> shift_signals(
                cells,
                threshold,
                columns,
            )[COLUMN_ACTIONS * c + k] == #[trigger] column_signals(cells[c], threshold)[k],
    decreases columns,
{
    if columns > 0 {
        let before = (columns - 1) as nat;
        lemma_shift_signals(cells, threshold, before);
        let head = shift_signals(cells, threshold, before);
        let tail = column_signals(cells[columns - 1], threshold);
        let all = head + tail;
        assert(tail.len() == COLUMN_ACTIONS);
        assert(shift_signals(cells, threshold, columns) == all);
        assert forall|c: int, k: int|
            0 <= c < columns && 0 <= k < COLUMN_ACTIONS implies all[COLUMN_ACTIONS * c + k]
            == #[trigger] column_signals(cells[c], threshold)[k] by {
            if c < before {
                assert(all[COLUMN_ACTIONS * c + k] == head[COLUMN_ACTIONS * c + k]);
            } else {
                assert(all[COLUMN_ACTIONS * c + k] == tail[k]);
            }
        }
    }
}

/// Latching and showing a row takes eleven actions, and twelve where the
/// panel has the fifth address line.
pub proof fn lemma_latch_signals_len(row: int, five_lines: bool)
    ensures
        latch_signals(row, five_lines).len() == if five_lines {
            12int
        } else {
            11int
        },
{
}

/// Within the actions of one row, every column is clocked in once, after its
/// data lines are set: the clock rises at slot `8 * column + 6` and falls at
/// the next. The panel is blanked once, when all columns are in; the latch is
/// pulsed once, while the panel is blanked; and the panel is unblanked once,
/// by the last action of the row, after the latch pulse and the row select.
pub proof fn lemma_row_order(cells: Seq<Cell>, level: int, row: int, five_lines: bool, slot: int)
    requires
        cells.len() == COLUMNS,
        0 <= slot < row_signals(cells, level, row, five_lines).len(),
    ensures
        row_signals(cells, level, row, five_lines).len() == if five_lines {
            524int
        } else {
            523int
        },
        row_signals(cells, level, row, five_lines)[slot] == (Action::Drive {
            line: Line::Clk,
            high: true,
        }) <==> slot < 512 && slot % 8 == 6,
        row_signals(cells, level, row, five_lines)[slot] == (Action::Drive {
            line: Line::Clk,
            high: false,
        }) <==> slot < 512 && slot % 8 == 7,
        row_signals(cells, level, row, five_lines)[slot] == (Action::Drive {
            line: Line::Oe,
            high: true,
        }) <==> slot == 512,
        row_signals(cells, level, row, five_lines)[slot] == (Action::Drive {
            line: Line::Lat,
            high: false,
        }) <==> slot == 514,
        row_signals(cells, level, row, five_lines)[slot] == (Action::Drive {
            line: Line::Lat,
            high: true,
        }) <==> slot == 516,
        row_signals(cells, level, row, five_lines)[slot] == (Action::Drive {
            line: Line::Oe,
            high: false,
        }) <==> slot == row_signals(cells, level, row, five_lines).len() - 1,
{
    let all = row_signals(cells, level, row, five_lines);
    let shift = shift_signals(cells, level, COLUMNS as nat);
    let latch = latch_signals(row, five_lines);
    lemma_shift_signals(cells, level, COLUMNS as nat);
    lemma_latch_signals_len(row, five_lines);
    assert(all == shift + latch);
    assert(shift.len() == 512);
    if slot < 512 {
        let column = slot / 8;
        let index = slot % 8;
        assert(slot == COLUMN_ACTIONS * column + index);
        assert(shift[COLUMN_ACTIONS * column + index] == column_signals(
            cells[column],
            level,
        )[index]);
        assert(all[slot] == shift[slot]);
        lemma_column_lines(cells[column], level, index);
    } else {
        assert(all[slot] == latch[slot - 512]);
        lemma_latch_lines(row, five_lines, slot - 512);
    }
}

/// A refresh begins by unblanking the panel and ends by blanking it, and in
/// between takes the same number of actions for every row of every
/// sub-frame.
pub proof fn lemma_signals_len(view: Hub75View)
    requires
        view.wf(),
    ensures
        view.signals().len() == 2 + view.brightness_count() * view.size.spec_rows_per_half()
            * view.row_actions(),
        view.signals().first() == (Action::Drive { line: Line::Oe, high: false }),
        view.signals().last() == (Action::Drive { line: Line::Oe, high: true }),
{
    lemma_signals_layout(view);
}

/// Action `slot` of the row `row` in the sub-frame `subframe` stands at
/// [`Hub75View::position`] in the refresh: the rows are scanned in ascending
/// order within a sub-frame, and every sub-frame scans them all at its own
/// threshold.
pub proof fn lemma_signal_at(view: Hub75View, subframe: int, row: int, slot: int)
    requires
        view.wf(),
        0 <= subframe < view.brightness_count(),
        0 <= row < view.size.spec_rows_per_half(),
        0 <= slot < view.row_actions(),
    ensures
        0 < view.position(subframe, row, slot) < view.signals().len() - 1,
        view.signals()[view.position(subframe, row, slot)] == row_signals(
            view.grid[row],
            threshold_for(subframe, view.brightness_step()),
            row,
            view.size.spec_five_address_lines(),
        )[slot],
{
    lemma_signals_layout(view);
    let rows = view.size.spec_rows_per_half() as int;
    let len = view.row_actions();
    let inner = (subframe * rows + row) * len + slot;
    assert(0 <= inner < view.brightness_count() * rows * len) by (nonlinear_arith)
        requires
            inner == (subframe * rows + row) * len + slot,
            0 <= subframe < view.brightness_count(),
            0 <= row < rows,
            0 <= slot < len,
    ;
    assert(inner == subframe * (rows * len) + (row * len + slot)) by (nonlinear_arith)
        requires
            inner == (subframe * rows + row) * len + slot,
    ;
}

/// Every action of a refresh but the first and the last belongs to one row
/// of one sub-frame: counted without the first action, the place divided by
/// the length of a row tells the row among all rows scanned, and the
/// remainder tells the slot.
pub proof fn lemma_position_covers(view: Hub75View, index: int)
    requires
        view.wf(),
        0 < index < view.signals().len() - 1,
    ensures
        ({
            let rows = view.size.spec_rows_per_half() as int;
            let subframe = (index - 1) / (rows * view.row_actions());
            let row = ((index - 1) / view.row_actions()) % rows;
            let slot = (index - 1) % view.row_actions();
            &&& 0 <= subframe < view.brightness_count()
            &&& 0 <= row < rows
            &&& 0 <= slot < view.row_actions()
            &&& view.position(subframe, row, slot) == index
        }),
{
    lemma_signals_len(view);
    let rows = view.size.spec_rows_per_half() as int;
    let len = view.row_actions();
    let count = view.brightness_count();
    let rest = index - 1;
    let scanned = rest / len;
    let subframe = rest / (rows * len);
    let row = scanned % rows;
    let slot = rest % len;
    lemma_fundamental_div_mod(rest, len);
    lemma_mod_pos_bound(rest, len);
    lemma_div_pos_is_pos(rest, len);
    lemma_fundamental_div_mod(scanned, rows);
    lemma_mod_pos_bound(scanned, rows);
    lemma_div_denominator(rest, len, rows);
    assert(len * rows == rows * len) by (nonlinear_arith);
    assert(subframe == scanned / rows);
    assert((subframe * rows + row) * len + slot == rest) by (nonlinear_arith)
        requires
            scanned == rows * subframe + row,
            rest == len * scanned + slot,
    ;
    assert(rest < (rows * len) * count) by (nonlinear_arith)
        requires
            rest < count * rows * len,
    ;
    lemma_multiply_divide_lt(rest, rows * len, count);
    lemma_div_pos_is_pos(rest, rows * len);
}

/// In the sub-frame `subframe`, action `index` of shifting the column
/// `column` of the row `row` in stands at slot `8 * column + index` of that
/// row. So each data line is driven high exactly in the sub-frames whose
/// threshold the stored level has reached, and low in the others.
pub proof fn lemma_column_signal_at(
    view: Hub75View,
    subframe: int,
    row: int,
    column: int,
    index: int,
)
    requires
        view.wf(),
        0 <= subframe < view.brightness_count(),
        0 <= row < view.size.spec_rows_per_half(),
        0 <= column < COLUMNS,
        0 <= index < COLUMN_ACTIONS,
    ensures
        view.signals()[view.position(subframe, row, COLUMN_ACTIONS * column + index)]
            == column_signals(
            view.grid[row][column],
            threshold_for(subframe, view.brightness_step()),
        )[index],
{
    lemma_signal_at(view, subframe, row, COLUMN_ACTIONS * column + index);
    lemma_shift_signals(
        view.grid[row],
        threshold_for(subframe, view.brightness_step()),
        COLUMNS as nat,
    );
}

/// In every sub-frame, action `index` of latching and showing the row `row`
/// stands at slot `512 + index` of that row, after all 64 columns: the row
/// address is the binary encoding of `row`, and it is set while the panel is
/// blanked, after the latch pulse.
pub proof fn lemma_latch_signal_at(view: Hub75View, subframe: int, row: int, index: int)
    requires
        view.wf(),
        0 <= subframe < view.brightness_count(),
        0 <= row < view.size.spec_rows_per_half(),
        0 <= index < latch_signals(row, view.size.spec_five_address_lines()).len(),
    ensures
        view.signals()[view.position(subframe, row, COLUMN_ACTIONS * COLUMNS + index)]
            == latch_signals(row, view.size.spec_five_address_lines())[index],
{
    lemma_signal_at(view, subframe, row, COLUMN_ACTIONS * COLUMNS + index);
    lemma_shift_signals(
        view.grid[row],
        threshold_for(subframe, view.brightness_step()),
        COLUMNS as nat,
    );
}

/// In every row of every sub-frame of a refresh, each column is clocked in
/// once, after its data lines are set; the panel is blanked once, when all
/// columns are in; the latch is pulsed once, while the panel is blanked; and
/// the panel is unblanked once, by the last action of the row, after the
/// latch pulse and the row select.
pub proof fn lemma_signal_order(view: Hub75View, subframe: int, row: int, slot: int)
    requires
        view.wf(),
        0 <= subframe < view.brightness_count(),
        0 <= row < view.size.spec_rows_per_half(),
        0 <= slot < view.row_actions(),
    ensures
        view.signals()[view.position(subframe, row, slot)] == (Action::Drive {
            line: Line::Clk,
            high: true,
        }) <==> slot < 512 && slot % 8 == 6,
        view.signals()[view.position(subframe, row, slot)] == (Action::Drive {
            line: Line::Clk,
            high: false,
        }) <==> slot < 512 && slot % 8 == 7,
        view.signals()[view.position(subframe, row, slot)] == (Action::Drive {
            line: Line::Oe,
            high: true,
        }) <==> slot == 512,
        view.signals()[view.position(subframe, row, slot)] == (Action::Drive {
            line: Line::Lat,
            high: false,
        }) <==> slot == 514,
        view.signals()[view.position(subframe, row, slot)] == (Action::Drive {
            line: Line::Lat,
            high: true,
        }) <==> slot == 516,
        view.signals()[view.position(subframe, row, slot)] == (Action::Drive {
            line: Line::Oe,
            high: false,
        }) <==> slot == view.row_actions() - 1,
{
    let level = threshold_for(subframe, view.brightness_step());
    lemma_signal_at(view, subframe, row, slot);
    lemma_row_order(view.grid[row], level, row, view.size.spec_five_address_lines(), 0);
    lemma_row_order(view.grid[row], level, row, view.size.spec_five_address_lines(), slot);
}

/// Which lines the actions of one column drive: the six data lines first,
/// then the clock up and down.
proof fn lemma_column_lines(cell: Cell, level: int, index: int)
    requires
        0 <= index < COLUMN_ACTIONS,
    ensures
        column_signals(cell, level)[index] == (Action::Drive { line: Line::Clk, high: true })
            <==> index == 6,
        column_signals(cell, level)[index] == (Action::Drive { line: Line::Clk, high: false })
            <==> index == 7,
        column_signals(cell, level)[index] is Drive,
        column_signals(cell, level)[index]->line != Line::Oe,
        column_signals(cell, level)[index]->line != Line::Lat,
{
}

/// Which lines the actions that latch and show a row drive.
proof fn lemma_latch_lines(row: int, five_lines: bool, index: int)
    requires
        0 <= index < latch_signals(row, five_lines).len(),
    ensures
        latch_signals(row, five_lines)[index] == (Action::Drive { line: Line::Oe, high: true })
            <==> index == 0,
        latch_signals(row, five_lines)[index] == (Action::Drive { line: Line::Lat, high: false })
            <==> index == 2,
        latch_signals(row, five_lines)[index] == (Action::Drive { line: Line::Lat, high: true })
            <==> index == 4,
        latch_signals(row, five_lines)[index] == (Action::Drive { line: Line::Oe, high: false })
            <==> index == latch_signals(row, five_lines).len() - 1,
        latch_signals(row, five_lines)[index] is Drive ==> latch_signals(
            row,
            five_lines,
        )[index]->line != Line::Clk,
{
    let head = seq![
        Action::Drive { line: Line::Oe, high: true },
        Action::Wait { micros: SETTLE_MICROS },
        Action::Drive { line: Line::Lat, high: false },
        Action::Wait { micros: SETTLE_MICROS },
        Action::Drive { line: Line::Lat, high: true },
    ];
    let address = address_signals(row, five_lines);
    let tail = seq![
        Action::Wait { micros: SETTLE_MICROS },
        Action::Drive { line: Line::Oe, high: false },
    ];
    let all = latch_signals(row, five_lines);
    assert(all == head + address + tail);
    assert(head.len() == 5);
    assert(tail.len() == 2);
    if index < 5 {
        assert(all[index] == head[index]);
    } else if index < 5 + address.len() {
        assert(all[index] == address[index - 5]);
        assert(address[index - 5] is Drive);
        let line = address[index - 5]->line;
        assert(line == Line::A || line == Line::B || line == Line::C || line == Line::D || line
            == Line::F);
    } else {
        assert(all[index] == tail[index - 5 - address.len()]);
    }
}

/// Where all rows of `grid` take `len` actions each, the rows from `from` on
/// take `len` actions per row, and action `k` of the row `r` stands at
/// `(r - from) * len + k`.
proof fn lemma_rows_signals(
    grid: Seq<Seq<Cell>>,
    level: int,
    five_lines: bool,
    len: int,
    from: int,
)
    requires
        0 <= from <= grid.len(),
        forall|r: int|
            0 <= r < grid.len() ==> (#[trigger] row_signals(grid[r], level, r, five_lines)).len()
                == len,
    ensures
        rows_signals(grid, level, five_lines, from).len() == (grid.len() - from) * len,
        forall|r: int, k: int|
            from <= r < grid.len() && 0 <= k < len ==> rows_signals(
                grid,
                level,
                five_lines,
                from,
            )[(r - from) * len + k] == #[trigger] row_signals(grid[r], level, r, five_lines)[k],
    decreases grid.len() - from,
{
    let all = rows_signals(grid, level, five_lines, from);
    if from < grid.len() {
        let head = row_signals(grid[from], level, from, five_lines);
        let tail = rows_signals(grid, level, five_lines, from + 1);
        lemma_rows_signals(grid, level, five_lines, len, from + 1);
        assert(all == head + tail);
        assert(head.len() == len);
        assert((grid.len() - from) * len == len + (grid.len() - from - 1) * len)
            by (nonlinear_arith);
        assert forall|r: int, k: int|
            from <= r < grid.len() && 0 <= k < len implies all[(r - from) * len + k]
            == #[trigger] row_signals(grid[r], level, r, five_lines)[k] by {
            if r == from {
                assert((r - from) * len + k == k) by (nonlinear_arith)
                    requires
                        r == from,
                ;
                assert(all[k] == head[k]);
            } else {
                let inner = (r - from - 1) * len + k;
                assert((r - from) * len + k == len + inner) by (nonlinear_arith)
                    requires
                        inner == (r - from - 1) * len + k,
                ;
                assert(0 <= inner < (grid.len() - from - 1) * len) by (nonlinear_arith)
                    requires
                        inner == (r - from - 1) * len + k,
                        from < r < grid.len(),
                        0 <= k < len,
                ;
                assert(all[len + inner] == tail[inner]);
            }
        }
    } else {
        assert((grid.len() - from) * len == 0) by (nonlinear_arith)
            requires
                grid.len() - from == 0,
        ;
    }
}

/// Where every sub-frame takes `len` actions, the sub-frames from `from` on
/// take `len` actions each, and action `k` of the sub-frame `s` stands at
/// `(s - from) * len + k`.
proof fn lemma_subframes_signals(
    grid: Seq<Seq<Cell>>,
    five_lines: bool,
    step: int,
    count: int,
    len: int,
    from: int,
)
    requires
        0 <= from <= count,
        forall|s: int|
            0 <= s < count ==> (#[trigger] rows_signals(
                grid,
                threshold_for(s, step),
                five_lines,
                0,
            )).len() == len,
    ensures
        subframes_signals(grid, five_lines, step, count, from).len() == (count - from) * len,
        forall|s: int, k: int|
            from <= s < count && 0 <= k < len ==> subframes_signals(
                grid,
                five_lines,
                step,
                count,
                from,
            )[(s - from) * len + k] == #[trigger] rows_signals(
                grid,
                threshold_for(s, step),
                five_lines,
                0,
            )[k],
    decreases count - from,
{
    let all = subframes_signals(grid, five_lines, step, count, from);
    if from < count {
        let head = rows_signals(grid, threshold_for(from, step), five_lines, 0);
        let tail = subframes_signals(grid, five_lines, step, count, from + 1);
        lemma_subframes_signals(grid, five_lines, step, count, len, from + 1);
        assert(all == head + tail);
        assert(head.len() == len);
        assert((count - from) * len == len + (count - from - 1) * len) by (nonlinear_arith);
        assert forall|s: int, k: int|
            from <= s < count && 0 <= k < len implies all[(s - from) * len + k]
            == #[trigger] rows_signals(grid, threshold_for(s, step), five_lines, 0)[k] by {
            if s == from {
                assert((s - from) * len + k == k) by (nonlinear_arith)
                    requires
                        s == from,
                ;
                assert(all[k] == head[k]);
            } else {
                let inner = (s - from - 1) * len + k;
                assert((s - from) * len + k == len + inner) by (nonlinear_arith)
                    requires
                        inner == (s - from - 1) * len + k,
                ;
                assert(0 <= inner < (count - from - 1) * len) by (nonlinear_arith)
                    requires
                        inner == (s - from - 1) * len + k,
                        from < s < count,
                        0 <= k < len,
                ;
                assert(all[len + inner] == tail[inner]);
            }
        }
    } else {
        assert((count - from) * len == 0) by (nonlinear_arith)
            requires
                count - from == 0,
        ;
    }
}

/// The layout of a refresh: its length, its two ends, and where the actions
/// of every sub-frame and row stand.
proof fn lemma_signals_layout(view: Hub75View)
    requires
        view.wf(),
    ensures
        view.signals().len() == 2 + view.brightness_count() * view.size.spec_rows_per_half()
            * view.row_actions(),
        view.signals()[0] == (Action::Drive { line: Line::Oe, high: false }),
        view.signals()[view.signals().len() - 1] == (Action::Drive {
            line: Line::Oe,
            high: true,
        }),
        forall|s: int, r: int, k: int|
            0 <= s < view.brightness_count() && 0 <= r < view.size.spec_rows_per_half() && 0 <= k
                < view.row_actions() ==> view.signals()[1 + s * (view.size.spec_rows_per_half()
                * view.row_actions()) + (r * view.row_actions() + k)] == #[trigger] row_signals(
                view.grid[r],
                threshold_for(s, view.brightness_step()),
                r,
                view.size.spec_five_address_lines(),
            )[k],
{
    let grid = view.grid;
    let five_lines = view.size.spec_five_address_lines();
    let step = view.brightness_step();
    let count = view.brightness_count();
    let rows = view.size.spec_rows_per_half() as int;
    let len = view.row_actions();
    let block = rows * len;
    lemma_brightness_levels(view.brightness_bits);
    assert forall|s: int| 0 <= s < count implies (#[trigger] rows_signals(
        grid,
        threshold_for(s, step),
        five_lines,
        0,
    )).len() == block && forall|r: int, k: int|
        0 <= r < rows && 0 <= k < len ==> rows_signals(
            grid,
            threshold_for(s, step),
            five_lines,
            0,
        )[r * len + k] == #[trigger] row_signals(
            grid[r],
            threshold_for(s, step),
            r,
            five_lines,
        )[k] by {
        let level = threshold_for(s, step);
        assert forall|r: int| 0 <= r < grid.len() implies (#[trigger] row_signals(
            grid[r],
            level,
            r,
            five_lines,
        )).len() == len by {
            lemma_shift_signals(grid[r], level, COLUMNS as nat);
        }
        lemma_rows_signals(grid, level, five_lines, len, 0);
    }
    lemma_subframes_signals(grid, five_lines, step, count, block, 0);
    let middle = subframes_signals(grid, five_lines, step, count, 0);
    assert(middle.len() == count * block);
    assert(count * block == count * rows * len) by (nonlinear_arith)
        requires
            block == rows * len,
    ;
    assert forall|s: int, r: int, k: int|
        0 <= s < count && 0 <= r < rows && 0 <= k < len implies view.signals()[1 + s * block + (r
        * len + k)] == #[trigger] row_signals(
        grid[r],
        threshold_for(s, step),
        r,
        five_lines,
    )[k] by {
        let inner = r * len + k;
        assert(0 <= inner < block) by (nonlinear_arith)
            requires
                inner == r * len + k,
                block == rows * len,
                0 <= r < rows,
                0 <= k < len,
        ;
        assert(0 <= s * block + inner < count * block) by (nonlinear_arith)
            requires
                0 <= s < count,
                0 <= inner < block,
        ;
        assert(middle[(s - 0) * block + inner] == rows_signals(
            grid,
            threshold_for(s, step),
            five_lines,
            0,
        )[inner]);
        assert(view.signals()[1 + s * block + inner] == middle[s * block + inner]);
    }
}

} // verus!
