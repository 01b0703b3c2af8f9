use crate::brightness::{lemma_brightness_levels, threshold, threshold_for};
use crate::hub::Hub75;
use crate::panel::{Cell, Hub75View, COLUMNS};
use crate::layout::lemma_shift_signals;
use crate::signal::{
    address_signals, column_signals, latch_signals, row_signals, rows_signals,
    subframes_signals, Action, Line, COLUMN_ACTIONS, SETTLE_MICROS,
};
use vstd::arithmetic::power2::lemma2_to64;
use vstd::prelude::*;

verus! {

/// What the one who performs a refresh has to do next.
#[derive(Debug, PartialEq, Eq)]
pub enum Step<E> {
    /// Perform this action, then report how it went.
    Perform(Action),
    /// The refresh is over: it ran to its end, or it was given up at the
    /// first failure, which is handed back.
    Finished(Result<(), E>),
}

#[derive(Clone, Copy, Debug, PartialEq, Eq, Structural)]
enum Stage {
    Enable,
    Rows,
    Blank,
    Done,
}

/// The progress of one refresh.
///
/// A refresh alternates between deciding what to put on the lines and doing
/// it. The deciding is [`Scan::step`]; the doing is left to the caller, who
/// owns the lines and the clock.
#[derive(Clone, Copy, Debug)]
pub struct Scan {
    stage: Stage,
    subframe: u8,
    row: u8,
    slot: u16,
}

/// Computes action `index` of shifting one column in.
fn column_action(cell: Cell, level: u8, index: u16) -> (action: Action)
    requires
        index < COLUMN_ACTIONS,
    ensures
        action == column_signals(cell, level as int)[index as int],
{
    if index == 0 {
        Action::Drive { line: Line::R1, high: cell.r1 >= level }
    } else if index == 1 {
        Action::Drive { line: Line::G1, high: cell.g1 >= level }
    } else if index == 2 {
        Action::Drive { line: Line::B1, high: cell.b1 >= level }
    } else if index == 3 {
        Action::Drive { line: Line::R2, high: cell.r2 >= level }
    } else if index == 4 {
        Action::Drive { line: Line::G2, high: cell.g2 >= level }
    } else if index == 5 {
        Action::Drive { line: Line::B2, high: cell.b2 >= level }
    } else if index == 6 {
        Action::Drive { line: Line::Clk, high: true }
    } else {
        Action::Drive { line: Line::Clk, high: false }
    }
}

/// Computes action `index` of selecting the row address `row`.
fn address_action(row: u8, five_lines: bool, index: u16) -> (action: Action)
    requires
        index < address_signals(row as int, five_lines).len(),
    ensures
        action == address_signals(row as int, five_lines)[index as int],
{
    proof {
        lemma2_to64();
        assert((row & 1 != 0) == ((row / 1) % 2 == 1)) by (bit_vector);
        assert((row & 2 != 0) == ((row / 2) % 2 == 1)) by (bit_vector);
        assert((row & 4 != 0) == ((row / 4) % 2 == 1)) by (bit_vector);
        assert((row & 8 != 0) == ((row / 8) % 2 == 1)) by (bit_vector);
        assert((row & 16 != 0) == ((row / 16) % 2 == 1)) by (bit_vector);
    }
    if index == 0 {
        Action::Drive { line: Line::A, high: row & 1 != 0 }
    } else if index == 1 {
        Action::Drive { line: Line::B, high: row & 2 != 0 }
    } else if index == 2 {
        Action::Drive { line: Line::C, high: row & 4 != 0 }
    } else if index == 3 {
        Action::Drive { line: Line::D, high: row & 8 != 0 }
    } else {
        Action::Drive { line: Line::F, high: row & 16 != 0 }
    }
}

/// Computes action `index` of latching and showing the row `row`.
fn latch_action(row: u8, five_lines: bool, index: u16) -> (action: Action)
    requires
        index < latch_signals(row as int, five_lines).len(),
    ensures
        action == latch_signals(row as int, five_lines)[index as int],
{
    let lines: u16 = if five_lines {
        5
    } else {
        4
    };
    if index == 0 {
        Action::Drive { line: Line::Oe, high: true }
    } else if index == 1 {
        Action::Wait { micros: SETTLE_MICROS }
    } else if index == 2 {
        Action::Drive { line: Line::Lat, high: false }
    } else if index == 3 {
        Action::Wait { micros: SETTLE_MICROS }
    } else if index == 4 {
        Action::Drive { line: Line::Lat, high: true }
    } else if index < 5 + lines {
        address_action(row, five_lines, index - 5)
    } else if index == 5 + lines {
        Action::Wait { micros: SETTLE_MICROS }
    } else {
        Action::Drive { line: Line::Oe, high: false }
    }
}

/// Computes action `slot` of the row `row` at the threshold `level`.
fn row_action<PINS>(hub: &Hub75<PINS>, level: u8, row: u8, slot: u16) -> (action: Action)
    requires
        row < hub@.size.spec_rows_per_half(),
        slot < hub@.row_actions(),
    ensures
        action == row_signals(
            hub@.grid[row as int],
            level as int,
            row as int,
            hub@.size.spec_five_address_lines(),
        )[slot as int],
{
    let five_lines = hub.panel_size().five_address_lines();
    proof {
        lemma_shift_signals(hub@.grid[row as int], level as int, COLUMNS as nat);
    }
    if slot < 512 {
        let column = slot / 8;
        let index = slot % 8;
        let cell = hub.cell(row as usize, column as usize);
        column_action(cell, level, index)
    } else {
        latch_action(row, five_lines, slot - 512)
    }
}

/// The action that ends a refresh.
spec fn final_blank() -> Seq<Action> {
    seq![Action::Drive { line: Line::Oe, high: true }]
}

/// What is left of a refresh of `view` from action `slot` of the row `row`
/// in the sub-frame `subframe` on: the rest of that row, the later rows of
/// that sub-frame, the later sub-frames and the final blanking.
spec fn rest(view: Hub75View, subframe: int, row: int, slot: int) -> Seq<Action> {
    let five_lines = view.size.spec_five_address_lines();
    let level = threshold_for(subframe, view.brightness_step());
    row_signals(view.grid[row], level, row, five_lines).skip(slot) + rows_signals(
        view.grid,
        level,
        five_lines,
        row + 1,
    ) + subframes_signals(
        view.grid,
        five_lines,
        view.brightness_step(),
        view.brightness_count(),
        subframe + 1,
    ) + final_blank()
}

/// What is left once action `slot` of the row `row` in the sub-frame
/// `subframe` is performed: the scan goes on in the same row, or enters the
/// next row, or the next sub-frame, or has only the final blanking left.
spec fn rest_after(view: Hub75View, subframe: int, row: int, slot: int) -> Seq<Action> {
    if slot + 1 < view.row_actions() {
        rest(view, subframe, row, slot + 1)
    } else if row + 1 < view.size.spec_rows_per_half() {
        rest(view, subframe, row + 1, 0)
    } else if subframe + 1 < view.brightness_count() {
        rest(view, subframe + 1, 0, 0)
    } else {
        final_blank()
    }
}

/// The rows from `row` on begin with the row `row`.
proof fn lemma_enter_row(view: Hub75View, level: int, row: int)
    requires
        0 <= row < view.grid.len(),
    ensures
        rows_signals(view.grid, level, view.size.spec_five_address_lines(), row) == row_signals(
            view.grid[row],
            level,
            row,
            view.size.spec_five_address_lines(),
        ) + rows_signals(view.grid, level, view.size.spec_five_address_lines(), row + 1),
{
}

/// The sub-frames from `subframe` on are what is left of a refresh from the
/// first action of that sub-frame on, but for the final blanking.
proof fn lemma_enter_subframe(view: Hub75View, subframe: int)
    requires
        view.wf(),
        0 <= subframe < view.brightness_count(),
    ensures
        subframes_signals(
            view.grid,
            view.size.spec_five_address_lines(),
            view.brightness_step(),
            view.brightness_count(),
            subframe,
        ) + final_blank() == rest(view, subframe, 0, 0),
{
    let five_lines = view.size.spec_five_address_lines();
    let level = threshold_for(subframe, view.brightness_step());
    let first = row_signals(view.grid[0], level, 0, five_lines);
    let rows = rows_signals(view.grid, level, five_lines, 1);
    let later = subframes_signals(
        view.grid,
        five_lines,
        view.brightness_step(),
        view.brightness_count(),
        subframe + 1,
    );
    lemma_enter_row(view, level, 0);
    assert(first.skip(0) =~= first);
    assert(subframes_signals(
        view.grid,
        five_lines,
        view.brightness_step(),
        view.brightness_count(),
        subframe,
    ) == first + rows + later);
    assert((first + rows + later) + final_blank() =~= first + rows + later + final_blank());
}

/// A refresh begins by unblanking the panel; what is left then begins with
/// the first row of the first sub-frame.
proof fn lemma_begin(view: Hub75View)
    requires
        view.wf(),
    ensures
        view.signals().len() > 0,
        view.signals()[0] == (Action::Drive { line: Line::Oe, high: false }),
        view.signals().skip(1) == rest(view, 0, 0, 0),
{
    lemma_brightness_levels(view.brightness_bits);
    lemma_enter_subframe(view, 0);
    let middle = subframes_signals(
        view.grid,
        view.size.spec_five_address_lines(),
        view.brightness_step(),
        view.brightness_count(),
        0,
    );
    let unblank = seq![Action::Drive { line: Line::Oe, high: false }];
    assert(view.signals() == unblank + middle + final_blank());
    assert((unblank + middle + final_blank()).skip(1) =~= middle + final_blank());
}

/// What is left of a refresh at a place on the panel begins with the action
/// of that place and goes on with what is left after it.
proof fn lemma_rest(view: Hub75View, subframe: int, row: int, slot: int)
    requires
        view.wf(),
        0 <= subframe < view.brightness_count(),
        0 <= row < view.size.spec_rows_per_half(),
        0 <= slot < view.row_actions(),
    ensures
        rest(view, subframe, row, slot).len() > 0,
        rest(view, subframe, row, slot)[0] == row_signals(
            view.grid[row],
            threshold_for(subframe, view.brightness_step()),
            row,
            view.size.spec_five_address_lines(),
        )[slot],
        rest(view, subframe, row, slot).skip(1) == rest_after(view, subframe, row, slot),
{
    let five_lines = view.size.spec_five_address_lines();
    let step = view.brightness_step();
    let count = view.brightness_count();
    let level = threshold_for(subframe, step);
    let this_row = row_signals(view.grid[row], level, row, five_lines);
    let later_rows = rows_signals(view.grid, level, five_lines, row + 1);
    let later_subframes = subframes_signals(view.grid, five_lines, step, count, subframe + 1);
    let here = rest(view, subframe, row, slot);
    lemma_shift_signals(view.grid[row], level, COLUMNS as nat);
    assert(this_row.len() == view.row_actions());
    assert(here == this_row.skip(slot) + later_rows + later_subframes + final_blank());
    assert(here[0] == this_row[slot]);
    assert(here.skip(1) =~= this_row.skip(slot + 1) + later_rows + later_subframes
        + final_blank());
    if slot + 1 < view.row_actions() {
    } else if row + 1 < view.size.spec_rows_per_half() {
        let next_row = row_signals(view.grid[row + 1], level, row + 1, five_lines);
        let rows_beyond = rows_signals(view.grid, level, five_lines, row + 2);
        lemma_enter_row(view, level, row + 1);
        assert(later_rows == next_row + rows_beyond);
        assert(next_row.skip(0) =~= next_row);
        assert(this_row.skip(slot + 1) + later_rows + later_subframes + final_blank()
            =~= next_row.skip(0) + rows_beyond + later_subframes + final_blank());
    } else if subframe + 1 < count {
        lemma_enter_subframe(view, subframe + 1);
        assert(later_rows =~= Seq::<Action>::empty());
        assert(this_row.skip(slot + 1) + later_rows + later_subframes + final_blank()
            =~= later_subframes + final_blank());
    } else {
        assert(later_rows =~= Seq::<Action>::empty());
        assert(later_subframes =~= Seq::<Action>::empty());
        assert(this_row.skip(slot + 1) + later_rows + later_subframes + final_blank()
            =~= final_blank());
    }
}

impl Scan {
    /// Whether the place this scan has reached exists on the panel of `view`.
    spec fn on_panel(self, view: Hub75View) -> bool {
        &&& self.subframe < view.brightness_count()
        &&& self.row < view.size.spec_rows_per_half()
        &&& self.slot < view.row_actions()
    }

    /// The actions that are still to be performed when the state of the
    /// driver is `view`, in order.
    pub closed spec fn pending(self, view: Hub75View) -> Seq<Action> {
        match self.stage {
            Stage::Enable => view.signals(),
            Stage::Rows => if self.on_panel(view) {
                rest(view, self.subframe as int, self.row as int, self.slot as int)
            } else {
                Seq::empty()
            },
            Stage::Blank => final_blank(),
            Stage::Done => Seq::empty(),
        }
    }

    /// A refresh of which nothing has been performed yet.
    pub fn start() -> (scan: Self)
        ensures
            forall|view: Hub75View| #[trigger] scan.pending(view) == view.signals(),
    {
        Scan { stage: Stage::Enable, subframe: 0, row: 0, slot: 0 }
    }

    /// Decides what comes next in the refresh of `hub`.
    ///
    /// `last` says how the action that the previous call handed out went;
    /// for the first call, and after a wait, it is `Ok(())`. A failure ends
    /// the refresh at once: nothing more is handed out, and the failure comes
    /// back as the result of the refresh. Otherwise the next pending action
    /// is handed out, and when none is left the refresh has succeeded.
    pub fn step<PINS, E>(&mut self, hub: &Hub75<PINS>, last: Result<(), E>) -> (next: Step<E>)
        ensures
            final(self).pending(hub@) == if last is Ok && old(self).pending(hub@).len() > 0 {
                old(self).pending(hub@).skip(1)
            } else {
                Seq::empty()
            },
            next == match last {
                Err(failure) => Step::Finished(Err(failure)),
                Ok(_) => if old(self).pending(hub@).len() > 0 {
                    Step::Perform(old(self).pending(hub@)[0])
                } else {
                    Step::Finished(Ok(()))
                },
            },
    {
        if let Err(failure) = last {
            self.stage = Stage::Done;
            return Step::Finished(Err(failure));
        }
        let size = hub.panel_size();
        let rows = size.rows_per_half();
        let five_lines = size.five_address_lines();
        let count = hub.brightness_count();
        let step = hub.brightness_step();
        let row_actions: u16 = if five_lines {
            524
        } else {
            523
        };
        let ghost view = hub@;
        let ghost before = *self;
        match self.stage {
            Stage::Enable => {
                proof {
                    lemma_begin(view);
                    lemma_brightness_levels(view.brightness_bits);
                }
                self.stage = Stage::Rows;
                self.subframe = 0;
                self.row = 0;
                self.slot = 0;
                Step::Perform(Action::Drive { line: Line::Oe, high: false })
            },
            Stage::Rows => {
                if !(self.subframe < count && (self.row as usize) < rows && self.slot
                    < row_actions) {
                    self.stage = Stage::Done;
                    return Step::Finished(Ok(()));
                }
                proof {
                    lemma_rest(view, before.subframe as int, before.row as int, before.slot as int);
                }
                let level = threshold(self.subframe, step);
                let action = row_action(hub, level, self.row, self.slot);
                if self.slot + 1 < row_actions {
                    self.slot = self.slot + 1;
                } else if (self.row as usize) + 1 < rows {
                    self.row = self.row + 1;
                    self.slot = 0;
                } else if self.subframe + 1 < count {
                    self.subframe = self.subframe + 1;
                    self.row = 0;
                    self.slot = 0;
                } else {
                    self.stage = Stage::Blank;
                }
                Step::Perform(action)
            },
            Stage::Blank => {
                self.stage = Stage::Done;
                proof {
                    assert(final_blank().skip(1) =~= Seq::<Action>::empty());
                }
                Step::Perform(Action::Drive { line: Line::Oe, high: true })
            },
            Stage::Done => Step::Finished(Ok(())),
        }
    }

    /// Goes through a whole refresh of `hub` in which every action succeeds,
    /// and records the actions instead of performing them: what comes out is
    /// what a refresh puts on the lines, from the first action to the last.
    pub fn record<PINS>(hub: &Hub75<PINS>) -> (actions: Vec<Action>)
        ensures
            actions@ == hub@.signals(),
    {
        let mut scan = Scan::start();
        let mut actions: Vec<Action> = Vec::new();
        loop
            invariant
                actions@ + scan.pending(hub@) == hub@.signals(),
            decreases scan.pending(hub@).len(),
        {
            let ghost before = scan.pending(hub@);
            let ghost recorded = actions@;
            match scan.step::<PINS, ()>(hub, Ok(())) {
                Step::Perform(action) => {
                    actions.push(action);
                    assert(actions@ + scan.pending(hub@) =~= recorded + before) by {
                        assert(before =~= seq![action] + before.skip(1));
                    }
                },
                Step::Finished(_) => {
                    assert(actions@ + before =~= actions@);
                    return actions;
                },
            }
        }
    }
}

} // verus!
