use crate::brightness::{count_for, step_for, valid_bits};
use crate::color::{all_corrected, lemma_stored_levels_corrected, stored_levels};
use crate::gamma::lemma_corrected_is_corrected;
use vstd::prelude::*;

verus! {

/// The number of columns of every supported panel.
pub const COLUMNS: usize = 64;

/// The supported panels. Both are 64 pixels wide and split into a top and a
/// bottom half that are scanned together.
#[derive(Clone, Copy, Debug, PartialEq, Eq, Structural)]
pub enum PanelSize {
    /// 64 x 32 pixels: 16 rows per half, four row-address lines.
    Size64x32,
    /// 64 x 64 pixels: 32 rows per half, five row-address lines.
    Size64x64,
}

impl PanelSize {
    /// The number of rows of one half, which is the number of row addresses.
    pub open spec fn spec_rows_per_half(self) -> usize {
        match self {
            PanelSize::Size64x32 => 16,
            PanelSize::Size64x64 => 32,
        }
    }

    /// The number of pixel rows of the whole panel.
    pub open spec fn spec_height(self) -> usize {
        match self {
            PanelSize::Size64x32 => 32,
            PanelSize::Size64x64 => 64,
        }
    }

    /// Whether the panel has the fifth row-address line.
    pub open spec fn spec_five_address_lines(self) -> bool {
        self == PanelSize::Size64x64
    }

    #[verifier::when_used_as_spec(spec_rows_per_half)]
    pub fn rows_per_half(self) -> (rows: usize)
        ensures
            rows == self.spec_rows_per_half(),
    {
        match self {
            PanelSize::Size64x32 => 16,
            PanelSize::Size64x64 => 32,
        }
    }

    #[verifier::when_used_as_spec(spec_height)]
    pub fn height(self) -> (height: usize)
        ensures
            height == self.spec_height(),
    {
        2 * self.rows_per_half()
    }

    #[verifier::when_used_as_spec(spec_five_address_lines)]
    pub fn five_address_lines(self) -> (five: bool)
        ensures
            five == self.spec_five_address_lines(),
    {
        match self {
            PanelSize::Size64x32 => false,
            PanelSize::Size64x64 => true,
        }
    }
}

/// What the frame buffer keeps for one column of one row address: three
/// levels for the pixel in the top half and three for the pixel in the
/// bottom half. Levels are stored corrected, ready to be compared with a
/// threshold.
#[derive(Clone, Copy, Debug, PartialEq, Eq, Structural)]
pub struct Cell {
    pub r1: u8,
    pub g1: u8,
    pub b1: u8,
    pub r2: u8,
    pub g2: u8,
    pub b2: u8,
}

impl Cell {
    /// The cell with every channel off.
    pub open spec fn dark() -> Cell {
        Cell { r1: 0, g1: 0, b1: 0, r2: 0, g2: 0, b2: 0 }
    }

    /// The levels (red, green, blue) of the pixel in the top half.
    pub open spec fn top(self) -> (u8, u8, u8) {
        (self.r1, self.g1, self.b1)
    }

    /// The levels (red, green, blue) of the pixel in the bottom half.
    pub open spec fn bottom(self) -> (u8, u8, u8) {
        (self.r2, self.g2, self.b2)
    }

    /// Whether all six levels are corrected levels.
    pub open spec fn is_corrected(self) -> bool {
        all_corrected(self.top()) && all_corrected(self.bottom())
    }

    /// This cell with the top pixel replaced.
    pub open spec fn with_top(self, levels: (u8, u8, u8)) -> Cell {
        Cell { r1: levels.0, g1: levels.1, b1: levels.2, ..self }
    }

    /// This cell with the bottom pixel replaced.
    pub open spec fn with_bottom(self, levels: (u8, u8, u8)) -> Cell {
        Cell { r2: levels.0, g2: levels.1, b2: levels.2, ..self }
    }
}

/// One pixel to draw: a panel coordinate and a color in the 16-bit 5-6-5
/// format (red in the five most significant bits, blue in the five least).
#[derive(Clone, Copy, Debug, PartialEq, Eq, Structural)]
pub struct Pixel {
    pub x: i32,
    pub y: i32,
    pub color: u16,
}

impl Pixel {
    /// Whether this is the pixel `(x, y)`.
    pub open spec fn is_at(self, x: int, y: int) -> bool {
        self.x == x && self.y == y
    }
}

/// Whether every level in `grid` is a corrected level.
#[verifier::opaque]
pub open spec fn all_cells_corrected(grid: Seq<Seq<Cell>>) -> bool {
    forall|r: int, c: int|
        0 <= r < grid.len() && 0 <= c < grid[r].len() ==> (#[trigger] grid[r][c]).is_corrected()
}

/// The state of a driver as its contracts see it: the panel, the brightness
/// depth, and the stored cells as a grid of `rows_per_half` rows of 64 cells.
pub struct Hub75View {
    pub size: PanelSize,
    pub brightness_bits: u8,
    pub grid: Seq<Seq<Cell>>,
}

impl Hub75View {
    /// The depth is an accepted one, the grid has the shape of the panel, and
    /// every level in it is a corrected level: levels are corrected once,
    /// when a pixel is drawn, and never stored as they came in.
    pub open spec fn wf(self) -> bool {
        &&& valid_bits(self.brightness_bits)
        &&& self.grid.len() == self.size.spec_rows_per_half()
        &&& forall|r: int| 0 <= r < self.grid.len() ==> (#[trigger] self.grid[r]).len() == COLUMNS
        &&& all_cells_corrected(self.grid)
    }

    /// A driver for `size` at depth `brightness_bits` with every cell dark.
    pub open spec fn blank(size: PanelSize, brightness_bits: u8) -> Hub75View {
        Hub75View {
            size,
            brightness_bits,
            grid: Seq::new(
                size.spec_rows_per_half() as nat,
                |r: int| Seq::new(COLUMNS as nat, |c: int| Cell::dark()),
            ),
        }
    }

    /// The distance between neighbouring thresholds.
    pub open spec fn brightness_step(self) -> int {
        step_for(self.brightness_bits)
    }

    /// The number of sub-frames of one refresh.
    pub open spec fn brightness_count(self) -> int {
        count_for(self.brightness_bits)
    }

    /// Whether `(x, y)` is a pixel of the panel.
    pub open spec fn contains(self, x: int, y: int) -> bool {
        0 <= x < COLUMNS && 0 <= y < self.size.spec_height()
    }

    /// The row address under which the pixel row `y` is stored.
    pub open spec fn half_row(self, y: int) -> int {
        y % (self.size.spec_rows_per_half() as int)
    }

    /// Whether the pixel row `y` lies in the bottom half.
    pub open spec fn in_bottom_half(self, y: int) -> bool {
        y >= self.size.spec_rows_per_half()
    }

    /// The stored levels (red, green, blue) of the pixel `(x, y)`.
    pub open spec fn pixel(self, x: int, y: int) -> (u8, u8, u8) {
        let cell = self.grid[self.half_row(y)][x];
        if self.in_bottom_half(y) {
            cell.bottom()
        } else {
            cell.top()
        }
    }

    /// The state after `levels` were stored for the pixel `(x, y)`: they
    /// replace the top or the bottom levels of one cell, and nothing else
    /// changes.
    pub open spec fn store(self, x: int, y: int, levels: (u8, u8, u8)) -> Hub75View {
        let r = self.half_row(y);
        let cell = self.grid[r][x];
        let drawn = if self.in_bottom_half(y) {
            cell.with_bottom(levels)
        } else {
            cell.with_top(levels)
        };
        Hub75View { grid: self.grid.update(r, self.grid[r].update(x, drawn)), ..self }
    }

    /// The state after the pixel `(x, y)` was drawn in the color `rgb565`:
    /// the corrected expansion of the color is stored for it.
    pub open spec fn write(self, x: int, y: int, rgb565: u16) -> Hub75View {
        self.store(x, y, stored_levels(rgb565))
    }

    /// Whether every pixel of `pixels` lies on the panel.
    pub open spec fn contains_all(self, pixels: Seq<Pixel>) -> bool {
        forall|i: int|
            0 <= i < pixels.len() ==> self.contains(
                (#[trigger] pixels[i]).x as int,
                pixels[i].y as int,
            )
    }

    /// The state after `pixels` were drawn one after the other, first to last.
    pub open spec fn draw(self, pixels: Seq<Pixel>) -> Hub75View
        decreases pixels.len(),
    {
        if pixels.len() == 0 {
            self
        } else {
            let last = pixels.last();
            self.draw(pixels.drop_last()).write(last.x as int, last.y as int, last.color)
        }
    }

    /// The state after every cell was set dark.
    pub open spec fn cleared(self) -> Hub75View {
        Hub75View::blank(self.size, self.brightness_bits)
    }
}

/// A grid of dark cells holds corrected levels only: the darkest level is a
/// corrected level.
pub proof fn lemma_dark_grid_corrected(grid: Seq<Seq<Cell>>)
    requires
        forall|r: int, c: int|
            0 <= r < grid.len() && 0 <= c < grid[r].len() ==> #[trigger] grid[r][c]
                == Cell::dark(),
    ensures
        all_cells_corrected(grid),
{
    reveal(all_cells_corrected);
    lemma_corrected_is_corrected(0);
}

/// In a well-formed state every cell holds corrected levels only.
pub proof fn lemma_wf_cell_corrected(view: Hub75View, half_row: int, column: int)
    requires
        view.wf(),
        0 <= half_row < view.size.spec_rows_per_half(),
        0 <= column < COLUMNS,
    ensures
        view.grid[half_row][column].is_corrected(),
{
    reveal(all_cells_corrected);
}

/// A blank state of an accepted depth is well-formed.
pub proof fn lemma_blank_wf(size: PanelSize, brightness_bits: u8)
    ensures
        valid_bits(brightness_bits) ==> Hub75View::blank(size, brightness_bits).wf(),
{
    lemma_dark_grid_corrected(Hub75View::blank(size, brightness_bits).grid);
}

/// Storing corrected levels for a pixel of the panel keeps the state
/// well-formed and leaves the panel and the depth as they are. The pixel then
/// reads back as those levels, whatever the cell held before, and every other
/// pixel reads back as it did.
pub proof fn lemma_store_then_read(view: Hub75View, x: int, y: int, levels: (u8, u8, u8))
    requires
        view.wf(),
        view.contains(x, y),
        all_corrected(levels),
    ensures
        view.store(x, y, levels).wf(),
        view.store(x, y, levels).size == view.size,
        view.store(x, y, levels).brightness_bits == view.brightness_bits,
        view.store(x, y, levels).pixel(x, y) == levels,
        forall|u: int, v: int|
            view.contains(u, v) && (u != x || v != y) ==> view.store(x, y, levels).pixel(u, v)
                == view.pixel(u, v),
{
    let rows = view.size.spec_rows_per_half() as int;
    let after = view.store(x, y, levels);
    let r = view.half_row(y);
    assert(0 <= r < rows);
    assert(after.grid[r] == view.grid[r].update(x, after.grid[r][x]));
    assert(all_cells_corrected(after.grid)) by {
        reveal(all_cells_corrected);
        assert(view.grid[r][x].is_corrected());
        assert forall|q: int, c: int|
            0 <= q < after.grid.len() && 0 <= c < after.grid[q].len() implies (
        #[trigger] after.grid[q][c]).is_corrected() by {
            if q == r && c == x {
            } else if q == r {
                assert(after.grid[q][c] == view.grid[q][c]);
            } else {
                assert(after.grid[q] == view.grid[q]);
            }
        }
    }
    assert forall|u: int, v: int| view.contains(u, v) && (u != x || v != y) implies after.pixel(
        u,
        v,
    ) == view.pixel(u, v) by {
        let q = view.half_row(v);
        assert(0 <= q < rows);
        if q == r && u == x {
            assert(view.in_bottom_half(v) != view.in_bottom_half(y));
        } else if q == r {
            assert(after.grid[q][u] == view.grid[q][u]);
        } else {
            assert(after.grid[q] == view.grid[q]);
        }
    }
}

/// Drawing a pixel of the panel keeps the state well-formed. The pixel then
/// reads back as the corrected expansion of its color, not as the color
/// itself, and every other pixel reads back as it did.
pub proof fn lemma_write_then_read(view: Hub75View, x: int, y: int, rgb565: u16)
    requires
        view.wf(),
        view.contains(x, y),
    ensures
        view.write(x, y, rgb565).wf(),
        view.write(x, y, rgb565).size == view.size,
        view.write(x, y, rgb565).brightness_bits == view.brightness_bits,
        view.write(x, y, rgb565).pixel(x, y) == stored_levels(rgb565),
        forall|u: int, v: int|
            view.contains(u, v) && (u != x || v != y) ==> view.write(x, y, rgb565).pixel(u, v)
                == view.pixel(u, v),
{
    lemma_stored_levels_corrected(rgb565);
    lemma_store_then_read(view, x, y, stored_levels(rgb565));
}

/// The pixel rows `y` and `y + rows_per_half` share the cells of one row
/// address. Storing levels for `(x, y)` sets the top levels of the cell
/// `(y, x)`, storing levels for `(x, y + rows_per_half)` sets its bottom
/// levels, and neither disturbs the other, in whichever order they come.
pub proof fn lemma_store_halves(
    view: Hub75View,
    x: int,
    y: int,
    upper: (u8, u8, u8),
    lower: (u8, u8, u8),
)
    requires
        view.wf(),
        0 <= x < COLUMNS,
        0 <= y < view.size.spec_rows_per_half(),
    ensures
        ({
            let below = y + view.size.spec_rows_per_half();
            let cell = view.grid[y][x];
            &&& view.half_row(y) == y
            &&& view.half_row(below) == y
            &&& !view.in_bottom_half(y)
            &&& view.in_bottom_half(below)
            &&& view.store(x, y, upper).grid[y][x] == cell.with_top(upper)
            &&& view.store(x, below, lower).grid[y][x] == cell.with_bottom(lower)
            &&& view.store(x, y, upper).store(x, below, lower).grid[y][x] == cell.with_top(
                upper,
            ).with_bottom(lower)
            &&& view.store(x, y, upper).store(x, below, lower) == view.store(
                x,
                below,
                lower,
            ).store(x, y, upper)
        }),
{
    let rows = view.size.spec_rows_per_half() as int;
    assert(rows == 16 || rows == 32);
    assert(y % rows == y);
    assert((y + rows) % rows == y);
    let first = view.store(x, y, upper);
    let second = view.store(x, y + rows, lower);
    let cell = view.grid[y][x];
    assert(first.grid == view.grid.update(y, view.grid[y].update(x, cell.with_top(upper))));
    assert(second.grid == view.grid.update(y, view.grid[y].update(x, cell.with_bottom(lower))));
    assert(first.grid[y][x] == cell.with_top(upper));
    assert(second.grid[y][x] == cell.with_bottom(lower));
    let both = cell.with_top(upper).with_bottom(lower);
    assert(cell.with_bottom(lower).with_top(upper) == both);
    assert(first.store(x, y + rows, lower).grid =~= view.grid.update(
        y,
        view.grid[y].update(x, both),
    )) by {
        assert(first.grid[y].update(x, both) =~= view.grid[y].update(x, both));
    }
    assert(second.store(x, y, upper).grid =~= view.grid.update(
        y,
        view.grid[y].update(x, both),
    )) by {
        assert(second.grid[y].update(x, both) =~= view.grid[y].update(x, both));
    }
}

/// Drawing `(x, y)` and `(x, y + rows_per_half)` addresses the same cell
/// `(y, x)` but opposite halves of it: afterwards its top levels are the
/// corrected expansion of the first color and its bottom levels that of the
/// second, in whichever order the two were drawn.
pub proof fn lemma_halves_share_cells(view: Hub75View, x: int, y: int, upper: u16, lower: u16)
    requires
        view.wf(),
        0 <= x < COLUMNS,
        0 <= y < view.size.spec_rows_per_half(),
    ensures
        ({
            let below = y + view.size.spec_rows_per_half();
            let both = view.write(x, y, upper).write(x, below, lower);
            &&& view.half_row(y) == view.half_row(below)
            &&& view.in_bottom_half(y) != view.in_bottom_half(below)
            &&& both.grid[y][x].top() == stored_levels(upper)
            &&& both.grid[y][x].bottom() == stored_levels(lower)
            &&& both == view.write(x, below, lower).write(x, y, upper)
        }),
{
    lemma_store_halves(view, x, y, stored_levels(upper), stored_levels(lower));
}

/// Drawing a sequence of pixels of the panel keeps the state well-formed and
/// leaves the panel and the depth as they are.
pub proof fn lemma_draw_keeps_wf(view: Hub75View, pixels: Seq<Pixel>)
    requires
        view.wf(),
        view.contains_all(pixels),
    ensures
        view.draw(pixels).wf(),
        view.draw(pixels).size == view.size,
        view.draw(pixels).brightness_bits == view.brightness_bits,
    decreases pixels.len(),
{
    if pixels.len() > 0 {
        let front = pixels.drop_last();
        let last = pixels.last();
        lemma_contains_front(view, pixels);
        lemma_draw_keeps_wf(view, front);
        lemma_write_then_read(view.draw(front), last.x as int, last.y as int, last.color);
    }
}

/// A pixel that a drawn sequence does not name reads back as before.
pub proof fn lemma_draw_leaves_unnamed(view: Hub75View, pixels: Seq<Pixel>, x: int, y: int)
    requires
        view.wf(),
        view.contains_all(pixels),
        view.contains(x, y),
        forall|i: int| 0 <= i < pixels.len() ==> !(#[trigger] pixels[i]).is_at(x, y),
    ensures
        view.draw(pixels).pixel(x, y) == view.pixel(x, y),
    decreases pixels.len(),
{
    if pixels.len() > 0 {
        let front = pixels.drop_last();
        let last = pixels.last();
        lemma_contains_front(view, pixels);
        assert forall|i: int| 0 <= i < front.len() implies !(#[trigger] front[i]).is_at(x, y) by {
            assert(front[i] == pixels[i]);
        }
        lemma_draw_leaves_unnamed(view, front, x, y);
        lemma_draw_keeps_wf(view, front);
        assert(!pixels[pixels.len() - 1].is_at(x, y));
        lemma_write_then_read(view.draw(front), last.x as int, last.y as int, last.color);
    }
}

/// A pixel that a drawn sequence names reads back as the corrected expansion
/// of the color that the last entry naming it gave.
pub proof fn lemma_draw_last_wins(view: Hub75View, pixels: Seq<Pixel>, i: int)
    requires
        view.wf(),
        view.contains_all(pixels),
        0 <= i < pixels.len(),
        forall|j: int|
            i < j < pixels.len() ==> !(#[trigger] pixels[j]).is_at(
                pixels[i].x as int,
                pixels[i].y as int,
            ),
    ensures
        view.draw(pixels).pixel(pixels[i].x as int, pixels[i].y as int) == stored_levels(
            pixels[i].color,
        ),
    decreases pixels.len(),
{
    let front = pixels.drop_last();
    let last = pixels.last();
    let x = pixels[i].x as int;
    let y = pixels[i].y as int;
    lemma_contains_front(view, pixels);
    lemma_draw_keeps_wf(view, front);
    lemma_write_then_read(view.draw(front), last.x as int, last.y as int, last.color);
    if i < pixels.len() - 1 {
        assert(front[i] == pixels[i]);
        assert forall|j: int| i < j < front.len() implies !(#[trigger] front[j]).is_at(x, y) by {
            assert(front[j] == pixels[j]);
        }
        lemma_draw_last_wins(view, front, i);
        assert(!pixels[pixels.len() - 1].is_at(x, y));
        assert(view.contains(x, y));
    }
}

/// All but the last of a sequence of pixels of the panel lie on the panel,
/// and so does the last.
proof fn lemma_contains_front(view: Hub75View, pixels: Seq<Pixel>)
    requires
        view.contains_all(pixels),
        pixels.len() > 0,
    ensures
        view.contains_all(pixels.drop_last()),
        view.contains(pixels.last().x as int, pixels.last().y as int),
{
    let front = pixels.drop_last();
    assert forall|i: int| 0 <= i < front.len() implies view.contains(
        (#[trigger] front[i]).x as int,
        front[i].y as int,
    ) by {
        assert(front[i] == pixels[i]);
    }
    assert(view.contains(pixels[pixels.len() - 1].x as int, pixels[pixels.len() - 1].y as int));
}

/// After a clear every cell of the grid is dark, so every pixel of the panel
/// reads back as zero in all three channels. The panel and the depth stay,
/// and the state is well-formed.
pub proof fn lemma_cleared_is_dark(view: Hub75View)
    ensures
        view.cleared().size == view.size,
        view.cleared().brightness_bits == view.brightness_bits,
        valid_bits(view.brightness_bits) ==> view.cleared().wf(),
        forall|r: int, c: int|
            0 <= r < view.size.spec_rows_per_half() && 0 <= c < COLUMNS
                ==> #[trigger] view.cleared().grid[r][c] == Cell::dark(),
        forall|x: int, y: int|
            view.contains(x, y) ==> #[trigger] view.cleared().pixel(x, y) == (0u8, 0u8, 0u8),
{
    lemma_blank_wf(view.size, view.brightness_bits);
    assert forall|x: int, y: int| view.contains(x, y) implies #[trigger] view.cleared().pixel(
        x,
        y,
    ) == (0u8, 0u8, 0u8) by {
        let r = view.cleared().half_row(y);
        assert(0 <= r < view.size.spec_rows_per_half());
        assert(view.cleared().grid[r][x] == Cell::dark());
    }
}

} // verus!
