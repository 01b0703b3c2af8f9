use crate::brightness::{valid_bits, Brightness};
use crate::color::levels_for;
use crate::grid::Grid;
use crate::panel::{
    all_cells_corrected, lemma_blank_wf, lemma_write_then_read, Cell, Hub75View, PanelSize, Pixel,
    COLUMNS,
};
use vstd::prelude::*;

verus! {

/// A HUB75 panel driver: the frame buffer, the brightness configuration and
/// the set of control and data lines `PINS` that the panel hangs on.
///
/// The driver stores pixels and decides, signal by signal, what a refresh
/// puts on the lines. It never touches the lines itself: it keeps them for
/// the one owner that draws and refreshes, and hands them out with
/// [`Hub75::pins`].
pub struct Hub75<PINS> {
    grid: Grid,
    brightness: Brightness,
    pins: PINS,
}

impl<PINS> Hub75<PINS> {
    /// The panel, the depth and the stored cells.
    pub closed spec fn view(&self) -> Hub75View {
        Hub75View {
            size: self.grid.size(),
            brightness_bits: self.brightness.bits(),
            grid: self.grid@,
        }
    }

    /// The lines that the driver keeps.
    pub closed spec fn lines(&self) -> PINS {
        self.pins
    }

    /// Creates a driver for a 64 x 32 panel with every pixel dark.
    ///
    /// `brightness_bits` is the number of brightness bits per channel, from
    /// one to eight. Each further bit doubles the number of sub-frames of a
    /// refresh, and with it the time a refresh takes.
    pub fn new(pins: PINS, brightness_bits: u8) -> (hub: Self)
        requires
            valid_bits(brightness_bits),
        ensures
            hub@ == Hub75View::blank(PanelSize::Size64x32, brightness_bits),
            hub@.wf(),
            hub.lines() == pins,
    {
        Self::with_size(pins, brightness_bits, PanelSize::Size64x32)
    }

    /// Creates a driver for a panel of the given size with every pixel dark.
    pub fn with_size(pins: PINS, brightness_bits: u8, size: PanelSize) -> (hub: Self)
        requires
            valid_bits(brightness_bits),
        ensures
            hub@ == Hub75View::blank(size, brightness_bits),
            hub@.wf(),
            hub.lines() == pins,
    {
        proof {
            lemma_blank_wf(size, brightness_bits);
        }
        Hub75 { grid: Grid::new(size), brightness: Brightness::new(brightness_bits), pins }
    }

    /// Creates a driver as [`Hub75::with_size`] does where `brightness_bits`
    /// is an accepted depth, and rejects every other depth before anything is
    /// set up.
    pub fn try_with_size(pins: PINS, brightness_bits: u8, size: PanelSize) -> (made: Option<Self>)
        ensures
            match made {
                Some(hub) => valid_bits(brightness_bits) && hub@ == Hub75View::blank(
                    size,
                    brightness_bits,
                ) && hub@.wf() && hub.lines() == pins,
                None => !valid_bits(brightness_bits),
            },
    {
        if 1 <= brightness_bits && brightness_bits <= 8 {
            Some(Self::with_size(pins, brightness_bits, size))
        } else {
            None
        }
    }

    /// The panel this driver was made for.
    pub fn panel_size(&self) -> (size: PanelSize)
        ensures
            size == self@.size,
            self@.wf(),
    {
        let _ = self.brightness.depth();
        self.grid.panel_size()
    }

    /// The width and the height of the panel in pixels.
    pub fn size(&self) -> (size: (u32, u32))
        ensures
            size.0 == COLUMNS,
            size.1 == self@.size.spec_height(),
            self@.wf(),
    {
        match self.panel_size() {
            PanelSize::Size64x32 => (64, 32),
            PanelSize::Size64x64 => (64, 64),
        }
    }

    /// The number of brightness bits per channel chosen at construction.
    pub fn brightness_bits(&self) -> (bits: u8)
        ensures
            bits == self@.brightness_bits,
            self@.wf(),
    {
        let _ = self.panel_size();
        self.brightness.depth()
    }

    /// The distance between neighbouring thresholds: `2^(8 - bits)`.
    pub fn brightness_step(&self) -> (step: u8)
        ensures
            step == self@.brightness_step(),
            self@.wf(),
    {
        let _ = self.panel_size();
        self.brightness.step()
    }

    /// The number of sub-frames of one refresh: `2^bits - 1`.
    pub fn brightness_count(&self) -> (count: u8)
        ensures
            count == self@.brightness_count(),
            self@.wf(),
    {
        let _ = self.panel_size();
        self.brightness.count()
    }

    /// Whether `(x, y)` is a pixel of the panel.
    pub fn contains(&self, x: i32, y: i32) -> (inside: bool)
        ensures
            inside == self@.contains(x as int, y as int),
            self@.wf(),
    {
        let height = self.panel_size().height();
        0 <= x && x < 64 && 0 <= y && (y as usize) < height
    }

    /// The cell stored for the row address `half_row` and the column
    /// `column`.
    pub fn cell(&self, half_row: usize, column: usize) -> (cell: Cell)
        requires
            half_row < self@.size.spec_rows_per_half(),
            column < COLUMNS,
        ensures
            cell == self@.grid[half_row as int][column as int],
            self@.wf(),
    {
        let _ = self.panel_size();
        self.grid.get(half_row, column)
    }

    /// The stored levels (red, green, blue) of the pixel `(x, y)`.
    pub fn pixel(&self, x: i32, y: i32) -> (levels: (u8, u8, u8))
        requires
            self@.contains(x as int, y as int),
        ensures
            levels == self@.pixel(x as int, y as int),
            self@.wf(),
    {
        let rows = self.panel_size().rows_per_half();
        let row = y as usize;
        let cell = self.grid.get(row % rows, x as usize);
        if row >= rows {
            (cell.r2, cell.g2, cell.b2)
        } else {
            (cell.r1, cell.g1, cell.b1)
        }
    }

    /// Draws one pixel: expands the 5-6-5 color `rgb565` to 8 bits per
    /// channel, corrects each channel and stores the result for `(x, y)`.
    /// Row `y` of the bottom half shares its cell with row `y - rows_per_half`
    /// of the top half.
    ///
    /// The pixel must lie on the panel: a coordinate off the panel is a
    /// mistake of the caller, which this function does not clip.
    pub fn set_pixel(&mut self, x: i32, y: i32, rgb565: u16)
        requires
            old(self)@.contains(x as int, y as int),
        ensures
            final(self)@ == old(self)@.write(x as int, y as int, rgb565),
            final(self)@.wf(),
            final(self).lines() == old(self).lines(),
    {
        let rows = self.panel_size().rows_per_half();
        let row = y as usize;
        let half_row = row % rows;
        let column = x as usize;
        let levels = levels_for(rgb565);
        let mut cell = self.grid.get(half_row, column);
        proof {
            reveal(all_cells_corrected);
            assert(self@.grid[half_row as int][column as int].is_corrected());
            lemma_write_then_read(self@, x as int, y as int, rgb565);
        }
        if row >= rows {
            cell.r2 = levels.0;
            cell.g2 = levels.1;
            cell.b2 = levels.2;
        } else {
            cell.r1 = levels.0;
            cell.g1 = levels.1;
            cell.b1 = levels.2;
        }
        self.grid.put(half_row, column, cell);
    }

    /// Draws `pixels` one after the other, first to last. Where two of them
    /// name the same pixel the later one stays.
    ///
    /// Every pixel must lie on the panel.
    pub fn draw_iter(&mut self, pixels: &[Pixel])
        requires
            old(self)@.contains_all(pixels@),
        ensures
            final(self)@ == old(self)@.draw(pixels@),
            final(self)@.wf(),
            final(self).lines() == old(self).lines(),
    {
        let _ = self.panel_size();
        let mut drawn: usize = 0;
        while drawn < pixels.len()
            invariant
                drawn <= pixels.len(),
                self@.wf(),
                self@.size == old(self)@.size,
                old(self)@.contains_all(pixels@),
                self@ == old(self)@.draw(pixels@.take(drawn as int)),
                self.lines() == old(self).lines(),
            decreases pixels.len() - drawn,
        {
            let pixel = pixels[drawn];
            assert(old(self)@.contains(
                pixels@[drawn as int].x as int,
                pixels@[drawn as int].y as int,
            ));
            assert(pixels@.take(drawn + 1).drop_last() =~= pixels@.take(drawn as int));
            self.set_pixel(pixel.x, pixel.y, pixel.color);
            drawn += 1;
        }
        assert(pixels@.take(drawn as int) =~= pixels@);
    }

    /// Sets every cell dark, without going through the color path.
    pub fn clear(&mut self)
        ensures
            final(self)@ == old(self)@.cleared(),
            final(self)@.wf(),
            final(self).lines() == old(self).lines(),
    {
        let _ = self.panel_size();
        proof {
            lemma_blank_wf(self@.size, self@.brightness_bits);
        }
        self.grid.clear();
    }

    /// Hands out the lines, for the one who performs the signals of a
    /// refresh. The frame buffer and the configuration are not touched.
    pub fn pins(&mut self) -> (pins: &mut PINS)
        ensures
            *pins == old(self).lines(),
            final(self).lines() == *final(pins),
            final(self)@ == old(self)@,
    {
        &mut self.pins
    }
}

} // verus!
