//! Driver logic for HUB75 RGB LED matrix panels.
//!
//! A HUB75 panel is split into a top and a bottom half. Each half has its own
//! red, green and blue shift register, and one row of each half is lit at a
//! time: the row that the address lines select. The panel knows no
//! brightness levels, so a refresh shows the frame several times over and
//! lights a channel only in the sub-frames whose threshold its level has
//! reached.
//!
//! [`Hub75`] keeps the frame buffer: pixels are written in the 16-bit 5-6-5
//! format and stored as corrected 8-bit levels. [`Scan`] decides, action by
//! action, what a refresh puts on the lines; performing the actions is left
//! to the caller, who owns the lines and the clock.

pub mod brightness;
pub mod color;
pub mod gamma;
mod grid;
pub mod hub;
pub mod layout;
pub mod panel;
pub mod scan;
pub mod signal;

pub use hub::Hub75;
pub use panel::{Cell, Hub75View, PanelSize, Pixel};
pub use scan::{Scan, Step};
pub use signal::{Action, Line};
