use hub75::color::levels_for;
use hub75::{Cell, Hub75, PanelSize, Pixel};

const DARK: Cell = Cell { r1: 0, g1: 0, b1: 0, r2: 0, g2: 0, b2: 0 };

fn all_cells<PINS>(hub: &Hub75<PINS>, rows: usize) -> Vec<Cell> {
    let mut cells = Vec::new();
    for row in 0..rows {
        for column in 0..64 {
            cells.push(hub.cell(row, column));
        }
    }
    cells
}

#[test]
fn a_new_driver_is_dark() {
    let hub = Hub75::new((), 3);
    assert!(all_cells(&hub, 16).iter().all(|cell| *cell == DARK));
    let tall = Hub75::with_size((), 3, PanelSize::Size64x64);
    assert!(all_cells(&tall, 32).iter().all(|cell| *cell == DARK));
}

#[test]
fn size_follows_the_panel() {
    assert_eq!(Hub75::new((), 3).size(), (64, 32));
    assert_eq!(Hub75::with_size((), 3, PanelSize::Size64x32).size(), (64, 32));
    assert_eq!(Hub75::with_size((), 3, PanelSize::Size64x64).size(), (64, 64));
    assert_eq!(Hub75::new((), 3).panel_size(), PanelSize::Size64x32);
    assert_eq!(PanelSize::Size64x32.rows_per_half(), 16);
    assert_eq!(PanelSize::Size64x64.rows_per_half(), 32);
    assert_eq!(PanelSize::Size64x32.height(), 32);
    assert_eq!(PanelSize::Size64x64.height(), 64);
    assert!(!PanelSize::Size64x32.five_address_lines());
    assert!(PanelSize::Size64x64.five_address_lines());
}

#[test]
fn contains_is_the_panel_rectangle() {
    let hub = Hub75::new((), 3);
    assert!(hub.contains(0, 0));
    assert!(hub.contains(63, 31));
    assert!(!hub.contains(64, 0));
    assert!(!hub.contains(0, 32));
    assert!(!hub.contains(-1, 0));
    assert!(!hub.contains(0, -1));
    assert!(!hub.contains(i32::MAX, i32::MAX));
    assert!(!hub.contains(i32::MIN, i32::MIN));
    let tall = Hub75::with_size((), 3, PanelSize::Size64x64);
    assert!(tall.contains(63, 63));
    assert!(!tall.contains(63, 64));
}

#[test]
fn a_written_pixel_reads_back_corrected() {
    let mut hub = Hub75::new((), 3);
    hub.set_pixel(3, 5, 0x8410);
    assert_eq!(hub.pixel(3, 5), (40, 39, 40));
    assert_eq!(hub.pixel(3, 5), levels_for(0x8410));
    assert_eq!(hub.cell(5, 3), Cell { r1: 40, g1: 39, b1: 40, r2: 0, g2: 0, b2: 0 });
    // The raw fields (16, 32, 16) are not what is stored.
    assert_ne!(hub.pixel(3, 5), (16, 32, 16));
}

#[test]
fn a_write_touches_one_pixel_only() {
    let mut hub = Hub75::new((), 3);
    hub.set_pixel(10, 20, 0xFFFF);
    for y in 0..32 {
        for x in 0..64 {
            let expected = if (x, y) == (10, 20) { (255, 255, 255) } else { (0, 0, 0) };
            assert_eq!(hub.pixel(x, y), expected, "pixel ({}, {})", x, y);
        }
    }
}

#[test]
fn a_later_write_replaces_an_earlier_one() {
    let mut hub = Hub75::new((), 3);
    hub.set_pixel(1, 1, 0xFFFF);
    hub.set_pixel(1, 1, 0x1234);
    assert_eq!(hub.pixel(1, 1), (0, 7, 75));
}

#[test]
fn both_halves_share_a_cell() {
    let mut hub = Hub75::new((), 3);
    hub.set_pixel(7, 4, 0xF800);
    assert_eq!(hub.cell(4, 7), Cell { r1: 255, g1: 0, b1: 0, r2: 0, g2: 0, b2: 0 });
    hub.set_pixel(7, 4 + 16, 0x001F);
    assert_eq!(hub.cell(4, 7), Cell { r1: 255, g1: 0, b1: 0, r2: 0, g2: 0, b2: 255 });
    assert_eq!(hub.pixel(7, 4), (255, 0, 0));
    assert_eq!(hub.pixel(7, 20), (0, 0, 255));
}

#[test]
fn both_halves_share_a_cell_in_either_order() {
    let mut first = Hub75::new((), 3);
    first.set_pixel(0, 15, 0xABCD);
    first.set_pixel(0, 31, 0x8410);
    let mut second = Hub75::new((), 3);
    second.set_pixel(0, 31, 0x8410);
    second.set_pixel(0, 15, 0xABCD);
    let expected = Cell { r1: 86, g1: 32, b1: 22, r2: 40, g2: 39, b2: 40 };
    assert_eq!(first.cell(15, 0), expected);
    assert_eq!(second.cell(15, 0), expected);
    assert_eq!(all_cells(&first, 16), all_cells(&second, 16));
}

#[test]
fn both_halves_share_a_cell_on_the_tall_panel() {
    let mut hub = Hub75::with_size((), 3, PanelSize::Size64x64);
    hub.set_pixel(63, 16, 0xFFFF);
    hub.set_pixel(63, 48, 0x07E0);
    assert_eq!(hub.cell(16, 63), Cell { r1: 255, g1: 255, b1: 255, r2: 0, g2: 255, b2: 0 });
    hub.set_pixel(0, 31, 0x001F);
    hub.set_pixel(0, 63, 0xF800);
    assert_eq!(hub.cell(31, 0), Cell { r1: 0, g1: 0, b1: 255, r2: 255, g2: 0, b2: 0 });
}

#[test]
fn the_corners_are_stored_in_the_corner_cells() {
    let mut hub = Hub75::new((), 3);
    hub.set_pixel(0, 0, 0xFFFF);
    hub.set_pixel(63, 31, 0xFFFF);
    assert_eq!(hub.cell(0, 0), Cell { r1: 255, g1: 255, b1: 255, r2: 0, g2: 0, b2: 0 });
    assert_eq!(hub.cell(15, 63), Cell { r1: 0, g1: 0, b1: 0, r2: 255, g2: 255, b2: 255 });
}

#[test]
fn clear_darkens_every_cell() {
    let mut hub = Hub75::new((), 3);
    for y in 0..32 {
        for x in 0..64 {
            hub.set_pixel(x, y, 0xFFFF);
        }
    }
    assert!(all_cells(&hub, 16).iter().all(|cell| *cell != DARK));
    hub.clear();
    assert!(all_cells(&hub, 16).iter().all(|cell| *cell == DARK));
    for y in 0..32 {
        for x in 0..64 {
            assert_eq!(hub.pixel(x, y), (0, 0, 0));
        }
    }
    assert_eq!(hub.size(), (64, 32));
    assert_eq!(hub.brightness_bits(), 3);
}

#[test]
fn clear_darkens_the_tall_panel() {
    let mut hub = Hub75::with_size((), 5, PanelSize::Size64x64);
    hub.set_pixel(5, 5, 0xFFFF);
    hub.set_pixel(5, 60, 0xFFFF);
    hub.clear();
    assert!(all_cells(&hub, 32).iter().all(|cell| *cell == DARK));
    assert_eq!(hub.size(), (64, 64));
}

#[test]
fn draw_iter_draws_first_to_last() {
    let mut hub = Hub75::new((), 3);
    let pixels = vec![
        Pixel { x: 0, y: 0, color: 0xFFFF },
        Pixel { x: 1, y: 17, color: 0xF800 },
        Pixel { x: 0, y: 0, color: 0x8410 },
        Pixel { x: 63, y: 31, color: 0x001F },
    ];
    hub.draw_iter(&pixels);
    assert_eq!(hub.pixel(0, 0), (40, 39, 40));
    assert_eq!(hub.pixel(1, 17), (255, 0, 0));
    assert_eq!(hub.pixel(63, 31), (0, 0, 255));
    assert_eq!(hub.cell(1, 1), Cell { r1: 0, g1: 0, b1: 0, r2: 255, g2: 0, b2: 0 });
    let lit = all_cells(&hub, 16).iter().filter(|cell| **cell != DARK).count();
    assert_eq!(lit, 3);
}

#[test]
fn draw_iter_of_nothing_changes_nothing() {
    let mut hub = Hub75::new((), 3);
    hub.set_pixel(2, 2, 0xFFFF);
    let before = all_cells(&hub, 16);
    hub.draw_iter(&[]);
    assert_eq!(all_cells(&hub, 16), before);
}

#[test]
fn draw_iter_is_the_same_as_single_writes() {
    let pixels = [
        Pixel { x: 5, y: 5, color: 0x1234 },
        Pixel { x: 5, y: 21, color: 0xABCD },
        Pixel { x: 6, y: 5, color: 0x07E0 },
    ];
    let mut batch = Hub75::new((), 4);
    batch.draw_iter(&pixels);
    let mut single = Hub75::new((), 4);
    for pixel in pixels.iter() {
        single.set_pixel(pixel.x, pixel.y, pixel.color);
    }
    assert_eq!(all_cells(&batch, 16), all_cells(&single, 16));
}

#[test]
fn the_lines_are_kept_and_handed_out() {
    let mut hub = Hub75::new(41u32, 3);
    assert_eq!(*hub.pins(), 41);
    *hub.pins() += 1;
    hub.set_pixel(0, 0, 0xFFFF);
    hub.clear();
    assert_eq!(*hub.pins(), 42);
}

#[test]
fn a_depth_out_of_range_is_rejected() {
    assert!(Hub75::try_with_size((), 0, PanelSize::Size64x32).is_none());
    assert!(Hub75::try_with_size((), 9, PanelSize::Size64x32).is_none());
    assert!(Hub75::try_with_size((), 255, PanelSize::Size64x64).is_none());
}

#[test]
fn every_depth_in_range_is_accepted() {
    for bits in 1u8..=8 {
        let hub = Hub75::try_with_size(bits, bits, PanelSize::Size64x64).unwrap();
        assert_eq!(hub.brightness_bits(), bits);
        assert_eq!(hub.size(), (64, 64));
        assert!(all_cells(&hub, 32).iter().all(|cell| *cell == DARK));
        let mut hub = hub;
        assert_eq!(*hub.pins(), bits);
    }
}

#[test]
fn the_buffer_holds_corrected_levels_only() {
    let mut entries = [false; 256];
    for level in 0u8..=255 {
        entries[hub75::gamma::gamma8(level) as usize] = true;
    }
    let mut hub = Hub75::new((), 3);
    let mut color = 0x0001u16;
    for y in 0..32 {
        for x in 0..64 {
            hub.set_pixel(x, y, color);
            color = color.wrapping_mul(31).wrapping_add(7);
        }
    }
    for cell in all_cells(&hub, 16) {
        for level in [cell.r1, cell.g1, cell.b1, cell.r2, cell.g2, cell.b2] {
            assert!(entries[level as usize]);
        }
    }
}
