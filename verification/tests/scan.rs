use hub75::{Action, Hub75, Line, PanelSize, Scan, Step};

fn drive(line: Line, high: bool) -> Action {
    Action::Drive { line, high }
}

fn wait() -> Action {
    Action::Wait { micros: 2 }
}

/// Runs one refresh in which every action succeeds and records the actions.
fn refresh<PINS>(hub: &Hub75<PINS>) -> Vec<Action> {
    let mut scan = Scan::start();
    let mut actions = Vec::new();
    loop {
        match scan.step::<PINS, ()>(hub, Ok(())) {
            Step::Perform(action) => actions.push(action),
            Step::Finished(result) => {
                assert_eq!(result, Ok(()));
                return actions;
            }
        }
    }
}

fn count_of(actions: &[Action], wanted: Action) -> usize {
    actions.iter().filter(|action| **action == wanted).count()
}

/// The place of action `slot` of row `row` in sub-frame `subframe`.
fn position(rows: usize, row_actions: usize, subframe: usize, row: usize, slot: usize) -> usize {
    1 + (subframe * rows + row) * row_actions + slot
}

#[test]
fn a_refresh_unblanks_first_and_blanks_last() {
    let hub = Hub75::new((), 3);
    let actions = refresh(&hub);
    assert_eq!(actions[0], drive(Line::Oe, false));
    assert_eq!(actions[actions.len() - 1], drive(Line::Oe, true));
}

#[test]
fn a_refresh_has_the_same_length_for_every_row() {
    for bits in 1u8..=4 {
        let count = (1usize << bits) - 1;
        let hub = Hub75::new((), bits);
        assert_eq!(refresh(&hub).len(), 2 + count * 16 * 523);
        let tall = Hub75::with_size((), bits, PanelSize::Size64x64);
        assert_eq!(refresh(&tall).len(), 2 + count * 32 * 524);
    }
}

#[test]
fn single_white_pixel_without_pwm() {
    let mut hub = Hub75::new((), 1);
    hub.set_pixel(0, 0, 0xFFFF);
    let actions = refresh(&hub);
    assert_eq!(actions.len(), 2 + 16 * 523);
    // Column 0 of row 0 comes right after unblanking: the three lines of the
    // top half go high, those of the bottom half stay low, then the clock is
    // pulsed.
    assert_eq!(
        &actions[..9],
        &[
            drive(Line::Oe, false),
            drive(Line::R1, true),
            drive(Line::G1, true),
            drive(Line::B1, true),
            drive(Line::R2, false),
            drive(Line::G2, false),
            drive(Line::B2, false),
            drive(Line::Clk, true),
            drive(Line::Clk, false),
        ]
    );
    // No other shift cycle drives a data line high.
    for line in [Line::R1, Line::G1, Line::B1] {
        assert_eq!(count_of(&actions, drive(line, true)), 1);
        assert_eq!(count_of(&actions, drive(line, false)), 16 * 64 - 1);
    }
    for line in [Line::R2, Line::G2, Line::B2] {
        assert_eq!(count_of(&actions, drive(line, true)), 0);
        assert_eq!(count_of(&actions, drive(line, false)), 16 * 64);
    }
    assert_eq!(count_of(&actions, drive(Line::Clk, true)), 16 * 64);
    assert_eq!(count_of(&actions, drive(Line::Clk, false)), 16 * 64);
}

#[test]
fn white_in_both_halves_drives_all_six_lines_high() {
    let mut hub = Hub75::new((), 1);
    hub.set_pixel(0, 0, 0xFFFF);
    hub.set_pixel(0, 16, 0xFFFF);
    let actions = refresh(&hub);
    assert_eq!(
        &actions[1..9],
        &[
            drive(Line::R1, true),
            drive(Line::G1, true),
            drive(Line::B1, true),
            drive(Line::R2, true),
            drive(Line::G2, true),
            drive(Line::B2, true),
            drive(Line::Clk, true),
            drive(Line::Clk, false),
        ]
    );
    for line in [Line::R1, Line::G1, Line::B1, Line::R2, Line::G2, Line::B2] {
        assert_eq!(count_of(&actions, drive(line, true)), 1);
    }
}

#[test]
fn output_is_enabled_once_per_row_after_the_latch_pulse() {
    let mut hub = Hub75::new((), 1);
    hub.set_pixel(0, 0, 0xFFFF);
    let actions = refresh(&hub);
    // Once at the start, once per row.
    assert_eq!(count_of(&actions, drive(Line::Oe, false)), 1 + 16);
    assert_eq!(count_of(&actions, drive(Line::Oe, true)), 16 + 1);
    assert_eq!(count_of(&actions, drive(Line::Lat, false)), 16);
    assert_eq!(count_of(&actions, drive(Line::Lat, true)), 16);
    for row in 0..16 {
        let begin = position(16, 523, 0, row, 0);
        let of_row = &actions[begin..begin + 523];
        assert_eq!(count_of(of_row, drive(Line::Oe, false)), 1);
        let enabled = of_row.iter().position(|a| *a == drive(Line::Oe, false)).unwrap();
        let latched = of_row.iter().position(|a| *a == drive(Line::Lat, true)).unwrap();
        let blanked = of_row.iter().position(|a| *a == drive(Line::Oe, true)).unwrap();
        assert_eq!(blanked, 512);
        assert_eq!(latched, 516);
        assert_eq!(enabled, 522);
    }
}

#[test]
fn a_row_is_latched_and_shown_in_order() {
    let hub = Hub75::new((), 2);
    let actions = refresh(&hub);
    let begin = position(16, 523, 1, 3, 512);
    assert_eq!(
        &actions[begin..begin + 11],
        &[
            drive(Line::Oe, true),
            wait(),
            drive(Line::Lat, false),
            wait(),
            drive(Line::Lat, true),
            drive(Line::A, true),
            drive(Line::B, true),
            drive(Line::C, false),
            drive(Line::D, false),
            wait(),
            drive(Line::Oe, false),
        ]
    );
    assert_eq!(count_of(&actions, wait()), 3 * 16 * 3);
}

#[test]
fn row_nine_selects_a_and_d() {
    let hub = Hub75::new((), 1);
    let actions = refresh(&hub);
    let begin = position(16, 523, 0, 9, 512 + 5);
    assert_eq!(
        &actions[begin..begin + 4],
        &[
            drive(Line::A, true),
            drive(Line::B, false),
            drive(Line::C, false),
            drive(Line::D, true),
        ]
    );
}

#[test]
fn the_row_address_is_the_binary_row_number() {
    let hub = Hub75::new((), 2);
    let actions = refresh(&hub);
    for subframe in 0..3 {
        for row in 0..16 {
            let begin = position(16, 523, subframe, row, 512 + 5);
            assert_eq!(
                &actions[begin..begin + 4],
                &[
                    drive(Line::A, row & 1 != 0),
                    drive(Line::B, row & 2 != 0),
                    drive(Line::C, row & 4 != 0),
                    drive(Line::D, row & 8 != 0),
                ]
            );
        }
    }
    assert_eq!(count_of(&actions, drive(Line::F, true)), 0);
    assert_eq!(count_of(&actions, drive(Line::F, false)), 0);
}

#[test]
fn the_tall_panel_uses_the_fifth_address_line() {
    let hub = Hub75::with_size((), 1, PanelSize::Size64x64);
    let actions = refresh(&hub);
    for row in 0..32 {
        let begin = position(32, 524, 0, row, 512);
        assert_eq!(
            &actions[begin..begin + 12],
            &[
                drive(Line::Oe, true),
                wait(),
                drive(Line::Lat, false),
                wait(),
                drive(Line::Lat, true),
                drive(Line::A, row & 1 != 0),
                drive(Line::B, row & 2 != 0),
                drive(Line::C, row & 4 != 0),
                drive(Line::D, row & 8 != 0),
                drive(Line::F, row & 16 != 0),
                wait(),
                drive(Line::Oe, false),
            ]
        );
    }
    assert_eq!(count_of(&actions, drive(Line::F, true)), 16);
    assert_eq!(count_of(&actions, drive(Line::F, false)), 16);
}

#[test]
fn a_line_is_high_while_the_threshold_is_reached() {
    // Green field 49 of 63 is stored as 126. No 5-6-5 color is stored as 128:
    // the table jumps from 127 to 129.
    let mut hub = Hub75::new((), 8);
    hub.set_pixel(0, 0, 49 << 5);
    assert_eq!(hub.pixel(0, 0), (0, 126, 0));
    let actions = refresh(&hub);
    assert_eq!(actions.len(), 2 + 255 * 16 * 523);
    for subframe in 0..255 {
        let threshold = subframe + 1;
        let begin = position(16, 523, subframe, 0, 0);
        assert_eq!(actions[begin], drive(Line::R1, false));
        let lit = threshold <= 126;
        assert_eq!(actions[begin + 1], drive(Line::G1, lit), "threshold {}", threshold);
        assert_eq!(actions[begin + 2], drive(Line::B1, false));
    }
    assert_eq!(count_of(&actions, drive(Line::G1, true)), 126);
}

#[test]
fn a_full_level_is_high_in_every_subframe() {
    let mut hub = Hub75::new((), 3);
    hub.set_pixel(63, 31, 0xF800);
    let actions = refresh(&hub);
    for subframe in 0..7 {
        let begin = position(16, 523, subframe, 15, 8 * 63);
        assert_eq!(
            &actions[begin..begin + 8],
            &[
                drive(Line::R1, false),
                drive(Line::G1, false),
                drive(Line::B1, false),
                drive(Line::R2, true),
                drive(Line::G2, false),
                drive(Line::B2, false),
                drive(Line::Clk, true),
                drive(Line::Clk, false),
            ]
        );
    }
    assert_eq!(count_of(&actions, drive(Line::R2, true)), 7);
}

#[test]
fn a_level_is_quantized_by_the_step() {
    // Stored levels 40, 39, 40 at three bits: thresholds 32, 64, ..., 224.
    let mut hub = Hub75::new((), 3);
    hub.set_pixel(2, 1, 0x8410);
    let actions = refresh(&hub);
    for subframe in 0..7 {
        let begin = position(16, 523, subframe, 1, 8 * 2);
        let lit = subframe == 0;
        assert_eq!(actions[begin], drive(Line::R1, lit));
        assert_eq!(actions[begin + 1], drive(Line::G1, lit));
        assert_eq!(actions[begin + 2], drive(Line::B1, lit));
    }
}

#[test]
fn a_dark_frame_drives_no_data_line_high() {
    let hub = Hub75::new((), 2);
    let actions = refresh(&hub);
    for line in [Line::R1, Line::G1, Line::B1, Line::R2, Line::G2, Line::B2] {
        assert_eq!(count_of(&actions, drive(line, true)), 0);
        assert_eq!(count_of(&actions, drive(line, false)), 3 * 16 * 64);
    }
}

#[test]
fn a_failure_ends_the_refresh_at_once() {
    let hub = Hub75::new((), 3);
    let mut scan = Scan::start();
    assert_eq!(scan.step(&hub, Ok::<(), &str>(())), Step::Perform(drive(Line::Oe, false)));
    assert_eq!(scan.step(&hub, Ok::<(), &str>(())), Step::Perform(drive(Line::R1, false)));
    assert_eq!(scan.step(&hub, Err("stuck")), Step::Finished(Err("stuck")));
    // Nothing is left of the refresh that was given up.
    assert_eq!(scan.step(&hub, Ok::<(), &str>(())), Step::Finished(Ok(())));
}

#[test]
fn a_failure_before_the_first_action_is_handed_back() {
    let hub = Hub75::new((), 3);
    let mut scan = Scan::start();
    assert_eq!(scan.step(&hub, Err(7u8)), Step::Finished(Err(7u8)));
    assert_eq!(scan.step(&hub, Ok::<(), u8>(())), Step::Finished(Ok(())));
}

#[test]
fn a_finished_refresh_stays_finished() {
    let hub = Hub75::new((), 1);
    let mut scan = Scan::start();
    let mut performed = 0;
    while let Step::Perform(_) = scan.step(&hub, Ok::<(), ()>(())) {
        performed += 1;
    }
    assert_eq!(performed, 2 + 16 * 523);
    assert_eq!(scan.step(&hub, Ok::<(), ()>(())), Step::Finished(Ok(())));
    assert_eq!(scan.step(&hub, Ok::<(), ()>(())), Step::Finished(Ok(())));
}

#[test]
fn a_scan_for_a_taller_panel_ends_where_the_panel_ends() {
    // A scan that has reached row 16 of a tall panel has no place on a panel
    // with 16 rows per half.
    let tall = Hub75::with_size((), 1, PanelSize::Size64x64);
    let small = Hub75::new((), 1);
    let mut scan = Scan::start();
    for _ in 0..(1 + 16 * 524) {
        assert!(matches!(scan.step(&tall, Ok::<(), ()>(())), Step::Perform(_)));
    }
    assert_eq!(scan.step(&small, Ok::<(), ()>(())), Step::Finished(Ok(())));
}

#[test]
fn a_scan_reads_the_frame_as_it_is() {
    let mut hub = Hub75::new((), 1);
    let mut scan = Scan::start();
    assert_eq!(scan.step(&hub, Ok::<(), ()>(())), Step::Perform(drive(Line::Oe, false)));
    hub.set_pixel(0, 0, 0xFFFF);
    assert_eq!(scan.step(&hub, Ok::<(), ()>(())), Step::Perform(drive(Line::R1, true)));
}

#[test]
fn recording_is_the_same_as_stepping() {
    let mut hub = Hub75::new((), 2);
    hub.set_pixel(0, 0, 0xFFFF);
    hub.set_pixel(63, 31, 0x8410);
    let recorded = Scan::record(&hub);
    assert_eq!(recorded, refresh(&hub));
    assert_eq!(recorded.len(), 2 + 3 * 16 * 523);
    let tall = Hub75::with_size((), 1, PanelSize::Size64x64);
    assert_eq!(Scan::record(&tall), refresh(&tall));
}

#[test]
fn the_clock_is_pulsed_once_per_column_after_the_data_lines() {
    let mut hub = Hub75::new((), 1);
    hub.set_pixel(5, 3, 0xFFFF);
    let actions = Scan::record(&hub);
    for row in 0..16 {
        for column in 0..64 {
            let begin = position(16, 523, 0, row, 8 * column);
            let lit = row == 3 && column == 5;
            assert_eq!(
                &actions[begin..begin + 8],
                &[
                    drive(Line::R1, lit),
                    drive(Line::G1, lit),
                    drive(Line::B1, lit),
                    drive(Line::R2, false),
                    drive(Line::G2, false),
                    drive(Line::B2, false),
                    drive(Line::Clk, true),
                    drive(Line::Clk, false),
                ]
            );
        }
    }
}
