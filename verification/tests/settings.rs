use igm5000::settings::{
    code_to_dpi, dpi_to_code, SettingsBlock, BLOCK_LEN, COMMIT_MARKER, COMMIT_OFFSET, DPI_STEPS,
    FACTORY_DPI_CODES, LEVELS, LEVEL_COLORS, RATE_CODES,
};

fn factory_block() -> SettingsBlock {
    SettingsBlock::factory(&SettingsBlock::new([0; 148]))
}

fn numbered() -> [u8; BLOCK_LEN] {
    let mut raw = [0u8; BLOCK_LEN];
    for (i, byte) in raw.iter_mut().enumerate() {
        *byte = i as u8;
    }
    raw
}

#[test]
fn removing_a_level_below_the_active_one_keeps_the_active_settings() {
    let mut block = factory_block();
    block.set_current_level(3);
    let active_before = block.dpi_value(block.active_index());
    assert_eq!(active_before, 1600);

    block.remove_level(1);

    assert_eq!(block.enabled_levels(), 5);
    assert_eq!(block.active_index(), 1);
    assert_eq!(block.dpi_value(block.active_index()), active_before);
}

#[test]
fn removing_the_active_level_keeps_the_number_inside_the_profile() {
    let mut block = factory_block();
    block.set_current_level(6);

    block.remove_level(5);

    assert_eq!(block.enabled_levels(), 5);
    assert_eq!(block.current_level(), 5);
    assert_eq!(block.active_index(), 4);
}

#[test]
fn a_level_that_left_the_profile_comes_back_at_its_defaults() {
    let mut block = factory_block();
    block.set_color(5, [1, 2, 3]);

    block.remove_level(5);

    // The slot is outside the profile now: it holds no DPI and is back to
    // its default colour, so the next level to join starts clean.
    assert_eq!(block.dpi_code(5), 0);
    assert_eq!(block.color(5), LEVEL_COLORS[5]);

    block.add_level(5);

    assert_eq!(block.enabled_levels(), 6);
    assert_eq!(block.dpi_value(5), 400);
    assert_eq!(block.color(5), LEVEL_COLORS[5]);
}

#[test]
fn a_level_joining_the_profile_keeps_the_colour_picked_for_it() {
    let mut block = factory_block();
    block.remove_level(5);
    block.set_color(5, [1, 2, 3]);

    block.add_level(5);

    assert_eq!(block.enabled_levels(), 6);
    assert_eq!(block.dpi_value(5), 400);
    assert_eq!(block.color(5), [1, 2, 3]);
}

#[test]
fn a_dpi_goes_to_the_nearest_step() {
    assert_eq!(dpi_to_code(0), 1);
    assert_eq!(dpi_to_code(200), 1);
    // Halfway between two steps, the lower one is taken.
    assert_eq!(dpi_to_code(250), 1);
    assert_eq!(dpi_to_code(251), 2);
    assert_eq!(dpi_to_code(6400), 52);
    assert_eq!(dpi_to_code(6199), 51);
    assert_eq!(dpi_to_code(u16::MAX), 59);
    for (i, step) in DPI_STEPS.iter().enumerate() {
        assert_eq!(dpi_to_code(*step), i as u16 + 1);
        assert_eq!(code_to_dpi(i as u16 + 1), *step);
    }
    assert_eq!(code_to_dpi(0), 0);
    assert_eq!(code_to_dpi(60), 0);
}

#[test]
fn the_rate_keeps_the_high_nibble() {
    let mut raw = [0u8; BLOCK_LEN];
    raw[2] = 0xa0;
    let mut block = SettingsBlock::new(raw);
    assert_eq!(block.rate_hz(), 0);
    for (i, hz) in RATE_CODES.iter().enumerate() {
        block.set_rate_hz(*hz);
        assert_eq!(block.rate_hz(), *hz);
        assert_eq!(block.raw()[2], 0xa0 + i as u8 + 1);
    }
    block.set_rate_hz(333);
    assert_eq!(block.rate_hz(), 1000);
}

#[test]
fn the_level_nibbles_are_independent() {
    let mut block = SettingsBlock::new([0; BLOCK_LEN]);
    assert_eq!(block.enabled_levels(), 1);
    assert_eq!(block.active_index(), 0);
    block.set_enabled_levels(6);
    block.set_current_level(4);
    assert_eq!(block.raw()[3], 0x46);
    block.set_enabled_levels(200);
    assert_eq!(block.raw()[3], 0x48);
    block.set_enabled_levels(0);
    assert_eq!(block.raw()[3], 0x41);
}

#[test]
fn slots_hold_a_code_and_a_colour_each() {
    let mut block = SettingsBlock::new([0; BLOCK_LEN]);
    block.set_dpi_code(2, 0x0134);
    assert_eq!(block.raw()[9], 0x34);
    assert_eq!(block.raw()[10], 0x01);
    assert_eq!(block.dpi_code(2), 0x0134);
    assert_eq!(block.dpi_value(2), 0);
    block.set_color(7, [9, 8, 7]);
    assert_eq!(&block.raw()[0x3a..0x3d], &[9, 8, 7]);
    assert_eq!(block.color(6), [0, 0, 0]);
    block.set_lod(5);
    assert_eq!(block.lod(), 5);
    assert_eq!(block.raw()[0x3d], 5);
}

#[test]
fn levels_join_only_after_the_last_one() {
    let mut block = factory_block();
    let before = *block.raw();
    block.add_level(7);
    block.add_level(2);
    assert_eq!(*block.raw(), before);
    block.add_level(6);
    block.add_level(7);
    assert_eq!(block.enabled_levels(), LEVELS);
    let full = *block.raw();
    block.add_level(8);
    assert_eq!(*block.raw(), full);
}

#[test]
fn the_last_level_cannot_be_removed() {
    let mut block = SettingsBlock::new([0; BLOCK_LEN]);
    block.set_enabled_levels(1);
    block.set_current_level(1);
    let before = *block.raw();
    block.remove_level(0);
    block.remove_level(3);
    assert_eq!(*block.raw(), before);
}

#[test]
fn removal_shifts_the_later_levels_down() {
    let mut block = factory_block();
    block.remove_level(0);
    let codes: Vec<u16> = (0..8).map(|level| block.dpi_code(level)).collect();
    assert_eq!(codes, [7, 15, 31, 52, 59, 0, 0, 0]);
    assert_eq!(block.color(0), LEVEL_COLORS[1]);
    assert_eq!(block.color(4), LEVEL_COLORS[5]);
    assert_eq!(block.color(5), LEVEL_COLORS[5]);
    assert_eq!(block.current_level(), 1);
}

#[test]
fn unknown_bytes_survive_edits() {
    let raw = numbered();
    let mut block = SettingsBlock::new(raw);
    block.set_rate_hz(500);
    block.set_current_level(1);
    block.set_enabled_levels(6);
    block.set_dpi_code(0, 3);
    block.set_color(0, [1, 1, 1]);
    block.set_lod(1);
    block.remove_level(2);
    block.add_level(5);
    for i in 0..BLOCK_LEN {
        let mapped = i == 2 || i == 3 || (5..21).contains(&i) || (0x25..=0x3d).contains(&i);
        if !mapped {
            assert_eq!(block.raw()[i], raw[i], "byte {i}");
        }
    }
}

#[test]
fn the_factory_profile_is_the_vendors() {
    let current = SettingsBlock::new(numbered());
    let block = SettingsBlock::factory(&current);
    assert_eq!(block.rate_hz(), 500);
    assert_eq!(block.current_level(), 2);
    assert_eq!(block.enabled_levels(), 6);
    for level in 0..8u8 {
        assert_eq!(block.dpi_code(level), FACTORY_DPI_CODES[level as usize]);
        assert_eq!(block.color(level), LEVEL_COLORS[level as usize]);
    }
    assert_eq!(block.lod(), 9);
    assert_eq!(&block.raw()[0x8b..0x90], &[1, 2, 255, 0, 0]);
    assert_eq!(block.raw()[0], 0);
    assert_eq!(block.raw()[4], 4);
    assert_eq!(block.raw()[COMMIT_OFFSET], COMMIT_OFFSET as u8);
    assert_eq!(COMMIT_MARKER, 0xa5);
    assert_eq!(*SettingsBlock::factory(&block).raw(), *block.raw());
}

#[test]
fn the_led_fields_have_their_places() {
    let mut block = SettingsBlock::new([0; BLOCK_LEN]);
    block.set_led_effect(4);
    block.set_led_arg(5);
    block.set_led_color([6, 7, 8]);
    assert_eq!(&block.raw()[0x8b..0x90], &[4, 5, 6, 7, 8]);
}

#[test]
fn the_dump_has_sixteen_bytes_per_row() {
    let dump = SettingsBlock::new(numbered()).hex_dump();
    let lines: Vec<&str> = dump.lines().collect();
    assert_eq!(lines.len(), 10);
    assert_eq!(
        lines[0],
        "0000  00 01 02 03 04 05 06 07 08 09 0a 0b 0c 0d 0e 0f"
    );
    assert_eq!(lines[9], "0090  90 91 92 93");
    assert!(dump.ends_with("93\n"));
}
