//! Laws of the settings block: what its setters give back, what they keep, and
//! how adding and removing levels acts on the profile as a list.
use crate::settings::{
    BLOCK_LEN, DPI_STEPS, FACTORY_DPI_CODES, LEVELS, LEVEL_COLORS, RATE_CODES,
};
use vstd::prelude::*;

verus! {

/// One level of the profile: its DPI code and its colour.
pub struct Level {
    pub code: u16,
    pub color: Seq<u8>,
}

/// What a level slot holds.
pub open spec fn slot(block: Seq<u8>, level: int) -> Level {
    Level {
        code: crate::settings::code_at(block, level),
        color: crate::settings::color_at(block, level),
    }
}

/// The profile of a block: the levels that the mouse cycles through.
pub open spec fn profile(block: Seq<u8>) -> Seq<Level> {
    Seq::new(crate::settings::level_count(block) as nat, |level: int| slot(block, level))
}

/// No level that the mouse can reach is without a DPI.
pub open spec fn reachable_levels_have_dpi(block: Seq<u8>) -> bool {
    forall|level: int|
        0 <= level < crate::settings::level_count(block) ==> #[trigger] crate::settings::code_at(
            block,
            level,
        ) != 0
}

/// The bytes that the app maps to a field: the rate, the level nibbles, the
/// DPI codes and colours of the eight slots, and the lift-off distance.
pub open spec fn is_mapped(i: int) -> bool {
    i == 2 || i == 3 || 5 <= i < 21 || 0x25 <= i < 0x3d || i == 0x3d
}

/// The bytes of the LED fields, which only the factory profile writes.
pub open spec fn is_led(i: int) -> bool {
    0x8b <= i < 0x90
}

/// Every edit that the app makes to a block.
pub enum Edit {
    Rate(u16),
    LevelNumber(u8),
    LevelCount(u8),
    Add(u8),
    Remove(u8),
    Code { level: u8, code: u16 },
    Color { level: u8, rgb: Seq<u8> },
    Lod(u8),
}

/// An edit of one of the eight level slots, or of no slot.
pub open spec fn edit_in_range(edit: Edit) -> bool {
    match edit {
        Edit::Code { level, .. } => level < LEVELS,
        Edit::Color { level, rgb } => level < LEVELS && rgb.len() == 3,
        _ => true,
    }
}

/// The block after an edit.
pub open spec fn edited(block: Seq<u8>, edit: Edit) -> Seq<u8> {
    match edit {
        Edit::Rate(hz) => crate::settings::with_rate(block, hz),
        Edit::LevelNumber(number) => crate::settings::with_level_number(block, number),
        Edit::LevelCount(count) => crate::settings::with_level_count(block, count),
        Edit::Add(level) => crate::settings::with_level_added(block, level),
        Edit::Remove(level) => crate::settings::with_level_removed(block, level),
        Edit::Code { level, code } => crate::settings::with_code(block, level as int, code),
        Edit::Color { level, rgb } => crate::settings::with_color(block, level as int, rgb),
        Edit::Lod(v) => block.update(0x3d, v),
    }
}

/// The block after a run of edits.
pub open spec fn edited_by_all(block: Seq<u8>, edits: Seq<Edit>) -> Seq<u8>
    decreases edits.len(),
{
    if edits.len() == 0 {
        block
    } else {
        edited(edited_by_all(block, edits.drop_last()), edits.last())
    }
}

/// One edit keeps the length of the block, every byte that is not mapped, and
/// the high nibble of the rate byte.
proof fn lemma_edit_keeps_the_rest(block: Seq<u8>, edit: Edit)
    requires
        block.len() == BLOCK_LEN,
        edit_in_range(edit),
    ensures
        edited(block, edit).len() == BLOCK_LEN,
        forall|i: int|
            0 <= i < BLOCK_LEN && !is_mapped(i) ==> #[trigger] edited(block, edit)[i] == block[i],
        edited(block, edit)[2] / 16 == block[2] / 16,
{
}

/// Unknown fields survive any number of edits: every byte that is not mapped
/// to a field stays as it was, and so does the high nibble of the rate byte,
/// which holds the split-X/Y flag.
pub proof fn law_unknown_fields_survive(block: Seq<u8>, edits: Seq<Edit>)
    requires
        block.len() == BLOCK_LEN,
        forall|k: int| 0 <= k < edits.len() ==> edit_in_range(#[trigger] edits[k]),
    ensures
        edited_by_all(block, edits).len() == BLOCK_LEN,
        forall|i: int|
            0 <= i < BLOCK_LEN && !is_mapped(i) ==> #[trigger] edited_by_all(block, edits)[i]
                == block[i],
        edited_by_all(block, edits)[2] / 16 == block[2] / 16,
    decreases edits.len(),
{
    if edits.len() > 0 {
        let before = edits.drop_last();
        law_unknown_fields_survive(block, before);
        lemma_edit_keeps_the_rest(edited_by_all(block, before), edits.last());
    }
}

/// A rate of the table is read back as it was set.
pub proof fn law_rate_reads_back(block: Seq<u8>, hz: u16)
    requires
        block.len() == BLOCK_LEN,
        RATE_CODES@.contains(hz),
    ensures
        crate::settings::rate_of(crate::settings::with_rate(block, hz)) == hz,
{
    let k = choose|k: int| 0 <= k < RATE_CODES@.len() && RATE_CODES@[k] == hz;
    assert(k == 0 || k == 1 || k == 2 || k == 3);
}

/// A DPI code and a colour are read back as they were set, and setting one slot
/// leaves every other slot alone.
pub proof fn law_slots_read_back(block: Seq<u8>, level: int, other: int, code: u16, rgb: Seq<u8>)
    requires
        block.len() == BLOCK_LEN,
        0 <= level < LEVELS,
        0 <= other < LEVELS,
        rgb.len() == 3,
    ensures
        crate::settings::code_at(crate::settings::with_code(block, level, code), level) == code,
        crate::settings::color_at(crate::settings::with_color(block, level, rgb), level) == rgb,
        other != level ==> slot(crate::settings::with_code(block, level, code), other) == slot(
            block,
            other,
        ),
        other != level ==> slot(crate::settings::with_color(block, level, rgb), other) == slot(
            block,
            other,
        ),
{
    let coded = crate::settings::with_code(block, level, code);
    let colored = crate::settings::with_color(block, level, rgb);
    assert(crate::settings::color_at(colored, level) =~= rgb);
    if other != level {
        assert(crate::settings::color_at(coded, other) =~= crate::settings::color_at(
            block,
            other,
        ));
        assert(crate::settings::color_at(colored, other) =~= crate::settings::color_at(
            block,
            other,
        ));
    }
}

/// The level nibbles are read back as they were set, each without the other.
pub proof fn law_level_nibbles_read_back(block: Seq<u8>, number: u8, count: u8)
    requires
        block.len() == BLOCK_LEN,
        number < 16,
        1 <= count <= LEVELS,
    ensures
        crate::settings::level_number(crate::settings::with_level_number(block, number)) == number,
        crate::settings::level_count(crate::settings::with_level_number(block, number))
            == crate::settings::level_count(block),
        crate::settings::level_count(crate::settings::with_level_count(block, count)) == count,
        crate::settings::level_number(crate::settings::with_level_count(block, count))
            == crate::settings::level_number(block),
{
}

/// Removing a level takes it out of the profile and keeps the order of the
/// others.
pub proof fn law_removal_shifts_the_profile(block: Seq<u8>, level: u8)
    requires
        block.len() == BLOCK_LEN,
        level < crate::settings::level_count(block),
        crate::settings::level_count(block) >= 2,
    ensures
        profile(crate::settings::with_level_removed(block, level)) == profile(block).remove(
            level as int,
        ),
{
    let count = crate::settings::level_count(block);
    let removed = crate::settings::with_level_removed(block, level);
    let number = crate::settings::number_after_removal(
        crate::settings::level_number(block),
        level,
        count,
    );
    assert(0 <= number < 16);
    assert(removed[3] == number * 16 + (count - 1));
    assert(crate::settings::level_count(removed) == count - 1);
    assert forall|k: int| 0 <= k < count - 1 implies slot(removed, k) == profile(block).remove(
        level as int,
    )[k] by {
        let from = if k < level {
            k
        } else {
            k + 1
        };
        assert(crate::settings::color_at(removed, k) =~= crate::settings::color_at(block, from));
    }
    assert(profile(removed) =~= profile(block).remove(level as int));
}

/// A level that left the profile goes back to its defaults: its slot holds no
/// DPI and its default colour.
pub proof fn law_removed_slot_goes_back_to_defaults(block: Seq<u8>, level: u8)
    requires
        block.len() == BLOCK_LEN,
        level < crate::settings::level_count(block),
        crate::settings::level_count(block) >= 2,
    ensures
        slot(
            crate::settings::with_level_removed(block, level),
            crate::settings::level_count(block) - 1,
        ) == (Level {
            code: 0,
            color: LEVEL_COLORS@[crate::settings::level_count(block) - 1]@,
        }),
{
    let last = crate::settings::level_count(block) - 1;
    let removed = crate::settings::with_level_removed(block, level);
    assert(crate::settings::color_at(removed, last) =~= LEVEL_COLORS@[last]@);
}

/// Removing a level below the active one keeps the active settings.
pub proof fn law_removal_below_the_active_level_keeps_its_settings(block: Seq<u8>, level: u8)
    requires
        block.len() == BLOCK_LEN,
        crate::settings::level_count(block) >= 2,
        level + 1 < crate::settings::level_number(block) <= crate::settings::level_count(block),
    ensures
        ({
            let removed = crate::settings::with_level_removed(block, level);
            &&& crate::settings::level_index(removed) == crate::settings::level_index(block) - 1
            &&& slot(removed, crate::settings::level_index(removed) as int) == slot(
                block,
                crate::settings::level_index(block) as int,
            )
        }),
{
    let count = crate::settings::level_count(block);
    let removed = crate::settings::with_level_removed(block, level);
    let index = crate::settings::level_index(block) as int;
    assert(crate::settings::number_after_removal(
        crate::settings::level_number(block),
        level,
        count,
    ) == index);
    assert(removed[3] == index * 16 + (count - 1));
    assert(crate::settings::color_at(removed, index - 1) =~= crate::settings::color_at(
        block,
        index,
    ));
}

/// A removal keeps the active number inside the profile, wherever it was
/// before, unless the block named no level at all.
pub proof fn law_removal_keeps_the_number_inside_the_profile(block: Seq<u8>, level: u8)
    requires
        block.len() == BLOCK_LEN,
        level < crate::settings::level_count(block),
        crate::settings::level_count(block) >= 2,
        crate::settings::level_number(block) >= 1,
    ensures
        1 <= crate::settings::level_number(crate::settings::with_level_removed(block, level))
            <= crate::settings::level_count(crate::settings::with_level_removed(block, level)),
{
    let count = crate::settings::level_count(block);
    let removed = crate::settings::with_level_removed(block, level);
    let number = crate::settings::number_after_removal(
        crate::settings::level_number(block),
        level,
        count,
    );
    assert(removed[3] == number * 16 + (count - 1));
}

/// Adding the level after the last one appends it to the profile, with its
/// colour left alone and with 400 dpi where it had none; the active number
/// stays.
pub proof fn law_addition_appends_to_the_profile(block: Seq<u8>)
    requires
        block.len() == BLOCK_LEN,
        crate::settings::level_count(block) < LEVELS,
    ensures
        ({
            let level = crate::settings::level_count(block);
            let added = crate::settings::with_level_added(block, level);
            let code = crate::settings::code_at(block, level as int);
            &&& profile(added) == profile(block).push(
                Level {
                    code: if code == 0 {
                        3
                    } else {
                        code
                    },
                    color: crate::settings::color_at(block, level as int),
                },
            )
            &&& crate::settings::level_number(added) == crate::settings::level_number(block)
        }),
        crate::settings::dpi_of_code(3) == 400,
{
    let level = crate::settings::level_count(block);
    let added = crate::settings::with_level_added(block, level);
    let code = crate::settings::code_at(block, level as int);
    assert(added[3] == block[3] / 16 * 16 + (level + 1));
    assert forall|k: int| 0 <= k <= level implies #[trigger] crate::settings::color_at(added, k)
        == crate::settings::color_at(block, k) by {
        assert(crate::settings::color_at(added, k) =~= crate::settings::color_at(block, k));
    }
    assert(profile(added) =~= profile(block).push(
        Level {
            code: if code == 0 {
                3
            } else {
                code
            },
            color: crate::settings::color_at(block, level as int),
        },
    ));
    assert(DPI_STEPS@[2] == 400);
}

/// A level that left the profile comes back at its defaults: 400 dpi and the
/// default colour of its slot.
pub proof fn law_a_removed_level_comes_back_at_its_defaults(block: Seq<u8>, level: u8)
    requires
        block.len() == BLOCK_LEN,
        level < crate::settings::level_count(block),
        crate::settings::level_count(block) >= 2,
    ensures
        ({
            let last = (crate::settings::level_count(block) - 1) as u8;
            let back = crate::settings::with_level_added(
                crate::settings::with_level_removed(block, level),
                last,
            );
            profile(back) == profile(block).remove(level as int).push(
                Level { code: 3, color: LEVEL_COLORS@[last as int]@ },
            )
        }),
{
    let removed = crate::settings::with_level_removed(block, level);
    law_removal_shifts_the_profile(block, level);
    law_removed_slot_goes_back_to_defaults(block, level);
    assert(crate::settings::level_count(removed) == profile(removed).len());
    law_addition_appends_to_the_profile(removed);
}

/// Adding and removing levels never makes a level without a DPI reachable.
pub proof fn law_reachable_levels_keep_a_dpi(block: Seq<u8>, level: u8)
    requires
        block.len() == BLOCK_LEN,
        reachable_levels_have_dpi(block),
    ensures
        reachable_levels_have_dpi(crate::settings::with_level_added(block, level)),
        reachable_levels_have_dpi(crate::settings::with_level_removed(block, level)),
{
    let count = crate::settings::level_count(block);
    let added = crate::settings::with_level_added(block, level);
    let removed = crate::settings::with_level_removed(block, level);
    if level == count && count < LEVELS {
        law_addition_appends_to_the_profile(block);
        assert(crate::settings::level_count(added) == profile(added).len());
        assert forall|k: int|
            0 <= k < crate::settings::level_count(added) implies #[trigger] crate::settings::code_at(
            added,
            k,
        ) != 0 by {
            assert(profile(added)[k].code == crate::settings::code_at(added, k));
            if k < count {
                assert(profile(block)[k].code == crate::settings::code_at(block, k));
            }
        }
    }
    if level < count && count >= 2 {
        law_removal_shifts_the_profile(block, level);
        assert(crate::settings::level_count(removed) == profile(removed).len());
        assert forall|k: int|
            0 <= k < crate::settings::level_count(
                removed,
            ) implies #[trigger] crate::settings::code_at(removed, k) != 0 by {
            assert(profile(removed)[k].code == crate::settings::code_at(removed, k));
            let from = if k < level {
                k
            } else {
                k + 1
            };
            assert(profile(block)[from].code == crate::settings::code_at(block, from));
        }
    }
}

/// The factory profile: 500 Hz, the second of six levels active, the table's
/// DPI and colours, LOD 9, and a DPI on every reachable level. It keeps every
/// byte outside the profile and the LED fields, and the high nibble of the rate
/// byte.
pub proof fn law_factory_profile(current: Seq<u8>)
    requires
        current.len() == BLOCK_LEN,
    ensures
        ({
            let block = crate::settings::factory_bytes(current);
            &&& block.len() == BLOCK_LEN
            &&& crate::settings::rate_of(block) == 500
            &&& crate::settings::level_number(block) == 2
            &&& crate::settings::level_count(block) == 6
            &&& block[0x3d] == 9
            &&& forall|level: int|
                0 <= level < LEVELS ==> #[trigger] slot(block, level) == (Level {
                    code: FACTORY_DPI_CODES@[level],
                    color: LEVEL_COLORS@[level]@,
                })
            &&& reachable_levels_have_dpi(block)
            &&& forall|i: int|
                0 <= i < BLOCK_LEN && !is_mapped(i) && !is_led(i) ==> #[trigger] block[i]
                    == current[i]
            &&& block[2] / 16 == current[2] / 16
        }),
{
    let block = crate::settings::factory_bytes(current);
    assert(RATE_CODES@[2] == 500);
    assert forall|level: int| 0 <= level < LEVELS implies #[trigger] slot(block, level) == (Level {
        code: FACTORY_DPI_CODES@[level],
        color: LEVEL_COLORS@[level]@,
    }) by {
        assert(crate::settings::color_at(block, level) =~= LEVEL_COLORS@[level]@);
    }
    assert forall|level: int|
        0 <= level < crate::settings::level_count(block) implies #[trigger] crate::settings::code_at(
        block,
        level,
    ) != 0 by {
        assert(slot(block, level).code == FACTORY_DPI_CODES@[level]);
        assert(level == 0 || level == 1 || level == 2 || level == 3 || level == 4 || level == 5);
    }
}

/// Restoring the factory profile twice is restoring it once.
pub proof fn law_factory_twice_is_factory_once(current: Seq<u8>)
    requires
        current.len() == BLOCK_LEN,
    ensures
        crate::settings::factory_bytes(crate::settings::factory_bytes(current))
            == crate::settings::factory_bytes(current),
{
    assert(crate::settings::factory_bytes(crate::settings::factory_bytes(current))
        =~= crate::settings::factory_bytes(current));
}

/// The DPI steps rise from entry to entry.
proof fn lemma_steps_rise(i: int, j: int)
    requires
        0 <= i < j < 59,
    ensures
        DPI_STEPS@[i] < DPI_STEPS@[j],
{
    lemma_step(i);
    lemma_step(j);
}

/// The entries of the DPI table, by formula up to 5000 and one by one after it.
proof fn lemma_step(i: int)
    requires
        0 <= i < 59,
    ensures
        i <= 48 ==> DPI_STEPS@[i] == 200 + 100 * i,
        i == 49 ==> DPI_STEPS@[i] == 5500,
        i == 50 ==> DPI_STEPS@[i] == 6000,
        i == 51 ==> DPI_STEPS@[i] == 6400,
        i >= 52 ==> DPI_STEPS@[i] == 7000 + 500 * (i - 52),
{
    assert(i == 0 || i == 1 || i == 2 || i == 3 || i == 4 || i == 5 || i == 6 || i == 7 || i == 8
        || i == 9 || i == 10 || i == 11 || i == 12 || i == 13 || i == 14 || i == 15 || i == 16 || i
        == 17 || i == 18 || i == 19 || i == 20 || i == 21 || i == 22 || i == 23 || i == 24 || i
        == 25 || i == 26 || i == 27 || i == 28 || i == 29 || i == 30 || i == 31 || i == 32 || i
        == 33 || i == 34 || i == 35 || i == 36 || i == 37 || i == 38 || i == 39 || i == 40 || i
        == 41 || i == 42 || i == 43 || i == 44 || i == 45 || i == 46 || i == 47 || i == 48 || i
        == 49 || i == 50 || i == 51 || i == 52 || i == 53 || i == 54 || i == 55 || i == 56 || i
        == 57 || i == 58);
}

/// A step of the table is stored and shown as itself, and each code of the
/// table is the code of the step it stands for.
pub proof fn law_table_steps_read_back(code: u16, nearest: u16)
    requires
        1 <= code <= 59,
        crate::settings::is_nearest_code(crate::settings::dpi_of_code(code), nearest),
    ensures
        nearest == code,
        crate::settings::dpi_of_code(nearest) == crate::settings::dpi_of_code(code),
{
    let dpi = crate::settings::dpi_of_code(code);
    assert(crate::settings::step_distance(code - 1, dpi) == 0);
    assert(crate::settings::step_distance(nearest - 1, dpi) == 0);
    if nearest < code {
        lemma_steps_rise(nearest - 1, code - 1);
    } else if code < nearest {
        lemma_steps_rise(code - 1, nearest - 1);
    }
}

proof fn lemma_nearest_of_first(dpi: u16, n: int) -> (best: int)
    requires
        1 <= n <= 59,
    ensures
        0 <= best < n,
        forall|j: int|
            0 <= j < n ==> crate::settings::step_distance(best, dpi)
                <= #[trigger] crate::settings::step_distance(j, dpi),
        forall|j: int|
            0 <= j < best ==> crate::settings::step_distance(best, dpi)
                < #[trigger] crate::settings::step_distance(j, dpi),
    decreases n,
{
    if n == 1 {
        0
    } else {
        let best = lemma_nearest_of_first(dpi, n - 1);
        if crate::settings::step_distance(n - 1, dpi) < crate::settings::step_distance(best, dpi) {
            n - 1
        } else {
            best
        }
    }
}

/// Every DPI has a nearest entry in the table.
pub proof fn law_every_dpi_has_a_nearest_code(dpi: u16)
    ensures
        exists|code: u16| crate::settings::is_nearest_code(dpi, code),
{
    let best = lemma_nearest_of_first(dpi, 59);
    assert(crate::settings::is_nearest_code(dpi, (best + 1) as u16));
}

/// Each DPI has exactly one code.
pub proof fn law_nearest_code_is_unique(dpi: u16, a: u16, b: u16)
    requires
        crate::settings::is_nearest_code(dpi, a),
        crate::settings::is_nearest_code(dpi, b),
    ensures
        a == b,
{
    assert(crate::settings::step_distance(a - 1, dpi) <= crate::settings::step_distance(
        b - 1,
        dpi,
    ));
    assert(crate::settings::step_distance(b - 1, dpi) <= crate::settings::step_distance(
        a - 1,
        dpi,
    ));
}

// ---------------------------------------------------------------------------
// where the fields stand
// ---------------------------------------------------------------------------

/// The fields of a block stand where the device has them: the rate in the low
/// nibble of byte 2 as its place among 125, 250, 500 and 1000 Hz, the active
/// number and the level count in the nibbles of byte 3, the codes from byte 5 on
/// with the low byte first, and the colours from byte 0x25 on.
pub proof fn law_fields_stand_in_their_bytes(block: Seq<u8>, level: int)
    requires
        block.len() == BLOCK_LEN,
        0 <= level < 8,
    ensures
        crate::settings::rate_of(block) == if block[2] % 16 == 1 {
            125
        } else if block[2] % 16 == 2 {
            250
        } else if block[2] % 16 == 3 {
            500
        } else if block[2] % 16 == 4 {
            1000
        } else {
            0int
        },
        crate::settings::level_number(block) * 16 <= block[3] < crate::settings::level_number(block)
            * 16 + 16,
        1 <= crate::settings::level_count(block) <= 8,
        1 <= block[3] % 16 <= 8 ==> crate::settings::level_count(block) == block[3] % 16,
        block[3] % 16 == 0 ==> crate::settings::level_count(block) == 1,
        block[3] % 16 > 8 ==> crate::settings::level_count(block) == 8,
        crate::settings::level_index(block) + 1 == crate::settings::level_number(block)
            || crate::settings::level_number(block) == 0 && crate::settings::level_index(block) == 0,
        crate::settings::code_at(block, level) == block[5 + 2 * level] + 256 * block[6 + 2
            * level],
        crate::settings::color_at(block, level) == seq![
            block[0x25 + 3 * level],
            block[0x26 + 3 * level],
            block[0x27 + 3 * level],
        ],
{
    assert(RATE_CODES@[0] == 125 && RATE_CODES@[1] == 250 && RATE_CODES@[2] == 500
        && RATE_CODES@[3] == 1000);
    assert(crate::settings::color_at(block, level) =~= seq![
        block[0x25 + 3 * level],
        block[0x26 + 3 * level],
        block[0x27 + 3 * level],
    ]);
}

/// A setter changes the bytes of its field and no other one; a rate outside the
/// table changes none.
pub proof fn law_a_setter_changes_its_own_bytes(
    block: Seq<u8>,
    hz: u16,
    level: int,
    code: u16,
    rgb: Seq<u8>,
    number: u8,
    count: u8,
)
    requires
        block.len() == BLOCK_LEN,
        0 <= level < 8,
        rgb.len() == 3,
    ensures
        crate::settings::with_rate(block, hz) == block.update(
            2,
            crate::settings::with_rate(block, hz)[2],
        ),
        crate::settings::with_rate(block, hz)[2] / 16 == block[2] / 16,
        hz != 125 && hz != 250 && hz != 500 && hz != 1000 ==> crate::settings::with_rate(block, hz)
            == block,
        crate::settings::with_level_number(block, number) == block.update(
            3,
            (number % 16 * 16 + block[3] % 16) as u8,
        ),
        crate::settings::with_level_count(block, count) == block.update(
            3,
            crate::settings::with_level_count(block, count)[3],
        ),
        crate::settings::with_level_count(block, count)[3] / 16 == block[3] / 16,
        crate::settings::with_level_count(block, count)[3] % 16 == if count < 1 {
            1
        } else if count > 8 {
            8
        } else {
            count as int
        },
        forall|i: int|
            0 <= i < BLOCK_LEN && i != 5 + 2 * level && i != 6 + 2 * level
                ==> #[trigger] crate::settings::with_code(block, level, code)[i] == block[i],
        crate::settings::with_code(block, level, code)[5 + 2 * level] + 256
            * crate::settings::with_code(block, level, code)[6 + 2 * level] == code,
        forall|i: int|
            0 <= i < BLOCK_LEN && !(0x25 + 3 * level <= i < 0x28 + 3 * level)
                ==> #[trigger] crate::settings::with_color(block, level, rgb)[i] == block[i],
        crate::settings::with_color(block, level, rgb).subrange(0x25 + 3 * level, 0x28 + 3 * level)
            == rgb,
{
    assert(crate::settings::with_rate(block, hz) =~= block.update(
        2,
        crate::settings::with_rate(block, hz)[2],
    ));
    assert(crate::settings::with_level_count(block, count) =~= block.update(
        3,
        crate::settings::with_level_count(block, count)[3],
    ));
    assert(crate::settings::with_color(block, level, rgb).subrange(
        0x25 + 3 * level,
        0x28 + 3 * level,
    ) =~= rgb);
}

/// The tables: the sensor's steps rise by 100 from 200 to 5000, then come 5500,
/// 6000 and 6400, and from 7000 to 10000 they rise by 500; the factory profile has
/// 400, 800, 1600, 3200, 6400 and 10000 dpi and two empty slots.
pub proof fn law_the_tables_hold_the_devices_values(i: int)
    requires
        0 <= i < 59,
    ensures
        i <= 48 ==> DPI_STEPS@[i] == 200 + 100 * i,
        i == 49 ==> DPI_STEPS@[i] == 5500,
        i == 50 ==> DPI_STEPS@[i] == 6000,
        i == 51 ==> DPI_STEPS@[i] == 6400,
        i >= 52 ==> DPI_STEPS@[i] == 7000 + 500 * (i - 52),
        forall|level: int|
            0 <= level < 5 ==> #[trigger] crate::settings::dpi_of_code(FACTORY_DPI_CODES@[level])
                == if level == 0 {
                400int
            } else if level == 1 {
                800
            } else if level == 2 {
                1600
            } else if level == 3 {
                3200
            } else {
                6400
            },
        crate::settings::dpi_of_code(FACTORY_DPI_CODES@[5]) == 10000,
        FACTORY_DPI_CODES@[6] == 0,
        FACTORY_DPI_CODES@[7] == 0,
        LEVEL_COLORS@[0]@ == seq![255u8, 0, 0],
        LEVEL_COLORS@[1]@ == seq![0u8, 0, 255],
        LEVEL_COLORS@[2]@ == seq![0u8, 255, 0],
        LEVEL_COLORS@[3]@ == seq![255u8, 0, 255],
        LEVEL_COLORS@[4]@ == seq![0u8, 255, 255],
        LEVEL_COLORS@[5]@ == seq![255u8, 255, 0],
        LEVEL_COLORS@[6]@ == seq![255u8, 255, 255],
        LEVEL_COLORS@[7]@ == seq![255u8, 70, 0],
{
    lemma_step(i);
    lemma_step(2);
    lemma_step(6);
    lemma_step(14);
    lemma_step(30);
    lemma_step(51);
    lemma_step(58);
    assert(FACTORY_DPI_CODES@[0] == 3 && FACTORY_DPI_CODES@[1] == 7 && FACTORY_DPI_CODES@[2] == 15
        && FACTORY_DPI_CODES@[3] == 31 && FACTORY_DPI_CODES@[4] == 52 && FACTORY_DPI_CODES@[5]
        == 59 && FACTORY_DPI_CODES@[6] == 0 && FACTORY_DPI_CODES@[7] == 0);
    assert(LEVEL_COLORS@[0]@ =~= seq![255u8, 0, 0]);
    assert(LEVEL_COLORS@[1]@ =~= seq![0u8, 0, 255]);
    assert(LEVEL_COLORS@[2]@ =~= seq![0u8, 255, 0]);
    assert(LEVEL_COLORS@[3]@ =~= seq![255u8, 0, 255]);
    assert(LEVEL_COLORS@[4]@ =~= seq![0u8, 255, 255]);
    assert(LEVEL_COLORS@[5]@ =~= seq![255u8, 255, 0]);
    assert(LEVEL_COLORS@[6]@ =~= seq![255u8, 255, 255]);
    assert(LEVEL_COLORS@[7]@ =~= seq![255u8, 70, 0]);
}

/// The code of a DPI is that of a step with no other step nearer to it, and of two
/// equally near steps the lower one; a stored code shows as its step, and any
/// other number as 0.
pub proof fn law_a_code_is_the_nearest_step(dpi: u16, code: u16, other: int)
    requires
        call_ensures(crate::settings::dpi_to_code, (dpi,), code),
        0 <= other < 59,
    ensures
        1 <= code <= 59,
        ({
            let mine = DPI_STEPS@[code - 1] - dpi;
            let theirs = DPI_STEPS@[other] - dpi;
            let near = if mine < 0 {
                -mine
            } else {
                mine
            };
            let far = if theirs < 0 {
                -theirs
            } else {
                theirs
            };
            near <= far && (near == far ==> DPI_STEPS@[code - 1] <= DPI_STEPS@[other])
        }),
        forall|stored: u16, shown: u16| #[trigger]
            call_ensures(crate::settings::code_to_dpi, (stored,), shown) ==> shown == if 1 <= stored
                <= 59 {
                DPI_STEPS@[stored - 1]
            } else {
                0
            },
{
    assert(crate::settings::step_distance(code - 1, dpi) <= crate::settings::step_distance(
        other,
        dpi,
    ));
    if other < code - 1 {
        assert(crate::settings::step_distance(code - 1, dpi) < crate::settings::step_distance(
            other,
            dpi,
        ));
    } else if other > code - 1 {
        lemma_steps_rise(code - 1, other);
    }
}

// ---------------------------------------------------------------------------
// what a removal and an addition leave alone
// ---------------------------------------------------------------------------

/// Removing a level above the active one keeps the active number, and with it the
/// settings of the active level.
pub proof fn law_removal_above_the_active_level_keeps_it(block: Seq<u8>, level: u8)
    requires
        block.len() == BLOCK_LEN,
        crate::settings::level_count(block) >= 2,
        block[3] / 16 <= level < crate::settings::level_count(block),
    ensures
        ({
            let removed = crate::settings::with_level_removed(block, level);
            &&& removed[3] / 16 == block[3] / 16
            &&& block[3] / 16 >= 1 ==> slot(removed, block[3] / 16 - 1) == slot(
                block,
                block[3] / 16 - 1,
            )
        }),
{
    let removed = crate::settings::with_level_removed(block, level);
    let count = crate::settings::level_count(block);
    let number = crate::settings::level_number(block);
    assert(crate::settings::number_after_removal(number, level, count) == number);
    assert(removed[3] == number * 16 + (count - 1));
    if number >= 1 {
        assert(crate::settings::color_at(removed, number - 1) =~= crate::settings::color_at(
            block,
            number - 1,
        ));
    }
}

/// Removing the active level keeps its number where that is still in the profile,
/// so that the next level becomes active; without a next one the last level does.
pub proof fn law_removal_of_the_active_level_keeps_its_place(block: Seq<u8>, level: u8)
    requires
        block.len() == BLOCK_LEN,
        crate::settings::level_count(block) >= 2,
        level < crate::settings::level_count(block),
        block[3] / 16 == level + 1,
    ensures
        ({
            let removed = crate::settings::with_level_removed(block, level);
            let count = crate::settings::level_count(block);
            &&& level + 1 < count ==> removed[3] / 16 == level + 1 && slot(removed, level as int)
                == slot(block, level + 1)
            &&& level + 1 == count ==> removed[3] / 16 == level && slot(removed, level - 1) == slot(
                block,
                level - 1,
            )
        }),
{
    let removed = crate::settings::with_level_removed(block, level);
    let count = crate::settings::level_count(block);
    let number = crate::settings::number_after_removal((level + 1) as u8, level, count);
    assert(crate::settings::level_number(block) == level + 1);
    assert(removed[3] == number * 16 + (count - 1));
    if level + 1 < count {
        assert(crate::settings::color_at(removed, level as int) =~= crate::settings::color_at(
            block,
            level + 1,
        ));
    } else {
        assert(crate::settings::color_at(removed, level - 1) =~= crate::settings::color_at(
            block,
            level - 1,
        ));
    }
}

/// A removal takes one level off the count and leaves alone what is not of the
/// profile: the slots behind it, the rate, the lift-off distance and every byte
/// that is not mapped. A level outside the profile, or the only one, cannot be
/// removed.
pub proof fn law_removal_leaves_the_rest_alone(block: Seq<u8>, level: u8)
    requires
        block.len() == BLOCK_LEN,
    ensures
        ({
            let removed = crate::settings::with_level_removed(block, level);
            let count = crate::settings::level_count(block);
            &&& level >= count || count < 2 ==> removed == block
            &&& level < count && count >= 2 ==> removed[3] % 16 == count - 1
            &&& removed.len() == BLOCK_LEN
            &&& forall|i: int|
                0 <= i < BLOCK_LEN && i != 3 && !(5 <= i < 5 + 2 * count) && !(0x25 <= i < 0x25 + 3
                    * count) ==> #[trigger] removed[i] == block[i]
        }),
{
    let removed = crate::settings::with_level_removed(block, level);
    let count = crate::settings::level_count(block);
    if level < count && count >= 2 {
        let number = crate::settings::number_after_removal(
            crate::settings::level_number(block),
            level,
            count,
        );
        assert(0 <= number < 16);
        assert(removed[3] == number * 16 + (count - 1));
    }
}

/// An addition raises the count by one, keeps the active number, and changes at
/// most the code of the slot that joins: an empty one gets the code of 400 dpi.
/// Only the slot right behind the profile can be added.
pub proof fn law_addition_leaves_the_rest_alone(block: Seq<u8>, level: u8)
    requires
        block.len() == BLOCK_LEN,
    ensures
        ({
            let added = crate::settings::with_level_added(block, level);
            let count = crate::settings::level_count(block);
            let code = block[5 + 2 * count] + 256 * block[6 + 2 * count];
            &&& level != count || count == 8 ==> added == block
            &&& level == count && count < 8 ==> {
                &&& added[3] % 16 == count + 1
                &&& added[3] / 16 == block[3] / 16
                &&& added[5 + 2 * count] + 256 * added[6 + 2 * count] == if code == 0 {
                    3
                } else {
                    code
                }
                &&& forall|i: int|
                    0 <= i < BLOCK_LEN && i != 3 && i != 5 + 2 * count && i != 6 + 2 * count
                        ==> #[trigger] added[i] == block[i]
            }
        }),
{
}

/// The factory profile by its bytes: 500 Hz under the kept high nibble, the second
/// of six levels, LOD 9, LED effect 1 with parameter 2 in red.
pub proof fn law_the_factory_bytes(current: Seq<u8>)
    requires
        current.len() == BLOCK_LEN,
    ensures
        ({
            let block = crate::settings::factory_bytes(current);
            &&& block[2] == current[2] / 16 * 16 + 3
            &&& block[3] == 0x26
            &&& block[0x3d] == 9
            &&& block.subrange(0x8b, 0x90) == seq![1u8, 2, 255, 0, 0]
            &&& forall|i: int|
                #![trigger block[i]]
                0 <= i < BLOCK_LEN && i != 2 && i != 3 && !(5 <= i < 21) && !(0x25 <= i <= 0x3d)
                    && !(0x8b <= i < 0x90) ==> block[i] == current[i]
        }),
{
    let block = crate::settings::factory_bytes(current);
    assert(block.subrange(0x8b, 0x90) =~= seq![1u8, 2, 255, 0, 0]);
}

// ---------------------------------------------------------------------------
// the dump
// ---------------------------------------------------------------------------

proof fn lemma_hex_bytes(bytes: Seq<u8>, i: int)
    requires
        0 <= i < bytes.len(),
    ensures
        crate::settings::hex_bytes(bytes).len() == 3 * bytes.len() - 1,
        crate::settings::hex_bytes(bytes)[3 * i] == crate::text::hex2(bytes[i])[0],
        crate::settings::hex_bytes(bytes)[3 * i + 1] == crate::text::hex2(bytes[i])[1],
        i + 1 < bytes.len() ==> crate::settings::hex_bytes(bytes)[3 * i + 2] == ' ',
    decreases bytes.len(),
{
    if bytes.len() > 1 {
        let fewer = bytes.drop_last();
        if i < fewer.len() {
            lemma_hex_bytes(fewer, i);
        } else {
            lemma_hex_bytes(fewer, fewer.len() - 1);
        }
    }
}

proof fn lemma_dump_row(block: Seq<u8>, row: int, column: int)
    requires
        block.len() == BLOCK_LEN,
        0 <= row < 10,
        0 <= column < 16,
        row * 16 + column < BLOCK_LEN,
    ensures
        ({
            let text = crate::settings::dump_row(block, row);
            &&& row < 9 ==> text.len() == 54
            &&& row == 9 ==> text.len() == 18
            &&& text.last() == '\n'
            &&& text.take(4) == crate::text::hex4((row * 16) as u16)
            &&& text[4] == ' '
            &&& text[5] == ' '
            &&& text[6 + 3 * column] == crate::text::hex2(block[row * 16 + column])[0]
            &&& text[7 + 3 * column] == crate::text::hex2(block[row * 16 + column])[1]
            &&& text[8 + 3 * column] == ' ' || text[8 + 3 * column] == '\n'
            &&& 8 + 3 * column < text.len()
        }),
{
    let to = if row * 16 + 16 < block.len() {
        row * 16 + 16
    } else {
        block.len() as int
    };
    let bytes = block.subrange(row * 16, to);
    lemma_hex_bytes(bytes, column);
    let text = crate::settings::dump_row(block, row);
    assert(crate::text::hex4((row * 16) as u16).len() == 4);
    assert(text.take(4) =~= crate::text::hex4((row * 16) as u16));
}

proof fn lemma_dump_rows(block: Seq<u8>, rows: nat, row: int)
    requires
        block.len() == BLOCK_LEN,
        0 <= row < rows <= 10,
    ensures
        crate::settings::dump_rows(block, rows).len() == if rows < 10 {
            54 * rows as int
        } else {
            504
        },
        crate::settings::dump_rows(block, rows).subrange(
            54 * row,
            54 * row + crate::settings::dump_row(block, row).len(),
        ) == crate::settings::dump_row(block, row),
    decreases rows,
{
    let fewer = (rows - 1) as nat;
    lemma_dump_row(block, fewer as int, 0);
    lemma_dump_row(block, row, 0);
    let text = crate::settings::dump_rows(block, rows);
    assert(text == crate::settings::dump_rows(block, fewer) + crate::settings::dump_row(
        block,
        fewer as int,
    ));
    assert(crate::settings::dump_rows(block, 0).len() == 0);
    if fewer > 0 {
        lemma_dump_rows(
            block,
            fewer,
            if row < fewer {
                row
            } else {
                fewer - 1
            },
        );
    }
    let part = text.subrange(54 * row, 54 * row + crate::settings::dump_row(block, row).len());
    if row < fewer {
        assert(part =~= crate::settings::dump_rows(block, fewer).subrange(
            54 * row,
            54 * row + crate::settings::dump_row(block, row).len(),
        ));
    } else {
        assert(part =~= crate::settings::dump_row(block, row));
    }
}

/// The dump shows every byte of the block in its place: sixteen to a row, each row
/// with its offset in front.
pub proof fn law_the_dump_shows_every_byte(block: Seq<u8>, i: int)
    requires
        block.len() == BLOCK_LEN,
        0 <= i < BLOCK_LEN,
    ensures
        ({
            let text = crate::settings::dump_rows(block, 10);
            let start = 54 * (i / 16);
            let at = start + 6 + 3 * (i % 16);
            &&& text.len() == 504
            &&& text.subrange(start, start + 4) == crate::text::hex4((i / 16 * 16) as u16)
            &&& text[start + 4] == ' '
            &&& text[start + 5] == ' '
            &&& text[at] == crate::text::hex_digit(block[i] as int / 16)
            &&& text[at + 1] == crate::text::hex_digit(block[i] as int % 16)
            &&& text[at + 2] == '\n' || text[at + 2] == ' '
        }),
{
    let row = i / 16;
    let column = i % 16;
    lemma_dump_rows(block, 10, row);
    lemma_dump_row(block, row, column);
    lemma_part(
        crate::settings::dump_rows(block, 10),
        crate::settings::dump_row(block, row),
        54 * row,
        column,
    );
}

proof fn lemma_part(text: Seq<char>, line: Seq<char>, start: int, column: int)
    requires
        0 <= start,
        0 <= column,
        start + line.len() <= text.len(),
        8 + 3 * column < line.len(),
        text.subrange(start, start + line.len()) == line,
    ensures
        text.subrange(start, start + 4) == line.take(4),
        text[start + 4] == line[4],
        text[start + 5] == line[5],
        text[start + 6 + 3 * column] == line[6 + 3 * column],
        text[start + 7 + 3 * column] == line[7 + 3 * column],
        text[start + 8 + 3 * column] == line[8 + 3 * column],
{
    let part = text.subrange(start, start + line.len());
    assert(text.subrange(start, start + 4) =~= line.take(4));
    assert(part[4] == text[start + 4]);
    assert(part[5] == text[start + 5]);
    assert(part[6 + 3 * column] == text[start + 6 + 3 * column]);
    assert(part[7 + 3 * column] == text[start + 7 + 3 * column]);
    assert(part[8 + 3 * column] == text[start + 8 + 3 * column]);
}

} // verus!
