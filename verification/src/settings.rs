//! Model of the device's 148-byte settings block.
//!
//! The block is always kept whole: the app only ever mutates the fields it
//! understands and writes the block back verbatim, so unknown fields survive
//! a read-modify-write. The contracts are stated over the bytes of the block,
//! and every byte that a setter does not name is stated to stay as it was.
use crate::text::{push_hex2, push_hex4};
use vstd::prelude::*;

verus! {

/// The steps that the sensor accepts; the device stores the 1-based index
/// (0 = level disabled).
pub const DPI_STEPS: [u16; 59] = [
    200, 300, 400, 500, 600, 700, 800, 900, 1000, 1100, 1200, 1300, 1400, 1500, 1600, 1700, 1800,
    1900, 2000, 2100, 2200, 2300, 2400, 2500, 2600, 2700, 2800, 2900, 3000, 3100, 3200, 3300, 3400,
    3500, 3600, 3700, 3800, 3900, 4000, 4100, 4200, 4300, 4400, 4500, 4600, 4700, 4800, 4900, 5000,
    5500, 6000, 6400, 7000, 7500, 8000, 8500, 9000, 9500, 10000,
];

/// Polling rates in Hz; the stored code is the 1-based index into this table.
pub const RATE_CODES: [u16; 4] = [125, 250, 500, 1000];

/// DPI level slots in the settings block. The device cycles only through the
/// first [`SettingsBlock::enabled_levels`] of them.
pub const LEVELS: u8 = 8;

/// Per-level colours, used by the factory profile and by a slot that leaves
/// the profile.
pub const LEVEL_COLORS: [[u8; 3]; 8] = [
    [255, 0, 0],
    [0, 0, 255],
    [0, 255, 0],
    [255, 0, 255],
    [0, 255, 255],
    [255, 255, 0],
    [255, 255, 255],
    [255, 70, 0],
];

/// The DPI codes of the factory profile.
pub const FACTORY_DPI_CODES: [u16; 8] = [3, 7, 15, 31, 52, 59, 0, 0];

/// Stamped at [`COMMIT_OFFSET`] before saving, and kept by the device: a
/// written profile only reaches the live mouse once it is set.
pub const COMMIT_MARKER: u8 = 0xa5;

pub const COMMIT_OFFSET: usize = 0x90;

/// Length of the settings block.
pub const BLOCK_LEN: usize = 148;

// ---------------------------------------------------------------------------
// the tables
// ---------------------------------------------------------------------------

/// How far a table entry is from the wanted DPI.
pub open spec fn step_distance(index: int, dpi: u16) -> int {
    let d = DPI_STEPS@[index] - dpi;
    if d < 0 {
        -d
    } else {
        d
    }
}

/// `code` is the 1-based index of the first of the entries nearest to `dpi`.
pub open spec fn is_nearest_code(dpi: u16, code: u16) -> bool {
    &&& 1 <= code <= 59
    &&& forall|j: int|
        0 <= j < 59 ==> step_distance(code - 1, dpi) <= #[trigger] step_distance(j, dpi)
    &&& forall|j: int|
        0 <= j < code - 1 ==> step_distance(code - 1, dpi) < #[trigger] step_distance(j, dpi)
}

/// The DPI that a stored code stands for.
pub open spec fn dpi_of_code(code: u16) -> u16 {
    if 1 <= code <= 59 {
        DPI_STEPS@[code - 1]
    } else {
        0
    }
}

fn distance(step: u16, dpi: u16) -> (d: u16)
    ensures
        d == if step < dpi {
            dpi - step
        } else {
            step - dpi
        },
{
    if step < dpi {
        dpi - step
    } else {
        step - dpi
    }
}

/// Nearest `DPI_STEPS` entry, as a 1-based code; of two equally near ones the
/// lower.
pub fn dpi_to_code(dpi: u16) -> (code: u16)
    ensures
        is_nearest_code(dpi, code),
{
    let mut best: usize = 0;
    let mut i: usize = 1;
    while i < 59
        invariant
            best < i <= 59,
            forall|j: int|
                0 <= j < i ==> step_distance(best as int, dpi) <= #[trigger] step_distance(j, dpi),
            forall|j: int|
                0 <= j < best ==> step_distance(best as int, dpi) < #[trigger] step_distance(
                    j,
                    dpi,
                ),
        decreases 59 - i,
    {
        proof {
            assert(step_distance(i as int, dpi) >= 0);
        }
        if distance(DPI_STEPS[i], dpi) < distance(DPI_STEPS[best], dpi) {
            best = i;
        }
        i += 1;
    }
    best as u16 + 1
}

/// Real DPI for a stored code; 0 for "disabled" / out of range.
pub fn code_to_dpi(code: u16) -> (dpi: u16)
    ensures
        dpi == dpi_of_code(code),
{
    if code == 0 || code as usize > 59 {
        0
    } else {
        DPI_STEPS[code as usize - 1]
    }
}

// ---------------------------------------------------------------------------
// the fields of a block
// ---------------------------------------------------------------------------

/// `v` brought into `1..=LEVELS`.
pub open spec fn clamp_levels(v: int) -> int {
    if v < 1 {
        1
    } else if v > LEVELS {
        LEVELS as int
    } else {
        v
    }
}

/// The polling rate that a block holds, 0 when the stored code is unknown.
pub open spec fn rate_of(block: Seq<u8>) -> u16 {
    let code = block[2] % 16;
    if 1 <= code <= 4 {
        RATE_CODES@[code - 1]
    } else {
        0
    }
}

/// The block with the polling rate set; unchanged for a rate outside the table.
pub open spec fn with_rate(block: Seq<u8>, hz: u16) -> Seq<u8> {
    if hz == 125 {
        block.update(2, (block[2] / 16 * 16 + 1) as u8)
    } else if hz == 250 {
        block.update(2, (block[2] / 16 * 16 + 2) as u8)
    } else if hz == 500 {
        block.update(2, (block[2] / 16 * 16 + 3) as u8)
    } else if hz == 1000 {
        block.update(2, (block[2] / 16 * 16 + 4) as u8)
    } else {
        block
    }
}

/// The 1-based number of the active level.
pub open spec fn level_number(block: Seq<u8>) -> u8 {
    block[3] / 16
}

/// The active level as an index into the level slots.
pub open spec fn level_index(block: Seq<u8>) -> u8 {
    if level_number(block) == 0 {
        0
    } else {
        (level_number(block) - 1) as u8
    }
}

/// How many levels the block puts into the profile.
pub open spec fn level_count(block: Seq<u8>) -> u8 {
    clamp_levels((block[3] % 16) as int) as u8
}

/// The block with another active level number.
pub open spec fn with_level_number(block: Seq<u8>, number: u8) -> Seq<u8> {
    block.update(3, (number % 16 * 16 + block[3] % 16) as u8)
}

/// The block with another level count.
pub open spec fn with_level_count(block: Seq<u8>, count: u8) -> Seq<u8> {
    block.update(3, (block[3] / 16 * 16 + clamp_levels(count as int)) as u8)
}

/// The DPI code in a level slot.
pub open spec fn code_at(block: Seq<u8>, level: int) -> u16 {
    (block[5 + 2 * level] + 256 * block[6 + 2 * level]) as u16
}

/// The block with another DPI code in a level slot.
pub open spec fn with_code(block: Seq<u8>, level: int, code: u16) -> Seq<u8> {
    block.update(5 + 2 * level, (code % 256) as u8).update(6 + 2 * level, (code / 256) as u8)
}

/// The colour in a level slot.
pub open spec fn color_at(block: Seq<u8>, level: int) -> Seq<u8> {
    block.subrange(0x25 + 3 * level, 0x28 + 3 * level)
}

/// The block with another colour in a level slot.
pub open spec fn with_color(block: Seq<u8>, level: int, rgb: Seq<u8>) -> Seq<u8> {
    block.update(0x25 + 3 * level, rgb[0]).update(0x26 + 3 * level, rgb[1]).update(
        0x27 + 3 * level,
        rgb[2],
    )
}

/// The block with `level` added to the profile: only the slot right after the
/// last one of the profile can be added, and it does not stay without a DPI.
pub open spec fn with_level_added(block: Seq<u8>, level: u8) -> Seq<u8> {
    let count = level_count(block);
    if level != count || count >= LEVELS {
        block
    } else if code_at(block, level as int) == 0 {
        with_level_count(with_code(block, level as int, 3), (count + 1) as u8)
    } else {
        with_level_count(block, (count + 1) as u8)
    }
}

/// The active level number once `level` has left a profile of `count` levels.
pub open spec fn number_after_removal(number: u8, level: u8, count: u8) -> int {
    let followed = if level + 1 < number {
        number - 1
    } else {
        number as int
    };
    if followed > count - 1 {
        count - 1
    } else {
        followed
    }
}

/// The block with `level` removed from the profile: the slots after it move
/// down by one, the slot that is left over goes back to its defaults, and the
/// active number follows its settings.
pub open spec fn with_level_removed(block: Seq<u8>, level: u8) -> Seq<u8> {
    let count = level_count(block);
    if level >= count || count < 2 {
        block
    } else {
        Seq::new(
            block.len(),
            |i: int|
                if i == 3 {
                    (number_after_removal(level_number(block), level, count) * 16 + (count
                        - 1)) as u8
                } else if 5 + 2 * level <= i < 5 + 2 * (count - 1) {
                    block[i + 2]
                } else if 5 + 2 * (count - 1) <= i < 5 + 2 * count {
                    0u8
                } else if 0x25 + 3 * level <= i < 0x25 + 3 * (count - 1) {
                    block[i + 3]
                } else if 0x25 + 3 * (count - 1) <= i < 0x25 + 3 * count {
                    LEVEL_COLORS@[count - 1]@[i - (0x25 + 3 * (count - 1))]
                } else {
                    block[i]
                },
        )
    }
}

/// The factory profile over the bytes of `current`: what is not part of the
/// profile, and the high nibble of the rate byte, stays.
pub open spec fn factory_bytes(current: Seq<u8>) -> Seq<u8> {
    Seq::new(
        current.len(),
        |i: int|
            if i == 2 {
                (current[2] / 16 * 16 + 3) as u8
            } else if i == 3 {
                0x26u8
            } else if 5 <= i < 21 {
                if (i - 5) % 2 == 0 {
                    (FACTORY_DPI_CODES@[(i - 5) / 2] % 256) as u8
                } else {
                    (FACTORY_DPI_CODES@[(i - 5) / 2] / 256) as u8
                }
            } else if 0x25 <= i < 0x3d {
                LEVEL_COLORS@[(i - 0x25) / 3]@[(i - 0x25) % 3]
            } else if i == 0x3d {
                9u8
            } else if i == 0x8b {
                1u8
            } else if i == 0x8c {
                2u8
            } else if i == 0x8d {
                255u8
            } else if i == 0x8e || i == 0x8f {
                0u8
            } else {
                current[i]
            },
    )
}

/// Bytes in hexadecimal, separated by single spaces.
pub open spec fn hex_bytes(bytes: Seq<u8>) -> Seq<char>
    decreases bytes.len(),
{
    if bytes.len() == 0 {
        Seq::empty()
    } else if bytes.len() == 1 {
        crate::text::hex2(bytes[0])
    } else {
        hex_bytes(bytes.drop_last()).push(' ') + crate::text::hex2(bytes.last())
    }
}

/// One row of the dump: the offset, two spaces, up to sixteen bytes.
pub open spec fn dump_row(block: Seq<u8>, row: int) -> Seq<char> {
    let to = if row * 16 + 16 < block.len() {
        row * 16 + 16
    } else {
        block.len() as int
    };
    crate::text::hex4((row * 16) as u16).push(' ').push(' ') + hex_bytes(block.subrange(row * 16, to)).push(
        '\n',
    )
}

/// The first rows of the dump.
pub open spec fn dump_rows(block: Seq<u8>, rows: nat) -> Seq<char>
    decreases rows,
{
    if rows == 0 {
        Seq::empty()
    } else {
        dump_rows(block, (rows - 1) as nat) + dump_row(block, rows - 1)
    }
}

/// The two nibbles of a byte, by arithmetic.
proof fn lemma_nibbles(b: u8)
    ensures
        b & 0x0f == b % 16,
        b >> 4 == b / 16,
        b & 0xf0 == b / 16 * 16,
{
    assert(b & 0x0f == b % 16) by (bit_vector);
    assert(b >> 4 == b / 16) by (bit_vector);
    assert(b & 0xf0 == b / 16 * 16) by (bit_vector);
}

/// A byte packed from a high part and a low nibble.
proof fn lemma_pack(high: u8, low: u8)
    requires
        low < 16,
    ensures
        (high & 0xf0) | low == high / 16 * 16 + low,
        ((high & 0x0f) << 4) | low == high % 16 * 16 + low,
{
    assert((high & 0xf0) | low == high / 16 * 16 + low) by (bit_vector)
        requires
            low < 16,
    ;
    assert(((high & 0x0f) << 4) | low == high % 16 * 16 + low) by (bit_vector)
        requires
            low < 16,
    ;
}

pub struct SettingsBlock {
    raw: [u8; BLOCK_LEN],
}

impl View for SettingsBlock {
    type V = Seq<u8>;

    closed spec fn view(&self) -> Seq<u8> {
        self.raw@
    }
}

impl Clone for SettingsBlock {
    fn clone(&self) -> (copy: Self)
        ensures
            copy == *self,
    {
        SettingsBlock { raw: self.raw }
    }
}

/// The array that holds the given 148 bytes.
pub open spec fn block_of(bytes: Seq<u8>) -> [u8; BLOCK_LEN] {
    choose|block: [u8; BLOCK_LEN]| block@ == bytes
}

spec fn filled(bytes: Seq<u8>, n: nat) -> [u8; BLOCK_LEN]
    decreases n,
{
    if n == 0 {
        [0u8; BLOCK_LEN]
    } else {
        vstd::array::spec_array_update(
            filled(bytes, (n - 1) as nat),
            n - 1,
            bytes[n - 1],
        )
    }
}

proof fn lemma_filled(bytes: Seq<u8>, n: nat)
    requires
        n <= BLOCK_LEN,
    ensures
        forall|i: int| 0 <= i < n ==> #[trigger] filled(bytes, n)@[i] == bytes[i],
    decreases n,
{
    if n > 0 {
        let shorter = filled(bytes, (n - 1) as nat);
        lemma_filled(bytes, (n - 1) as nat);
        assert(filled(bytes, n)@ == shorter@.update(n - 1, bytes[n - 1]));
        assert forall|i: int| 0 <= i < n implies #[trigger] filled(bytes, n)@[i] == bytes[i] by {
            if i < n - 1 {
                assert(shorter@[i] == bytes[i]);
            }
        }
    }
}

/// An array is the one that holds its bytes.
pub proof fn lemma_block_of_array(block: [u8; BLOCK_LEN])
    ensures
        block_of(block@) == block,
{
    assert(block_of(block@) =~= block);
}

/// There is an array for any 148 bytes.
pub proof fn lemma_block_of_bytes(bytes: Seq<u8>)
    requires
        bytes.len() == BLOCK_LEN,
    ensures
        block_of(bytes)@ == bytes,
{
    lemma_filled(bytes, BLOCK_LEN as nat);
    assert(filled(bytes, BLOCK_LEN as nat)@ =~= bytes);
}

impl SettingsBlock {
    pub fn new(raw: [u8; BLOCK_LEN]) -> (block: Self)
        ensures
            block@ == raw@,
    {
        SettingsBlock { raw }
    }

    pub fn raw(&self) -> (raw: &[u8; BLOCK_LEN])
        ensures
            raw@ == self@,
    {
        &self.raw
    }

    /// Polling rate in Hz, 0 when the stored code is unknown.
    pub fn rate_hz(&self) -> (hz: u16)
        ensures
            hz == rate_of(self@),
    {
        let code = self.raw[2] & 0x0f;
        proof {
            lemma_nibbles(self.raw[2]);
        }
        if code == 0 || code as usize > 4 {
            0
        } else {
            RATE_CODES[code as usize - 1]
        }
    }

    /// Keeps the high nibble: bit 7 is the split-X/Y flag, which the app never
    /// touches (the Y DPI slots at `0x15` stay as the device reported them).
    pub fn set_rate_hz(&mut self, hz: u16)
        ensures
            final(self)@ == with_rate(old(self)@, hz),
    {
        let mut i: usize = 0;
        while i < 4
            invariant
                i <= 4,
                *self == *old(self),
                forall|j: int| 0 <= j < i ==> RATE_CODES@[j] != hz,
            decreases 4 - i,
        {
            if RATE_CODES[i] == hz {
                let code = i as u8 + 1;
                proof {
                    lemma_pack(self.raw[2], code);
                }
                self.raw[2] = (self.raw[2] & 0xf0) | code;
                return;
            }
            i += 1;
        }
        proof {
            assert(RATE_CODES@[0] != hz && RATE_CODES@[1] != hz && RATE_CODES@[2] != hz
                && RATE_CODES@[3] != hz);
        }
    }

    /// The active level as stored in the block: a **1-based** level number.
    pub fn current_level(&self) -> (number: u8)
        ensures
            number == level_number(self@),
            number < 16,
    {
        proof {
            lemma_nibbles(self.raw[3]);
        }
        self.raw[3] >> 4
    }

    /// The active level as a 0-based index into the level arrays.
    pub fn active_index(&self) -> (index: u8)
        ensures
            index == level_index(self@),
            index < 15,
    {
        let number = self.current_level();
        if number == 0 {
            0
        } else {
            number - 1
        }
    }

    pub fn set_current_level(&mut self, level: u8)
        ensures
            final(self)@ == with_level_number(old(self)@, level),
    {
        proof {
            lemma_nibbles(self.raw[3]);
            lemma_pack(level, self.raw[3] % 16);
        }
        self.raw[3] = ((level & 0x0f) << 4) | (self.raw[3] & 0x0f);
    }

    /// How many DPI levels the mouse cycles through (byte 3, low nibble).
    pub fn enabled_levels(&self) -> (count: u8)
        ensures
            count == level_count(self@),
            1 <= count <= LEVELS,
    {
        proof {
            lemma_nibbles(self.raw[3]);
        }
        let count = self.raw[3] & 0x0f;
        if count < 1 {
            1
        } else if count > LEVELS {
            LEVELS
        } else {
            count
        }
    }

    pub fn set_enabled_levels(&mut self, count: u8)
        ensures
            final(self)@ == with_level_count(old(self)@, count),
    {
        let count = if count < 1 {
            1
        } else if count > LEVELS {
            LEVELS
        } else {
            count
        };
        proof {
            lemma_pack(self.raw[3], count);
        }
        self.raw[3] = (self.raw[3] & 0xf0) | count;
    }

    /// Add `level` to the profile. Levels stay contiguous, so only the slot
    /// right after the last enabled one can be added.
    pub fn add_level(&mut self, level: u8)
        ensures
            final(self)@ == with_level_added(old(self)@, level),
    {
        let count = self.enabled_levels();
        if level != count || count >= LEVELS {
            return;
        }
        // A reachable slot must never hold DPI code 0: that is not "off", the
        // firmware crawls instead. The colour is left alone.
        if self.dpi_code(level) == 0 {
            self.set_dpi_code(level, 3); // 400 dpi
        }
        self.set_enabled_levels(count + 1);
    }

    pub fn dpi_code(&self, level: u8) -> (code: u16)
        requires
            level <= 70,
        ensures
            code == code_at(self@, level as int),
    {
        let off = 5 + 2 * level as usize;
        self.raw[off] as u16 + 256 * self.raw[off + 1] as u16
    }

    pub fn set_dpi_code(&mut self, level: u8, code: u16)
        requires
            level <= 70,
        ensures
            final(self)@ == with_code(old(self)@, level as int, code),
    {
        let off = 5 + 2 * level as usize;
        self.raw[off] = (code % 256) as u8;
        self.raw[off + 1] = (code / 256) as u8;
    }

    pub fn dpi_value(&self, level: u8) -> (dpi: u16)
        requires
            level <= 70,
        ensures
            dpi == dpi_of_code(code_at(self@, level as int)),
    {
        code_to_dpi(self.dpi_code(level))
    }

    pub fn color(&self, level: u8) -> (rgb: [u8; 3])
        requires
            level <= 36,
        ensures
            rgb@ == color_at(self@, level as int),
    {
        let off = 0x25 + 3 * level as usize;
        let rgb = [self.raw[off], self.raw[off + 1], self.raw[off + 2]];
        proof {
            assert(rgb@ =~= color_at(self@, level as int));
        }
        rgb
    }

    pub fn set_color(&mut self, level: u8, rgb: [u8; 3])
        requires
            level <= 36,
        ensures
            final(self)@ == with_color(old(self)@, level as int, rgb@),
    {
        let off = 0x25 + 3 * level as usize;
        self.raw[off] = rgb[0];
        self.raw[off + 1] = rgb[1];
        self.raw[off + 2] = rgb[2];
    }

    pub fn lod(&self) -> (v: u8)
        ensures
            v == self@[0x3d],
    {
        self.raw[0x3d]
    }

    pub fn set_lod(&mut self, v: u8)
        ensures
            final(self)@ == old(self)@.update(0x3d, v),
    {
        self.raw[0x3d] = v;
    }

    // The LED effect index/parameter/colour at 0x8b-0x8f have no visible effect
    // on this unit, so the app never edits them - only the factory profile sets
    // the vendor's default values.

    pub fn set_led_effect(&mut self, v: u8)
        ensures
            final(self)@ == old(self)@.update(0x8b, v),
    {
        self.raw[0x8b] = v;
    }

    pub fn set_led_arg(&mut self, v: u8)
        ensures
            final(self)@ == old(self)@.update(0x8c, v),
    {
        self.raw[0x8c] = v;
    }

    pub fn set_led_color(&mut self, rgb: [u8; 3])
        ensures
            final(self)@ == old(self)@.update(0x8d, rgb[0]).update(0x8e, rgb[1]).update(
                0x8f,
                rgb[2],
            ),
    {
        self.raw[0x8d] = rgb[0];
        self.raw[0x8e] = rgb[1];
        self.raw[0x8f] = rgb[2];
    }

    /// Remove `level` from the profile by shifting the levels after it down one
    /// slot and shrinking the count - the device has no "disabled" slot state.
    pub fn remove_level(&mut self, level: u8)
        ensures
            final(self)@ == with_level_removed(old(self)@, level),
    {
        let count = self.enabled_levels();
        if level >= count || count < 2 {
            return;
        }
        let ghost before = self@;
        let active = self.current_level();
        let mut slot: u8 = level;
        while slot < count - 1
            invariant
                level <= slot <= count - 1,
                count <= LEVELS,
                before.len() == BLOCK_LEN,
                self@.len() == BLOCK_LEN,
                forall|i: int|
                    0 <= i < BLOCK_LEN ==> #[trigger] self@[i] == (if 5 + 2 * level <= i < 5 + 2
                        * slot {
                        before[i + 2]
                    } else if 0x25 + 3 * level <= i < 0x25 + 3 * slot {
                        before[i + 3]
                    } else {
                        before[i]
                    }),
            decreases count - slot,
        {
            let code = self.dpi_code(slot + 1);
            self.set_dpi_code(slot, code);
            let rgb = self.color(slot + 1);
            self.set_color(slot, rgb);
            slot += 1;
        }
        self.set_dpi_code(count - 1, 0);
        // The slot left the profile, so its colour goes back to the default:
        // otherwise the next level to join would inherit whatever was there.
        self.set_color(count - 1, LEVEL_COLORS[count as usize - 1]);
        self.set_enabled_levels(count - 1);
        // A removal below the active level shifts its settings down, so follow
        // them; the number has to stay inside the profile either way.
        let active = if level + 1 < active {
            active - 1
        } else {
            active
        };
        let last = self.enabled_levels();
        self.set_current_level(
            if active < last {
                active
            } else {
                last
            },
        );
        proof {
            assert(self@ =~= with_level_removed(before, level));
        }
    }

    /// The vendor defaults: 500 Hz, six levels with the second one active, the
    /// table's DPI codes and colours, LOD 9, LED effect 1 / parameter 2 / red.
    /// Fields the app does not map - and the split-X/Y flag - are kept from
    /// `current`.
    pub fn factory(current: &SettingsBlock) -> (block: SettingsBlock)
        ensures
            block@ == factory_bytes(current@),
    {
        let mut block = current.clone();
        block.set_rate_hz(500);
        block.set_current_level(2);
        block.set_enabled_levels(6);
        let ghost base = block@;
        let mut level: u8 = 0;
        while level < 8
            invariant
                level <= 8,
                base.len() == BLOCK_LEN,
                block@.len() == BLOCK_LEN,
                forall|i: int|
                    0 <= i < BLOCK_LEN ==> #[trigger] block@[i] == (if 5 <= i < 5 + 2 * level {
                        if (i - 5) % 2 == 0 {
                            (FACTORY_DPI_CODES@[(i - 5) / 2] % 256) as u8
                        } else {
                            (FACTORY_DPI_CODES@[(i - 5) / 2] / 256) as u8
                        }
                    } else {
                        base[i]
                    }),
            decreases 8 - level,
        {
            block.set_dpi_code(level, FACTORY_DPI_CODES[level as usize]);
            level += 1;
        }
        let ghost coded = block@;
        let mut level: u8 = 0;
        while level < 8
            invariant
                level <= 8,
                coded.len() == BLOCK_LEN,
                block@.len() == BLOCK_LEN,
                forall|i: int|
                    0 <= i < BLOCK_LEN ==> #[trigger] block@[i] == (if 0x25 <= i < 0x25 + 3
                        * level {
                        LEVEL_COLORS@[(i - 0x25) / 3]@[(i - 0x25) % 3]
                    } else {
                        coded[i]
                    }),
            decreases 8 - level,
        {
            block.set_color(level, LEVEL_COLORS[level as usize]);
            level += 1;
        }
        block.set_lod(9);
        block.set_led_effect(1);
        block.set_led_arg(2);
        block.set_led_color([255, 0, 0]);
        proof {
            assert(block@ =~= factory_bytes(current@));
        }
        block
    }

    /// Hex view of the whole block: rows of sixteen bytes, each with its offset.
    pub fn hex_dump(&self) -> (out: String)
        ensures
            out@ == dump_rows(self@, 10),
    {
        let mut out = String::new();
        let mut row: usize = 0;
        while row < 10
            invariant
                row <= 10,
                out@ == dump_rows(self@, row as nat),
            decreases 10 - row,
        {
            let from: usize = row * 16;
            let to: usize = if from + 16 < BLOCK_LEN {
                from + 16
            } else {
                BLOCK_LEN
            };
            let ghost start = out@;
            push_hex4(&mut out, from as u16);
            out.push(' ');
            out.push(' ');
            let ghost head = out@;
            let mut i: usize = from;
            while i < to
                invariant
                    from <= i <= to <= BLOCK_LEN,
                    self@.len() == BLOCK_LEN,
                    out@ == head + hex_bytes(self@.subrange(from as int, i as int)),
                decreases to - i,
            {
                let ghost done = self@.subrange(from as int, i as int);
                let ghost more = self@.subrange(from as int, i as int + 1);
                if i > from {
                    out.push(' ');
                }
                push_hex2(&mut out, self.raw[i]);
                proof {
                    assert(more.drop_last() =~= done);
                    assert(more.last() == self@[i as int]);
                    assert(out@ =~= head + hex_bytes(more));
                }
                i += 1;
            }
            out.push('\n');
            proof {
                assert(out@ =~= start + dump_row(self@, row as int));
            }
            row += 1;
        }
        out
    }
}

} // verus!
