//! What holds of the device, whatever the shell asks and the device thread
//! reports, and of the device and the device thread together.
use crate::device::{Device, DeviceView, EffectView, Reaction};
use crate::session::{Reply, Request, Session, Stage};
use crate::settings::{BLOCK_LEN, DPI_STEPS};
use crate::worker::{Command, CommandView, EventView};
use vstd::prelude::*;

verus! {

/// What can happen to a device.
pub enum Input {
    Start,
    Spawned(Option<Seq<char>>),
    Shutdown,
    Refresh,
    Reload,
    Rate(i32),
    Dpi { level: i32, dpi: i32 },
    Level { level: i32, enabled: bool },
    Color { level: i32, hex: Seq<char> },
    Lod(i32),
    Mode(i32),
    Debounce(i32),
    Backup(Seq<char>),
    Restore(Seq<char>),
    FactoryReset(Seq<char>),
    Event(EventView),
}

/// The block that an input makes of the one in memory, where it is an edit.
pub open spec fn edit_of(d: DeviceView, input: Input) -> Option<Seq<u8>> {
    match input {
        Input::Rate(hz) => Some(
            crate::settings::with_rate(d.block, (hz as int % 65536) as u16),
        ),
        Input::Dpi { level, dpi } => if 0 <= level < 8 {
            Some(
                crate::settings::with_code(
                    d.block,
                    level as int,
                    crate::device::code_for(d.block, level, dpi),
                ),
            )
        } else {
            None
        },
        Input::Level { level, enabled } => if 0 <= level < 8 {
            Some(
                if enabled {
                    crate::settings::with_level_added(d.block, level as u8)
                } else {
                    crate::settings::with_level_removed(d.block, level as u8)
                },
            )
        } else {
            None
        },
        Input::Color { level, hex } => if 0 <= level < 8 {
            match crate::device::color_in(hex) {
                Some(rgb) => Some(crate::settings::with_color(d.block, level as int, rgb)),
                None => if d.block_loaded {
                    None
                } else {
                    Some(d.block)
                },
            }
        } else {
            None
        },
        Input::Lod(value) => Some(
            d.block.update(0x3d, crate::device::clamped(value, 0, 255) as u8),
        ),
        _ => None,
    }
}

/// What a device does with an input; the methods of the device are stated to do
/// so.
pub open spec fn responds(d: DeviceView, input: Input) -> Reaction {
    match edit_of(d, input) {
        Some(block) => crate::device::edits_if_loaded(d, block),
        None => match input {
            Input::Start => Reaction {
                state: d,
                effects: if d.worker {
                    Seq::empty()
                } else {
                    seq![EffectView::Spawn]
                },
            },
            Input::Spawned(failure) => crate::device::started(d, failure),
            Input::Shutdown => Reaction {
                state: d,
                effects: if d.worker {
                    seq![EffectView::Drain { seconds: crate::device::WORKER_DRAIN_SECS }]
                } else {
                    Seq::empty()
                },
            },
            Input::Refresh => crate::device::sends(d, CommandView::Refresh),
            Input::Reload => crate::device::sends(d, CommandView::Reload),
            Input::Mode(mode) => crate::device::sends(
                d,
                CommandView::SetMode(crate::device::clamped(mode, 1, 3) as u8),
            ),
            Input::Debounce(value) => crate::device::sends(
                DeviceView { debounce_value: crate::device::clamped(value, 0, 255), ..d },
                CommandView::SetDebounce(crate::device::clamped(value, 0, 255) as u8),
            ),
            Input::Backup(path) => crate::device::sends(d, CommandView::Backup { path }),
            Input::Restore(path) => crate::device::sends(d, CommandView::Restore { path }),
            Input::FactoryReset(backup_path) => crate::device::sends(
                d,
                CommandView::FactoryReset { backup_path },
            ),
            Input::Event(event) => crate::device::reacts(d, event),
            _ => crate::device::ignored(d),
        },
    }
}

/// The device after a series of inputs.
pub open spec fn after_inputs(d: DeviceView, inputs: Seq<Input>) -> DeviceView
    decreases inputs.len(),
{
    if inputs.len() == 0 {
        d
    } else {
        responds(after_inputs(d, inputs.drop_last()), inputs.last()).state
    }
}

/// Whether a block is written by the effects.
pub open spec fn writes_a_block(effects: Seq<EffectView>) -> bool {
    exists|i: int|
        0 <= i < effects.len() && (#[trigger] effects[i] matches EffectView::Send(command)
            && command is ApplyBlock)
}

pub open spec fn is_verified_block(input: Input) -> bool {
    input matches Input::Event(EventView::Block { verified: true, .. })
}

proof fn lemma_not_loaded(d: DeviceView, inputs: Seq<Input>)
    requires
        crate::device::is_blank(d),
        forall|i: int| 0 <= i < inputs.len() ==> !is_verified_block(#[trigger] inputs[i]),
    ensures
        !after_inputs(d, inputs).block_loaded,
        after_inputs(d, inputs).block == d.block,
        after_inputs(d, inputs).generation == 0,
    decreases inputs.len(),
{
    if inputs.len() > 0 {
        let fewer = inputs.drop_last();
        assert forall|i: int| 0 <= i < fewer.len() implies !is_verified_block(
            #[trigger] fewer[i],
        ) by {
            assert(fewer[i] == inputs[i]);
        }
        lemma_not_loaded(d, fewer);
        assert(!is_verified_block(inputs[inputs.len() - 1]));
    }
}

/// Until the device has confirmed a block, nothing that the shell asks writes
/// one: the placeholder in memory never reaches the device, and edits leave it
/// as it is.
pub proof fn law_the_placeholder_is_never_written(
    d: DeviceView,
    inputs: Seq<Input>,
    input: Input,
)
    requires
        crate::device::is_blank(d),
        forall|i: int| 0 <= i < inputs.len() ==> !is_verified_block(#[trigger] inputs[i]),
    ensures
        !writes_a_block(responds(after_inputs(d, inputs), input).effects),
        !is_verified_block(input) ==> responds(after_inputs(d, inputs), input).state.block
            == d.block,
{
    lemma_not_loaded(d, inputs);
    let now = after_inputs(d, inputs);
    let m = responds(now, input);
    assert forall|i: int| 0 <= i < m.effects.len() implies !(#[trigger] m.effects[i] matches
        EffectView::Send(command) && command is ApplyBlock) by {
        if input matches Input::Event(EventView::Block { verified: false, .. }) {
            assert(i == 0 || i == 1);
        }
    }
}

/// Once a block has been taken it stays loaded, and the generation is counted on
/// exactly by an edit of a loaded block.
pub proof fn law_a_loaded_block_stays_loaded(d: DeviceView, input: Input)
    requires
        d.block_loaded && edit_of(d, input) is Some ==> d.generation < u64::MAX,
    ensures
        d.block_loaded ==> responds(d, input).state.block_loaded,
        responds(d, input).state.generation == if d.block_loaded && edit_of(d, input) is Some {
            d.generation + 1
        } else {
            d.generation as int
        },
{
}

/// An edit makes every block stale that was read before it: whatever comes under
/// an earlier generation leaves the edited block in memory.
pub proof fn law_blocks_from_before_an_edit_are_ignored(
    d: DeviceView,
    edited: Seq<u8>,
    block: Seq<u8>,
    generation: u64,
    verified: bool,
)
    requires
        d.block_loaded,
        d.generation < u64::MAX,
        generation <= d.generation,
    ensures
        ({
            let after = crate::device::edits_if_loaded(d, edited).state;
            &&& after.block == edited
            &&& crate::device::reacts(after, EventView::Block { block, generation, verified })
                == crate::device::ignored(after)
        }),
{
}

/// A block that the device did not give back as it was written is not taken: the
/// shell is told, and the device is read again.
pub proof fn law_an_unverified_block_is_read_again(d: DeviceView, block: Seq<u8>, generation: u64)
    requires
        generation >= d.generation,
        d.worker,
    ensures
        ({
            let m = crate::device::reacts(
                d,
                EventView::Block { block, generation, verified: false },
            );
            &&& m.state == d
            &&& m.effects.last() == EffectView::Send(CommandView::Reload)
        }),
{
}

/// No edit of the shell leaves a level of the profile without a DPI.
pub proof fn law_edits_keep_a_dpi_in_every_reachable_level(d: DeviceView, input: Input)
    requires
        d.block.len() == BLOCK_LEN,
        crate::profile::reachable_levels_have_dpi(d.block),
        edit_of(d, input) is Some,
    ensures
        crate::profile::reachable_levels_have_dpi(edit_of(d, input)->0),
{
    let block = d.block;
    let edited = edit_of(d, input)->0;
    match input {
        Input::Level { level, .. } => {
            crate::profile::law_reachable_levels_keep_a_dpi(block, level as u8);
        },
        Input::Dpi { level, dpi } => {
            let code = crate::device::code_for(block, level, dpi);
            crate::device::lemma_nearest_code(
                if dpi > 0 {
                    crate::device::clamped(dpi, 0, 65535) as u16
                } else {
                    200
                },
            );
            assert(crate::settings::level_count(edited) == crate::settings::level_count(block));
            assert forall|k: int|
                0 <= k < crate::settings::level_count(edited) implies #[trigger] crate::settings::code_at(
                edited,
                k,
            ) != 0 by {
                assert(crate::settings::code_at(block, k) != 0);
                if k == level {
                    assert(code != 0);
                    assert(edited[5 + 2 * k] == (code % 256) as u8);
                    assert(edited[6 + 2 * k] == (code / 256) as u8);
                } else {
                    assert(edited[5 + 2 * k] == block[5 + 2 * k]);
                    assert(edited[6 + 2 * k] == block[6 + 2 * k]);
                }
            }
        },
        _ => {
            assert(crate::settings::level_count(edited) == crate::settings::level_count(block));
            assert forall|k: int|
                0 <= k < crate::settings::level_count(edited) implies #[trigger] crate::settings::code_at(
                edited,
                k,
            ) != 0 by {
                assert(crate::settings::code_at(block, k) != 0);
                assert(edited[5 + 2 * k] == block[5 + 2 * k]);
                assert(edited[6 + 2 * k] == block[6 + 2 * k]);
            }
        },
    }
}

/// An edit that the device takes is what the shell then shows: the block in
/// memory goes to the device thread under its generation, is written with the
/// commit marker, and if the device gives it back as written, the block in
/// memory becomes it.
pub proof fn law_a_confirmed_edit_is_shown(
    s: Session,
    d: DeviceView,
    block: [u8; BLOCK_LEN],
    got: [u8; BLOCK_LEN],
)
    requires
        s.stage is Idle,
        s.link is Some,
        d.block_loaded,
        d.worker,
        d.generation < u64::MAX,
        got@ == crate::worker::committed(block@),
    ensures
        ({
            let edit = crate::device::edits_if_loaded(d, block@);
            let generation = (d.generation + 1) as u64;
            let taken = crate::session::begun(s, Command::ApplyBlock { block, generation });
            let written = crate::session::advanced(taken.session, Reply::Done(Ok(())));
            let read = crate::session::advanced(written.session, Reply::Block(Ok(got)));
            &&& edit.effects == seq![
                EffectView::Send(CommandView::ApplyBlock { block: block@, generation }),
            ]
            &&& taken.request == (Request::WriteBlock { bank: s.bank, block: got })
            &&& written.request == (Request::ReadBlock { bank: s.bank })
            &&& read.events[1] == (EventView::Block { block: got@, generation, verified: true })
            &&& crate::device::reacts(edit.state, read.events[1]).state.block == got@
        }),
{
    crate::settings::lemma_block_of_array(got);
    let generation = (d.generation + 1) as u64;
    let taken = crate::session::begun(s, Command::ApplyBlock { block, generation });
    assert(taken.session.stage == (Stage::Writing {
        block: got,
        purpose: crate::session::Purpose::Edit,
    }));
}

// ---------------------------------------------------------------------------
// what an edit does
// ---------------------------------------------------------------------------

/// Whether an edit was taken: the block is now `block`, under the next generation,
/// nothing else has changed, and the device thread, if there is one, was handed
/// exactly that block and generation.
pub open spec fn edit_taken(d: DeviceView, m: Reaction, block: Seq<u8>) -> bool {
    &&& m.state.block == block
    &&& m.state.generation == d.generation + 1
    &&& m.state == (DeviceView { block, generation: m.state.generation, ..d })
    &&& d.worker ==> m.effects == seq![
        EffectView::Send(
            CommandView::ApplyBlock { block, generation: m.state.generation },
        ),
    ]
    &&& !d.worker ==> m.effects == Seq::<EffectView>::empty()
}

/// The bytes of two blocks agree but for those from `from` up to `to`.
pub open spec fn differs_only_in(a: Seq<u8>, b: Seq<u8>, from: int, to: int) -> bool {
    a.len() == b.len() && forall|i: int|
        0 <= i < a.len() && !(from <= i < to) ==> #[trigger] a[i] == b[i]
}

/// A wanted DPI ends up in its slot as the code of the nearest step, so that a
/// step of the table is shown as it was wanted. What is not positive empties a
/// slot outside the profile, and is the first step inside it. No other byte of
/// the block changes.
pub proof fn law_a_wanted_dpi_is_stored_and_shown(
    d: DeviceView,
    device: Device,
    level: i32,
    dpi: i32,
    shown: i32,
)
    requires
        d.block.len() == BLOCK_LEN,
        d.block_loaded,
        d.generation < u64::MAX,
        0 <= level < 8,
        device@ == responds(d, Input::Dpi { level, dpi }).state,
        call_ensures(Device::dpi_value, (&device, level), shown),
    ensures
        ({
            let m = responds(d, Input::Dpi { level, dpi });
            let code = m.state.block[5 + 2 * level] + 256 * m.state.block[6 + 2 * level];
            &&& edit_taken(d, m, m.state.block)
            &&& differs_only_in(d.block, m.state.block, 5 + 2 * level, 7 + 2 * level)
            &&& 0 < dpi <= 65535 ==> crate::settings::is_nearest_code(dpi as u16, code as u16)
            &&& dpi > 65535 ==> crate::settings::is_nearest_code(65535, code as u16)
            &&& dpi <= 0 && level < crate::settings::level_count(d.block) ==> code == 1
            &&& dpi <= 0 && level >= crate::settings::level_count(d.block) ==> code == 0
            &&& (exists|k: int| 0 <= k < 59 && #[trigger] DPI_STEPS@[k] == dpi) ==> shown == dpi
            &&& dpi > 0 ==> shown == DPI_STEPS@[code - 1]
        }),
{
    let m = responds(d, Input::Dpi { level, dpi });
    let stored = crate::device::code_for(d.block, level, dpi);
    let block = crate::settings::with_code(d.block, level as int, stored);
    assert(m.state.block == block);
    assert(block[5 + 2 * level] == (stored % 256) as u8);
    assert(block[6 + 2 * level] == (stored / 256) as u8);
    assert(block[5 + 2 * level] + 256 * block[6 + 2 * level] == stored);
    if dpi > 0 {
        let want: u16 = if dpi > 65535 {
            65535
        } else {
            dpi as u16
        };
        crate::device::lemma_nearest_code(want);
        assert(stored == crate::device::nearest_code(want));
        if exists|k: int| 0 <= k < 59 && #[trigger] DPI_STEPS@[k] == dpi {
            let k = choose|k: int| 0 <= k < 59 && #[trigger] DPI_STEPS@[k] == dpi;
            crate::profile::law_table_steps_read_back((k + 1) as u16, stored);
        }
    } else if level < crate::settings::level_count(d.block) {
        crate::device::lemma_nearest_code(200);
        assert(DPI_STEPS@[0] == 200);
        assert(crate::settings::dpi_of_code(1) == 200);
        crate::profile::law_table_steps_read_back(1, stored);
        if exists|k: int| 0 <= k < 59 && #[trigger] DPI_STEPS@[k] == dpi {
            let k = choose|k: int| 0 <= k < 59 && #[trigger] DPI_STEPS@[k] == dpi;
            crate::profile::law_the_tables_hold_the_devices_values(k);
        }
    } else {
        if exists|k: int| 0 <= k < 59 && #[trigger] DPI_STEPS@[k] == dpi {
            let k = choose|k: int| 0 <= k < 59 && #[trigger] DPI_STEPS@[k] == dpi;
            crate::profile::law_the_tables_hold_the_devices_values(k);
        }
    }
}

/// A rate of the table is stored and shown, and changes no byte but that of the
/// rate; another one counts as an edit but changes none.
pub proof fn law_a_wanted_rate_is_stored_and_shown(
    d: DeviceView,
    device: Device,
    hz: i32,
    shown: i32,
)
    requires
        d.block.len() == BLOCK_LEN,
        d.block_loaded,
        d.generation < u64::MAX,
        device@ == responds(d, Input::Rate(hz)).state,
        call_ensures(Device::rate_hz, (&device,), shown),
    ensures
        ({
            let m = responds(d, Input::Rate(hz));
            &&& edit_taken(d, m, m.state.block)
            &&& differs_only_in(d.block, m.state.block, 2, 3)
            &&& m.state.block[2] / 16 == d.block[2] / 16
            &&& hz == 125 || hz == 250 || hz == 500 || hz == 1000 ==> shown == hz
            &&& 0 <= hz <= 65535 && hz != 125 && hz != 250 && hz != 500 && hz != 1000
                ==> m.state.block == d.block
            &&& -65536 <= hz < 0 ==> m == responds(d, Input::Rate((hz + 65536) as i32))
            &&& 65536 <= hz < 131072 ==> m == responds(d, Input::Rate((hz - 65536) as i32))
        }),
{
    let m = responds(d, Input::Rate(hz));
    crate::profile::law_fields_stand_in_their_bytes(m.state.block, 0);
}

/// A colour that is picked is stored in its slot and shown, changes no other byte,
/// and may be written with digits of either case and with or without the `#`.
pub proof fn law_a_picked_color_is_stored_and_shown(
    d: DeviceView,
    device: Device,
    level: i32,
    hex: Seq<char>,
    shown: String,
)
    requires
        d.block.len() == BLOCK_LEN,
        d.block_loaded,
        d.generation < u64::MAX,
        0 <= level < 8,
        device@ == responds(d, Input::Color { level, hex }).state,
        call_ensures(Device::dpi_color, (&device, level), shown),
        crate::device::color_in(hex) is Some,
    ensures
        ({
            let m = responds(d, Input::Color { level, hex });
            let rgb = crate::device::color_in(hex)->0;
            &&& edit_taken(d, m, m.state.block)
            &&& differs_only_in(d.block, m.state.block, 0x25 + 3 * level, 0x28 + 3 * level)
            &&& m.state.block.subrange(0x25 + 3 * level, 0x28 + 3 * level) == rgb
            &&& shown@ == crate::device::color_text(rgb)
        }),
{
    let m = responds(d, Input::Color { level, hex });
    let rgb = crate::device::color_in(hex)->0;
    assert(rgb.len() == 3);
    assert(m.state.block.subrange(0x25 + 3 * level, 0x28 + 3 * level) =~= rgb);
}

/// A colour is six hexadecimal digits of either case, two for each of red, green
/// and blue in this order, with a `#` in front or without; nothing else is one.
pub proof fn law_a_color_is_six_digits(text: Seq<char>)
    ensures
        ({
            let digits = if text.len() == 7 && text[0] == '#' {
                text.skip(1)
            } else {
                text
            };
            let is_hex = |c: char| '0' <= c <= '9' || 'a' <= c <= 'f' || 'A' <= c <= 'F';
            let value = |c: char|
                if c <= '9' {
                    c as int - '0' as int
                } else if c <= 'F' {
                    c as int - 'A' as int + 10
                } else {
                    c as int - 'a' as int + 10
                };
            let good = digits.len() == 6 && is_hex(digits[0]) && is_hex(digits[1]) && is_hex(
                digits[2],
            ) && is_hex(digits[3]) && is_hex(digits[4]) && is_hex(digits[5]);
            &&& crate::device::color_in(text) is Some <==> good
            &&& good ==> {
                let rgb = crate::device::color_in(text)->0;
                &&& rgb.len() == 3
                &&& rgb[0] == 16 * value(digits[0]) + value(digits[1])
                &&& rgb[1] == 16 * value(digits[2]) + value(digits[3])
                &&& rgb[2] == 16 * value(digits[4]) + value(digits[5])
            }
        }),
{
    let digits = crate::device::without_hash(text);
    if digits.len() == 6 {
        let is_hex = |c: char| '0' <= c <= '9' || 'a' <= c <= 'f' || 'A' <= c <= 'F';
        assert forall|i: int| 0 <= i < 6 implies crate::text::is_digit(#[trigger] digits[i], 16)
            == is_hex(digits[i]) by {}
        assert(crate::text::all_digits(digits, 16) <==> (is_hex(digits[0]) && is_hex(digits[1])
            && is_hex(digits[2]) && is_hex(digits[3]) && is_hex(digits[4]) && is_hex(digits[5])))
            by {
            if is_hex(digits[0]) && is_hex(digits[1]) && is_hex(digits[2]) && is_hex(digits[3])
                && is_hex(digits[4]) && is_hex(digits[5]) {
                assert forall|i: int| 0 <= i < digits.len() implies crate::text::is_digit(
                    #[trigger] digits[i],
                    16,
                ) by {
                    assert(i == 0 || i == 1 || i == 2 || i == 3 || i == 4 || i == 5);
                }
            }
        }
    }
    if text.len() == 6 && text[0] == '#' {
        assert(digits.len() == 5);
    }
}

/// The lift-off distance is stored as it is wanted, or as the nearest byte.
pub proof fn law_a_wanted_lod_is_stored_and_shown(
    d: DeviceView,
    device: Device,
    value: i32,
    shown: i32,
)
    requires
        d.block.len() == BLOCK_LEN,
        d.block_loaded,
        d.generation < u64::MAX,
        device@ == responds(d, Input::Lod(value)).state,
        call_ensures(Device::lod, (&device,), shown),
    ensures
        ({
            let m = responds(d, Input::Lod(value));
            &&& edit_taken(d, m, m.state.block)
            &&& differs_only_in(d.block, m.state.block, 0x3d, 0x3e)
            &&& 0 <= value <= 255 ==> shown == value
            &&& value < 0 ==> shown == 0
            &&& value > 255 ==> shown == 255
        }),
{
}

/// Enabling and disabling a level: the count goes up or down by one where the
/// level is the next one or one of several, and the profile gains or loses that
/// level; else the block stays, though it counts as an edit.
pub proof fn law_a_level_is_enabled_or_disabled(
    d: DeviceView,
    device: Device,
    level: i32,
    enabled: bool,
    count: i32,
)
    requires
        d.block.len() == BLOCK_LEN,
        d.block_loaded,
        d.generation < u64::MAX,
        0 <= level < 8,
        device@ == responds(d, Input::Level { level, enabled }).state,
        call_ensures(Device::enabled_levels, (&device,), count),
    ensures
        ({
            let m = responds(d, Input::Level { level, enabled });
            let before = crate::profile::profile(d.block);
            let after = crate::profile::profile(m.state.block);
            &&& edit_taken(d, m, m.state.block)
            &&& count == after.len()
            &&& enabled && level == before.len() ==> after.len() == before.len() + 1
                && after.drop_last() == before
            &&& enabled && level != before.len() ==> m.state.block == d.block
            &&& !enabled && level < before.len() && before.len() >= 2 ==> after == before.remove(
                level as int,
            )
            &&& !enabled && (level >= before.len() || before.len() < 2) ==> m.state.block == d.block
        }),
{
    let m = responds(d, Input::Level { level, enabled });
    let before = crate::profile::profile(d.block);
    let after = crate::profile::profile(m.state.block);
    let have = crate::settings::level_count(d.block);
    if enabled && level == have && have < 8 {
        crate::profile::law_addition_appends_to_the_profile(d.block);
        assert(after.drop_last() =~= before);
    }
    if !enabled && level < have && have >= 2 {
        crate::profile::law_removal_shifts_the_profile(d.block, level as u8);
    }
}

/// An input with a level that does not exist, or a text that is no colour, does
/// nothing at all; an edit before the first block does nothing but say so.
pub proof fn law_what_cannot_be_edited_is_left_alone(
    d: DeviceView,
    level: i32,
    dpi: i32,
    enabled: bool,
    hex: Seq<char>,
    value: i32,
)
    ensures
        !(0 <= level < 8) ==> {
            &&& responds(d, Input::Dpi { level, dpi }) == (Reaction {
                state: d,
                effects: Seq::empty(),
            })
            &&& responds(d, Input::Level { level, enabled }) == (Reaction {
                state: d,
                effects: Seq::empty(),
            })
            &&& responds(d, Input::Color { level, hex }) == (Reaction {
                state: d,
                effects: Seq::empty(),
            })
        },
        d.block_loaded && crate::device::color_in(hex) is None ==> responds(
            d,
            Input::Color { level, hex },
        ) == (Reaction { state: d, effects: Seq::empty() }),
        !d.block_loaded ==> ({
            let refused = Reaction {
                state: d,
                effects: seq![EffectView::Notified("Waiting for the device settings to load"@)],
            };
            &&& responds(d, Input::Rate(value)) == refused
            &&& responds(d, Input::Lod(value)) == refused
            &&& 0 <= level < 8 ==> {
                &&& responds(d, Input::Dpi { level, dpi }) == refused
                &&& responds(d, Input::Level { level, enabled }) == refused
                &&& responds(d, Input::Color { level, hex }) == refused
            }
        }),
{
}

// ---------------------------------------------------------------------------
// commands
// ---------------------------------------------------------------------------

/// What is no edit hands one command to the device thread, if there is one: the
/// command of that name, with the path as it was given, the mode brought into 1 to
/// 3, and the debounce value brought into a byte, which is also kept to be shown.
pub proof fn law_commands_are_handed_on(d: DeviceView, path: Seq<char>, value: i32)
    ensures
        ({
            let mode: u8 = if value < 1 {
                1
            } else if value > 3 {
                3
            } else {
                value as u8
            };
            let byte: u8 = if value < 0 {
                0
            } else if value > 255 {
                255
            } else {
                value as u8
            };
            let one = |command: CommandView|
                if d.worker {
                    seq![EffectView::Send(command)]
                } else {
                    Seq::<EffectView>::empty()
                };
            &&& responds(d, Input::Refresh) == (Reaction {
                state: d,
                effects: one(CommandView::Refresh),
            })
            &&& responds(d, Input::Reload) == (Reaction {
                state: d,
                effects: one(CommandView::Reload),
            })
            &&& responds(d, Input::Mode(value)) == (Reaction {
                state: d,
                effects: one(CommandView::SetMode(mode)),
            })
            &&& responds(d, Input::Debounce(value)) == (Reaction {
                state: DeviceView { debounce_value: byte as i32, ..d },
                effects: one(CommandView::SetDebounce(byte)),
            })
            &&& responds(d, Input::Backup(path)) == (Reaction {
                state: d,
                effects: one(CommandView::Backup { path }),
            })
            &&& responds(d, Input::Restore(path)) == (Reaction {
                state: d,
                effects: one(CommandView::Restore { path }),
            })
            &&& responds(d, Input::FactoryReset(path)) == (Reaction {
                state: d,
                effects: one(CommandView::FactoryReset { backup_path: path }),
            })
        }),
{
}

/// The device thread is asked for until it runs; once it runs, the device is read,
/// and at the end three seconds are given to it. If it could not be started, the
/// shell is told twice and nothing runs.
pub proof fn law_the_thread_is_started_once(d: DeviceView, text: Seq<char>)
    ensures
        responds(d, Input::Start).state == d,
        d.worker ==> responds(d, Input::Start).effects == Seq::<EffectView>::empty(),
        !d.worker ==> responds(d, Input::Start).effects == seq![EffectView::Spawn],
        responds(d, Input::Spawned(None)) == (Reaction {
            state: DeviceView { worker: true, ..d },
            effects: seq![EffectView::Send(CommandView::Reload)],
        }),
        responds(d, Input::Spawned(Some(text))).state == (DeviceView {
            status_text: "could not start the device thread: "@ + text,
            ..d
        }),
        responds(d, Input::Spawned(Some(text))).effects == seq![
            EffectView::SetStatusText("could not start the device thread: "@ + text),
            EffectView::ErrorOccurred("could not start the device thread: "@ + text),
        ],
        responds(d, Input::Shutdown).state == d,
        d.worker ==> responds(d, Input::Shutdown).effects == seq![
            EffectView::Drain { seconds: 3 },
        ],
        !d.worker ==> responds(d, Input::Shutdown).effects == Seq::<EffectView>::empty(),
{
    assert(responds(d, Input::Spawned(Some(text))).effects =~= seq![
        EffectView::SetStatusText("could not start the device thread: "@ + text),
        EffectView::ErrorOccurred("could not start the device thread: "@ + text),
    ]);
}

// ---------------------------------------------------------------------------
// events
// ---------------------------------------------------------------------------

/// A connection shows as such: the node, the ids, the text of the psd, the mode and
/// the bank in one line, and the state by whether the mouse charges.
pub proof fn law_a_connection_is_shown(
    d: DeviceView,
    path: Seq<char>,
    pid: u16,
    psd: Seq<u8>,
    mode: u8,
    bank: u8,
)
    ensures
        ({
            let m = crate::device::reacts(
                d,
                EventView::Connected { path, pid, psd, mode, bank },
            );
            let info = path + "  258a:"@ + crate::text::hex4(pid) + "  psd "@
                + crate::text::lossy_utf8(psd) + "  mode "@ + crate::text::decimal(mode as nat)
                + "  bank "@ + crate::text::decimal(bank as nat);
            let word = if d.charging {
                "Charging"@
            } else {
                "On battery"@
            };
            &&& m.state == (DeviceView {
                connected: true,
                device_info: info,
                mode: mode as i32,
                bank_value: bank as i32,
                status_text: word,
                ..d
            })
            &&& m.effects == seq![
                EffectView::SetConnected(true),
                EffectView::SetDeviceInfo(info),
                EffectView::SetMode(mode as i32),
                EffectView::SetStatusText(word),
            ]
        }),
{
    let m = crate::device::reacts(d, EventView::Connected { path, pid, psd, mode, bank });
    let info = path + "  258a:"@ + crate::text::hex4(pid) + "  psd "@ + crate::text::lossy_utf8(psd)
        + "  mode "@ + crate::text::decimal(mode as nat) + "  bank "@ + crate::text::decimal(
        bank as nat,
    );
    reveal_strlit("  ");
    reveal_strlit(":");
    reveal_strlit("  258a:");
    let head = "  "@ + crate::text::hex4(crate::protocol::VENDOR) + ":"@;
    assert(crate::protocol::VENDOR == 0x258a);
    assert(head =~= "  258a:"@);
    assert(path + "  "@ + crate::text::hex4(crate::protocol::VENDOR) + ":"@ =~= path + head);
    assert(m.state.device_info == info);
    let word = if d.charging {
        "Charging"@
    } else {
        "On battery"@
    };
    assert(m.effects =~= seq![
        EffectView::SetConnected(true),
        EffectView::SetDeviceInfo(info),
        EffectView::SetMode(mode as i32),
        EffectView::SetStatusText(word),
    ]);
}

/// A lost connection shows why, and neither a charge nor a device is shown any
/// more.
pub proof fn law_a_lost_connection_is_shown(d: DeviceView, reason: Seq<char>)
    ensures
        ({
            let m = crate::device::reacts(d, EventView::Disconnected(reason));
            &&& m.state == (DeviceView {
                connected: false,
                battery: -1i32,
                status_text: "No device: "@ + reason,
                device_info: Seq::empty(),
                ..d
            })
            &&& m.effects == seq![
                EffectView::SetConnected(false),
                EffectView::SetBattery(-1i32),
                EffectView::SetStatusText("No device: "@ + reason),
                EffectView::SetDeviceInfo(Seq::empty()),
            ]
        }),
{
    assert(crate::device::reacts(d, EventView::Disconnected(reason)).effects =~= seq![
        EffectView::SetConnected(false),
        EffectView::SetBattery(-1i32),
        EffectView::SetStatusText("No device: "@ + reason),
        EffectView::SetDeviceInfo(Seq::empty()),
    ]);
}

/// A status shows its charge, or -1 where there is none, and whether the mouse
/// charges.
pub proof fn law_a_status_is_shown(d: DeviceView, charging: bool, percent: Option<u8>)
    ensures
        ({
            let m = crate::device::reacts(d, EventView::Status { charging, percent });
            let battery = match percent {
                Some(percent) => percent as i32,
                None => -1i32,
            };
            let word = if !d.connected {
                "No device"@
            } else if charging {
                "Charging"@
            } else {
                "On battery"@
            };
            &&& m.state == (DeviceView { battery, charging, status_text: word, ..d })
            &&& m.effects == seq![
                EffectView::SetBattery(battery),
                EffectView::SetCharging(charging),
                EffectView::SetStatusText(word),
            ]
        }),
{
    let m = crate::device::reacts(d, EventView::Status { charging, percent });
    let battery = match percent {
        Some(percent) => percent as i32,
        None => -1i32,
    };
    assert(m.effects =~= seq![
        EffectView::SetBattery(battery),
        EffectView::SetCharging(charging),
        EffectView::SetStatusText(m.state.status_text),
    ]);
}

/// A verified block of the current or a later generation is taken as it is and
/// raises the change signal; of an earlier one nothing is taken.
pub proof fn law_a_verified_block_is_taken(d: DeviceView, block: Seq<u8>, generation: u64)
    ensures
        generation >= d.generation ==> crate::device::reacts(
            d,
            EventView::Block { block, generation, verified: true },
        ) == (Reaction {
            state: DeviceView { block, block_loaded: true, ..d },
            effects: seq![EffectView::BlockChanged],
        }),
        generation < d.generation ==> forall|verified: bool| #[trigger]
            crate::device::reacts(d, EventView::Block { block, generation, verified }) == (
            Reaction { state: d, effects: Seq::empty() }),
        generation >= d.generation ==> crate::device::reacts(
            d,
            EventView::Block { block, generation, verified: false },
        ).effects == (if d.worker {
            seq![
                EffectView::Notified("Read-back mismatch - reloading"@),
                EffectView::Send(CommandView::Reload),
            ]
        } else {
            seq![EffectView::Notified("Read-back mismatch - reloading"@)]
        }),
{
    if generation >= d.generation {
        let effects = crate::device::reacts(
            d,
            EventView::Block { block, generation, verified: false },
        ).effects;
        assert(effects =~= (if d.worker {
            seq![
                EffectView::Notified("Read-back mismatch - reloading"@),
                EffectView::Send(CommandView::Reload),
            ]
        } else {
            seq![EffectView::Notified("Read-back mismatch - reloading"@)]
        }));
    }
}

/// A label is shown while the session is busy, and the state again when it is not;
/// notes, errors and modes are passed on as they are.
pub proof fn law_messages_are_shown(d: DeviceView, text: Seq<char>, mode: u8)
    ensures
        ({
            let word = if !d.connected {
                "No device"@
            } else if d.charging {
                "Charging"@
            } else {
                "On battery"@
            };
            let busy = crate::device::reacts(d, EventView::Busy { busy: true, label: text });
            &&& text.len() > 0 ==> busy == (Reaction {
                state: DeviceView { status_text: text, ..d },
                effects: seq![EffectView::SetStatusText(text)],
            })
            &&& text.len() == 0 ==> busy == (Reaction { state: d, effects: Seq::empty() })
            &&& crate::device::reacts(d, EventView::Busy { busy: false, label: text }) == (Reaction {
                state: DeviceView { status_text: word, ..d },
                effects: seq![EffectView::SetStatusText(word)],
            })
            &&& crate::device::reacts(d, EventView::Note(text)) == (Reaction {
                state: d,
                effects: seq![EffectView::Notified(text)],
            })
            &&& crate::device::reacts(d, EventView::Error(text)) == (Reaction {
                state: d,
                effects: seq![EffectView::ErrorOccurred(text)],
            })
            &&& crate::device::reacts(d, EventView::Mode(mode)) == (Reaction {
                state: DeviceView { mode: mode as i32, ..d },
                effects: seq![EffectView::SetMode(mode as i32)],
            })
        }),
{
}

/// Every event reaches the device as it was published.
pub proof fn law_events_are_handed_in(d: DeviceView, event: EventView)
    ensures
        responds(d, Input::Event(event)) == crate::device::reacts(d, event),
{
}

// ---------------------------------------------------------------------------
// what is shown
// ---------------------------------------------------------------------------

/// The getters show the fields of the block by the bytes they stand in.
pub proof fn law_getters_show_the_block(
    device: Device,
    level: i32,
    index: i32,
    step: i32,
    value: i32,
    enabled: bool,
    current: i32,
    count: i32,
)
    requires
        device@.block.len() == BLOCK_LEN,
        call_ensures(Device::dpi_step, (&device, index), step),
        call_ensures(Device::dpi_value, (&device, level), value),
        call_ensures(Device::dpi_enabled, (&device, level), enabled),
        call_ensures(Device::current_level, (&device,), current),
        call_ensures(Device::enabled_levels, (&device,), count),
    ensures
        0 <= index < 59 ==> step == DPI_STEPS@[index as int],
        index >= 59 ==> step == 0,
        index < 0 ==> step == 200,
        0 <= level < 8 ==> ({
            let code = device@.block[5 + 2 * level] + 256 * device@.block[6 + 2 * level];
            value == if 1 <= code <= 59 {
                DPI_STEPS@[code - 1] as int
            } else {
                0
            }
        }),
        !(0 <= level < 8) ==> value == 0 && !enabled,
        enabled <==> 0 <= level < count,
        1 <= count <= 8,
        1 <= device@.block[3] % 16 <= 8 ==> count == device@.block[3] % 16,
        device@.block[3] >= 16 ==> current == device@.block[3] / 16 - 1,
        device@.block[3] < 16 ==> current == 0,
{
    assert(DPI_STEPS@[0] == 200);
}

/// The number of steps, and the values that are kept beside the block.
pub proof fn law_getters_show_the_rest(
    device: Device,
    steps: i32,
    debounce: i32,
    bank: i32,
    word: String,
    dump: String,
)
    requires
        call_ensures(Device::dpi_step_count, (&device,), steps),
        call_ensures(Device::debounce, (&device,), debounce),
        call_ensures(Device::bank, (&device,), bank),
        call_ensures(Device::state_text, (&device,), word),
        call_ensures(Device::block_hex, (&device,), dump),
    ensures
        steps == 59,
        debounce == device@.debounce_value,
        bank == device@.bank_value,
        word@ == if !device@.connected {
            "No device"@
        } else if device@.charging {
            "Charging"@
        } else {
            "On battery"@
        },
        dump@ == crate::settings::dump_rows(device@.block, 10),
{
}

/// A colour is shown as a `#` and two hexadecimal digits for each of red, green and
/// blue, the block's colour of a level in the same way, and no colour for a level
/// that does not exist. What is parsed is what the text writes.
pub proof fn law_colors_are_shown_and_parsed(
    rgb: [u8; 3],
    text: String,
    device: Device,
    level: i32,
    shown: String,
    hex: &str,
    parsed: Option<[u8; 3]>,
)
    requires
        device@.block.len() == BLOCK_LEN,
        call_ensures(crate::device::hex_of, (rgb,), text),
        call_ensures(Device::dpi_color, (&device, level), shown),
        call_ensures(crate::device::parse_hex, (hex,), parsed),
    ensures
        text@ == seq!['#'] + crate::text::hex2(rgb@[0]) + crate::text::hex2(rgb@[1])
            + crate::text::hex2(rgb@[2]),
        0 <= level < 8 ==> shown@ == seq!['#'] + crate::text::hex2(
            device@.block[0x25 + 3 * level],
        ) + crate::text::hex2(device@.block[0x26 + 3 * level]) + crate::text::hex2(
            device@.block[0x27 + 3 * level],
        ),
        !(0 <= level < 8) ==> shown@.len() == 0,
        parsed is Some <==> crate::device::color_in(hex@) is Some,
        parsed is Some ==> crate::device::color_in(hex@) == Some(parsed->0@),
{
    reveal_strlit("#");
    assert("#"@ =~= seq!['#']);
}

/// The rate and the lift-off distance that are shown are those of their bytes, a
/// level exists from 0 to 7, and the line about a device names its node, its ids,
/// its psd, its mode and its bank in this order.
pub proof fn law_the_shell_is_told_by_the_bytes(
    device: Device,
    rate: i32,
    lod: i32,
    level: i32,
    ok: bool,
    path: &str,
    pid: u16,
    psd: &str,
    mode: u8,
    bank: u8,
    info: String,
)
    requires
        device@.block.len() == BLOCK_LEN,
        call_ensures(Device::rate_hz, (&device,), rate),
        call_ensures(Device::lod, (&device,), lod),
        call_ensures(crate::device::level_ok, (level,), ok),
        call_ensures(crate::device::device_info_text, (path, pid, psd, mode, bank), info),
    ensures
        ({
            let nibble = device@.block[2] % 16;
            rate == if nibble == 1 {
                125int
            } else if nibble == 2 {
                250
            } else if nibble == 3 {
                500
            } else if nibble == 4 {
                1000
            } else {
                0
            }
        }),
        lod == device@.block[0x3d],
        ok <==> level == 0 || level == 1 || level == 2 || level == 3 || level == 4 || level == 5
            || level == 6 || level == 7,
        info@ == path@ + "  258a:"@ + crate::text::hex4(pid) + "  psd "@ + psd@ + "  mode "@
            + crate::text::decimal(mode as nat) + "  bank "@ + crate::text::decimal(bank as nat),
{
    crate::profile::law_fields_stand_in_their_bytes(device@.block, 0);
    reveal_strlit("  ");
    reveal_strlit(":");
    reveal_strlit("  258a:");
    let head = "  "@ + crate::text::hex4(crate::protocol::VENDOR) + ":"@;
    assert(crate::protocol::VENDOR == 0x258a);
    assert(head =~= "  258a:"@);
    assert(path@ + "  "@ + crate::text::hex4(crate::protocol::VENDOR) + ":"@ =~= path@ + head);
}

/// A device starts with nothing known of it: no block that could be written, no
/// charge, and no thread.
pub proof fn law_a_device_starts_blank(device: Device)
    requires
        call_ensures(<Device as Default>::default, (), device),
    ensures
        device@.battery == -1,
        device@.status_text == "No device"@,
        device@.generation == 0,
        !device@.connected && !device@.charging && !device@.block_loaded && !device@.worker,
        device@.mode == 0 && device@.debounce_value == 0 && device@.bank_value == 0,
        device@.device_info.len() == 0,
        device@.block.len() == 148,
        forall|i: int| 0 <= i < 148 ==> #[trigger] device@.block[i] == 0,
{
}

} // verus!
