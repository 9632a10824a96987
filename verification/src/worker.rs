//! What the device thread is asked to do, what it publishes, and the rules that
//! it works by: which charge to show, when the mouse has to re-read its active
//! level, and what a backup file must hold to be written back.
use crate::protocol::{Status, BLOCK_OFFSET, DATA_LEN, RID_DATA};
use crate::settings::{SettingsBlock, BLOCK_LEN, COMMIT_MARKER, COMMIT_OFFSET, LEVELS};
use crate::text::push_decimal;
use vstd::prelude::*;

verus! {

/// How often the idle poll reads the battery and checks whether the mouse
/// changed the profile itself (the DPI button moves the active level), in
/// seconds.
pub const POLL_INTERVAL_SECS: u64 = 5;

#[derive(Debug, PartialEq, Eq)]
pub enum Command {
    /// Status, plus the settings block when none has been loaded yet.
    Refresh,
    /// Re-read psd/mode/status/block from the device.
    Reload,
    ApplyBlock { block: [u8; BLOCK_LEN], generation: u64 },
    SetMode(u8),
    SetDebounce(u8),
    Backup { path: String },
    Restore { path: String },
    /// Write the vendor defaults, saving the current state to `backup_path` first.
    FactoryReset { backup_path: String },
    /// The Qt side is done: finish the commands already queued, then stop.
    Shutdown,
}

/// A command with its texts and bytes as sequences.
pub enum CommandView {
    Refresh,
    Reload,
    ApplyBlock { block: Seq<u8>, generation: u64 },
    SetMode(u8),
    SetDebounce(u8),
    Backup { path: Seq<char> },
    Restore { path: Seq<char> },
    FactoryReset { backup_path: Seq<char> },
    Shutdown,
}

impl View for Command {
    type V = CommandView;

    open spec fn view(&self) -> CommandView {
        match *self {
            Command::Refresh => CommandView::Refresh,
            Command::Reload => CommandView::Reload,
            Command::ApplyBlock { block, generation } => CommandView::ApplyBlock {
                block: block@,
                generation,
            },
            Command::SetMode(mode) => CommandView::SetMode(mode),
            Command::SetDebounce(value) => CommandView::SetDebounce(value),
            Command::Backup { path } => CommandView::Backup { path: path@ },
            Command::Restore { path } => CommandView::Restore { path: path@ },
            Command::FactoryReset { backup_path } => CommandView::FactoryReset {
                backup_path: backup_path@,
            },
            Command::Shutdown => CommandView::Shutdown,
        }
    }
}

#[derive(Debug, PartialEq, Eq)]
pub enum Event {
    Connected { path: String, pid: u16, psd: [u8; 4], mode: u8, bank: u8 },
    /// Why the device dropped out, e.g. "permission denied on hidraw node".
    Disconnected(String),
    /// `percent` is the charge to show, not necessarily the device's raw byte
    /// (see `charge_to_show`).
    Status { charging: bool, percent: Option<u8> },
    Block { block: [u8; BLOCK_LEN], generation: u64, verified: bool },
    Busy { busy: bool, label: String },
    Note(String),
    Mode(u8),
    Error(String),
}

/// An event with its texts and bytes as sequences.
pub enum EventView {
    Connected { path: Seq<char>, pid: u16, psd: Seq<u8>, mode: u8, bank: u8 },
    Disconnected(Seq<char>),
    Status { charging: bool, percent: Option<u8> },
    Block { block: Seq<u8>, generation: u64, verified: bool },
    Busy { busy: bool, label: Seq<char> },
    Note(Seq<char>),
    Mode(u8),
    Error(Seq<char>),
}

impl View for Event {
    type V = EventView;

    open spec fn view(&self) -> EventView {
        match *self {
            Event::Connected { path, pid, psd, mode, bank } => EventView::Connected {
                path: path@,
                pid,
                psd: psd@,
                mode,
                bank,
            },
            Event::Disconnected(reason) => EventView::Disconnected(reason@),
            Event::Status { charging, percent } => EventView::Status { charging, percent },
            Event::Block { block, generation, verified } => EventView::Block {
                block: block@,
                generation,
                verified,
            },
            Event::Busy { busy, label } => EventView::Busy { busy, label: label@ },
            Event::Note(text) => EventView::Note(text@),
            Event::Mode(mode) => EventView::Mode(mode),
            Event::Error(text) => EventView::Error(text@),
        }
    }
}

/// The views of a list of events.
pub open spec fn event_views(events: Seq<Event>) -> Seq<EventView> {
    events.map_values(|event: Event| event@)
}

// ---------------------------------------------------------------------------
// the charge
// ---------------------------------------------------------------------------

/// The charge to show after one more status.
pub open spec fn shown_charge(previous: Option<u8>, status: Status) -> Option<u8> {
    if status.state == 0x10 {
        previous
    } else {
        Some(status.percent)
    }
}

/// The charge to show: the device reports a real state of charge only while on
/// battery (charging it sent 2 for ten minutes, then 92 when unplugged), so the
/// last reading taken on battery is kept - `None` until there is one.
pub fn charge_to_show(previous: Option<u8>, status: Status) -> (charge: Option<u8>)
    ensures
        charge == shown_charge(previous, status),
{
    if status.charging() {
        previous
    } else {
        Some(status.percent)
    }
}

/// The charge to show after a series of statuses.
pub open spec fn charge_after(previous: Option<u8>, statuses: Seq<Status>) -> Option<u8>
    decreases statuses.len(),
{
    if statuses.len() == 0 {
        previous
    } else {
        shown_charge(charge_after(previous, statuses.drop_last()), statuses.last())
    }
}

/// The charge shown is the last reading taken on battery, however many
/// statuses came while charging since; without one it is what was shown before.
pub proof fn law_charge_is_the_last_battery_reading(
    previous: Option<u8>,
    statuses: Seq<Status>,
    last: int,
)
    requires
        -1 <= last < statuses.len(),
        last >= 0 ==> statuses[last].state != 0x10,
        forall|i: int| last < i < statuses.len() ==> #[trigger] statuses[i].state == 0x10,
    ensures
        charge_after(previous, statuses) == if last >= 0 {
            Some(statuses[last].percent)
        } else {
            previous
        },
    decreases statuses.len(),
{
    if statuses.len() > 0 && last < statuses.len() - 1 {
        law_charge_is_the_last_battery_reading(previous, statuses.drop_last(), last);
    }
}

// ---------------------------------------------------------------------------
// the active level
// ---------------------------------------------------------------------------

/// Whether the settings of the level that `next` has active differ.
pub open spec fn level_changed(previous: Seq<u8>, next: Seq<u8>) -> bool {
    let level = crate::settings::level_index(next) as int;
    crate::settings::color_at(previous, level) != crate::settings::color_at(next, level)
        || crate::settings::code_at(previous, level) != crate::settings::code_at(next, level)
}

/// Whether the active level's own settings changed.
pub fn needs_refresh(previous: &SettingsBlock, next: &SettingsBlock) -> (yes: bool)
    ensures
        yes == level_changed(previous@, next@),
{
    let level = next.active_index();
    let before = previous.color(level);
    let after = next.color(level);
    proof {
        assert(before@ =~= after@ <==> (before@[0] == after@[0] && before@[1] == after@[1]
            && before@[2] == after@[2]));
    }
    before[0] != after[0] || before[1] != after[1] || before[2] != after[2] || previous.dpi_code(
        level,
    ) != next.dpi_code(level)
}

/// The block with another level selected for the length of one write: the
/// first level, or the second where the first one is active.
pub open spec fn with_other_level(block: Seq<u8>) -> Seq<u8> {
    let other: int = if block[3] / 16 <= 1 {
        2
    } else {
        1
    };
    block.update(3, (other * 16 + block[3] % 16) as u8)
}

/// The block that selects another level; there is none if the profile has no
/// second level.
pub fn other_level_block(block: &[u8; BLOCK_LEN]) -> (scratch: Option<[u8; BLOCK_LEN]>)
    ensures
        match scratch {
            Some(other) => block@[3] % 16 >= 2 && other@ == with_other_level(block@),
            None => block@[3] % 16 < 2,
        },
{
    let count = block[3] % 16;
    if count < 2 {
        return None;
    }
    // Level numbers in the block are 1-based.
    let other: u8 = if block[3] / 16 <= 1 {
        2
    } else {
        1
    };
    let mut scratch = *block;
    scratch[3] = other * 16 + count;
    Some(scratch)
}

/// The block with the marker without which the device does not make it live.
pub open spec fn committed(block: Seq<u8>) -> Seq<u8> {
    block.update(COMMIT_OFFSET as int, COMMIT_MARKER)
}

/// The block to write for an edit: every write is a profile save.
pub fn commit(block: [u8; BLOCK_LEN]) -> (marked: [u8; BLOCK_LEN])
    ensures
        marked@ == committed(block@),
{
    let mut marked = block;
    marked[COMMIT_OFFSET] = COMMIT_MARKER;
    marked
}

/// Whether two blocks hold the same bytes.
pub fn same_block(a: &[u8; BLOCK_LEN], b: &[u8; BLOCK_LEN]) -> (same: bool)
    ensures
        same == (a@ == b@),
{
    let mut i: usize = 0;
    while i < BLOCK_LEN
        invariant
            i <= BLOCK_LEN,
            forall|k: int| 0 <= k < i ==> #[trigger] a@[k] == b@[k],
        decreases BLOCK_LEN - i,
    {
        if a[i] != b[i] {
            return false;
        }
        i += 1;
    }
    proof {
        assert(a@ =~= b@);
    }
    true
}

// ---------------------------------------------------------------------------
// restoring a file
// ---------------------------------------------------------------------------

/// Why a file cannot be restored; `None` if it can be. Only a raw data report
/// is accepted whose level nibbles describe a profile.
pub open spec fn restore_fault(path: Seq<char>, data: Seq<u8>) -> Option<Seq<char>> {
    if data.len() != DATA_LEN {
        Some(
            "restore failed: "@ + path + " is "@ + crate::text::decimal(data.len())
                + " bytes, not a 520-byte data report"@,
        )
    } else if data[0] != RID_DATA {
        Some("restore failed: "@ + path + " does not start with data report 0x08"@)
    } else {
        let levels = crate::protocol::block_in(data)[3] % 16;
        let active = crate::protocol::block_in(data)[3] / 16;
        if 1 <= active <= levels <= LEVELS {
            None
        } else {
            Some(
                "restore failed: "@ + path + " describes "@ + crate::text::decimal(levels as nat)
                    + " levels with level "@ + crate::text::decimal(active as nat) + " active"@,
            )
        }
    }
}

/// A DPI code brought into the sensor's table.
pub open spec fn clamped_code(code: u16) -> u16 {
    if code > 59 {
        59
    } else {
        code
    }
}

/// The block with its DPI codes brought into the sensor's table.
pub open spec fn with_clamped_codes(block: Seq<u8>) -> Seq<u8> {
    Seq::new(
        block.len(),
        |i: int|
            if 5 <= i < 21 {
                let code = clamped_code(crate::settings::code_at(block, (i - 5) / 2));
                if (i - 5) % 2 == 0 {
                    (code % 256) as u8
                } else {
                    (code / 256) as u8
                }
            } else {
                block[i]
            },
    )
}

/// The block that restoring a file writes.
pub open spec fn restored_bytes(data: Seq<u8>) -> Seq<u8> {
    with_clamped_codes(crate::protocol::block_in(data))
}

fn clamp_codes(block: [u8; BLOCK_LEN]) -> (clamped: [u8; BLOCK_LEN])
    ensures
        clamped@ == with_clamped_codes(block@),
{
    let mut restored = SettingsBlock::new(block);
    let mut level: u8 = 0;
    while level < LEVELS
        invariant
            level <= LEVELS,
            restored@.len() == BLOCK_LEN,
            forall|i: int|
                0 <= i < BLOCK_LEN ==> #[trigger] restored@[i] == (if i < 5 + 2 * level {
                    with_clamped_codes(block@)[i]
                } else {
                    block@[i]
                }),
        decreases LEVELS - level,
    {
        let code = restored.dpi_code(level);
        proof {
            assert(restored@[5 + 2 * level] == block@[5 + 2 * level]);
            assert(restored@[6 + 2 * level] == block@[6 + 2 * level]);
            assert((5 + 2 * level - 5) / 2 == level && (6 + 2 * level - 5) / 2 == level);
        }
        restored.set_dpi_code(
            level,
            if code > 59 {
                59
            } else {
                code
            },
        );
        level += 1;
    }
    proof {
        assert(restored@ =~= with_clamped_codes(block@));
    }
    *restored.raw()
}

fn length_fault(path: &str, len: usize) -> (text: String)
    ensures
        text@ == "restore failed: "@ + path@ + " is "@ + crate::text::decimal(len as nat)
            + " bytes, not a 520-byte data report"@,
{
    let mut text = String::new();
    text.append("restore failed: ");
    text.append(path);
    text.append(" is ");
    push_decimal(&mut text, len as u64);
    text.append(" bytes, not a 520-byte data report");
    proof {
        assert(text@ =~= "restore failed: "@ + path@ + " is "@ + crate::text::decimal(len as nat)
            + " bytes, not a 520-byte data report"@);
    }
    text
}

fn levels_fault(path: &str, levels: u8, active: u8) -> (text: String)
    ensures
        text@ == "restore failed: "@ + path@ + " describes "@ + crate::text::decimal(
            levels as nat,
        ) + " levels with level "@ + crate::text::decimal(active as nat) + " active"@,
{
    let mut text = String::new();
    text.append("restore failed: ");
    text.append(path);
    text.append(" describes ");
    push_decimal(&mut text, levels as u64);
    text.append(" levels with level ");
    push_decimal(&mut text, active as u64);
    text.append(" active");
    proof {
        assert(text@ =~= "restore failed: "@ + path@ + " describes "@ + crate::text::decimal(
            levels as nat,
        ) + " levels with level "@ + crate::text::decimal(active as nat) + " active"@);
    }
    text
}

/// The block that a backup file holds, or why it cannot be restored. The file is
/// a raw data report whose block is written verbatim, so only exactly that shape
/// is accepted; the DPI codes alone are brought into the sensor's table, so that
/// the device cannot hold a state the UI cannot show.
pub fn restored_block(path: &str, data: &Vec<u8>) -> (block: Result<[u8; BLOCK_LEN], String>)
    ensures
        match restore_fault(path@, data@) {
            Some(fault) => block matches Err(text) && text@ == fault,
            None => block matches Ok(b) && b@ == restored_bytes(data@),
        },
{
    if data.len() != DATA_LEN {
        return Err(length_fault(path, data.len()));
    }
    if data[0] != RID_DATA {
        let mut text = String::new();
        text.append("restore failed: ");
        text.append(path);
        text.append(" does not start with data report 0x08");
        proof {
            assert(text@ =~= restore_fault(path@, data@)->0);
        }
        return Err(text);
    }
    let mut block = [0u8; BLOCK_LEN];
    let mut i: usize = 0;
    while i < BLOCK_LEN
        invariant
            i <= BLOCK_LEN,
            data@.len() == DATA_LEN,
            forall|k: int| 0 <= k < i ==> #[trigger] block@[k] == data@[BLOCK_OFFSET + k],
        decreases BLOCK_LEN - i,
    {
        block[i] = data[BLOCK_OFFSET + i];
        i += 1;
    }
    proof {
        assert(block@ =~= crate::protocol::block_in(data@));
    }
    // The level nibbles have to describe a profile this app can represent.
    let levels = block[3] % 16;
    let active = block[3] / 16;
    if levels == 0 || levels > LEVELS || active == 0 || active > levels {
        return Err(levels_fault(path, levels, active));
    }
    Ok(clamp_codes(block))
}

/// A file is restored verbatim but for DPI codes outside the sensor's table: all
/// other bytes of its block stay, and every level slot ends up with a code of
/// the table, its own where that is one.
pub proof fn law_restore_is_verbatim_but_for_unknown_codes(path: Seq<char>, data: Seq<u8>)
    requires
        restore_fault(path, data) is None,
    ensures
        restored_bytes(data).len() == BLOCK_LEN,
        forall|i: int|
            0 <= i < BLOCK_LEN && !(5 <= i < 21) ==> #[trigger] restored_bytes(data)[i]
                == crate::protocol::block_in(data)[i],
        forall|level: int|
            0 <= level < LEVELS ==> {
                let code = crate::settings::code_at(crate::protocol::block_in(data), level);
                #[trigger] crate::settings::code_at(restored_bytes(data), level) == if code > 59 {
                    59
                } else {
                    code
                }
            },
        1 <= crate::settings::level_number(restored_bytes(data)) <= crate::settings::level_count(
            restored_bytes(data),
        ),
{
    let block = crate::protocol::block_in(data);
    let out = restored_bytes(data);
    assert forall|level: int| 0 <= level < LEVELS implies {
        let code = crate::settings::code_at(block, level);
        #[trigger] crate::settings::code_at(out, level) == if code > 59 {
            59
        } else {
            code
        }
    } by {
        assert((5 + 2 * level - 5) / 2 == level && (6 + 2 * level - 5) / 2 == level);
        assert(out[5 + 2 * level] == (clamped_code(crate::settings::code_at(block, level))
            % 256) as u8);
        assert(out[6 + 2 * level] == (clamped_code(crate::settings::code_at(block, level))
            / 256) as u8);
    }
}

/// Restoring what was saved of a device whose codes are in the table writes the
/// saved block back, byte for byte.
pub proof fn law_backup_restores_the_saved_block(path: Seq<char>, data: Seq<u8>)
    requires
        restore_fault(path, data) is None,
        forall|level: int|
            0 <= level < LEVELS ==> #[trigger] crate::settings::code_at(
                crate::protocol::block_in(data),
                level,
            ) <= 59,
    ensures
        restored_bytes(data) == crate::protocol::block_in(data),
{
    let block = crate::protocol::block_in(data);
    assert forall|i: int| 0 <= i < BLOCK_LEN implies #[trigger] restored_bytes(data)[i]
        == block[i] by {
        if 5 <= i < 21 {
            let level = (i - 5) / 2;
            assert(crate::settings::code_at(block, level) <= 59);
            assert(i == 5 + 2 * level || i == 6 + 2 * level);
        }
    }
    assert(restored_bytes(data) =~= block);
}

/// What follows from one step of the device thread: whether it goes on, and what
/// it publishes first. `None` stands for a step that was cut short by a panic:
/// without saying so, the app would look alive while every later edit was
/// dropped on the floor.
pub fn after_step(step: Option<bool>) -> (next: (Vec<Event>, bool))
    ensures
        next.1 == (step == Some(true)),
        event_views(next.0@) == match step {
            Some(_) => Seq::<EventView>::empty(),
            None => seq![
                EventView::Error("internal error in the device thread; restart the app"@),
            ],
        },
{
    let mut events: Vec<Event> = Vec::new();
    let running = match step {
        Some(running) => running,
        None => {
            events.push(
                Event::Error("internal error in the device thread; restart the app".to_string()),
            );
            false
        },
    };
    proof {
        assert(event_views(events@) =~= match step {
            Some(_) => Seq::<EventView>::empty(),
            None => seq![
                EventView::Error("internal error in the device thread; restart the app"@),
            ],
        });
    }
    (events, running)
}

/// A file is restored exactly if it has 520 bytes, starts with report id 8, and the
/// nibbles in its byte 11 name a level of a profile of one to eight levels. The
/// reason why not names the file and what it holds.
pub proof fn law_only_a_saved_profile_is_restored(path: Seq<char>, data: Seq<u8>)
    ensures
        restore_fault(path, data) is None <==> {
            &&& data.len() == 520
            &&& data[0] == 8
            &&& 1 <= data[11] / 16 <= data[11] % 16
            &&& data[11] % 16 <= 8
        },
        data.len() != 520 ==> restore_fault(path, data) == Some(
            "restore failed: "@ + path + " is "@ + crate::text::decimal(data.len())
                + " bytes, not a 520-byte data report"@,
        ),
        data.len() == 520 && data[0] != 8 ==> restore_fault(path, data) == Some(
            "restore failed: "@ + path + " does not start with data report 0x08"@,
        ),
        data.len() == 520 && data[0] == 8 && restore_fault(path, data) is Some ==> restore_fault(
            path,
            data,
        ) == Some(
            "restore failed: "@ + path + " describes "@ + crate::text::decimal(
                (data[11] % 16) as nat,
            ) + " levels with level "@ + crate::text::decimal((data[11] / 16) as nat)
                + " active"@,
        ),
{
    if data.len() == 520 {
        assert(crate::protocol::block_in(data)[3] == data[11]);
    }
}

/// The commit marker is 0xa5 in byte 0x90, and setting it changes nothing else;
/// the intermediate level differs from the active one and changes the active
/// number alone.
pub proof fn law_marks_and_switches_change_one_byte(block: Seq<u8>)
    requires
        block.len() == BLOCK_LEN,
    ensures
        committed(block) == block.update(0x90, 0xa5),
        forall|i: int|
            0 <= i < BLOCK_LEN && i != 3 ==> #[trigger] with_other_level(block)[i] == block[i],
        with_other_level(block)[3] % 16 == block[3] % 16,
        with_other_level(block)[3] / 16 == if block[3] / 16 >= 2 {
            1int
        } else {
            2
        },
{
}

/// The mouse has to re-read its active level exactly if its slot holds another code
/// or another colour than before; another slot does not matter.
pub proof fn law_only_the_active_slot_asks_for_a_refresh(
    previous: SettingsBlock,
    next: SettingsBlock,
    yes: bool,
)
    requires
        call_ensures(needs_refresh, (&previous, &next), yes),
        previous@.len() == BLOCK_LEN,
        next@.len() == BLOCK_LEN,
    ensures
        ({
            let level = if next@[3] < 16 {
                0
            } else {
                next@[3] / 16 - 1
            };
            yes <==> !(previous@.subrange(5 + 2 * level, 7 + 2 * level) == next@.subrange(
                5 + 2 * level,
                7 + 2 * level,
            ) && previous@.subrange(0x25 + 3 * level, 0x28 + 3 * level) == next@.subrange(
                0x25 + 3 * level,
                0x28 + 3 * level,
            ))
        }),
{
    let level = if next@[3] < 16 {
        0
    } else {
        next@[3] / 16 - 1
    };
    let a = previous@.subrange(5 + 2 * level, 7 + 2 * level);
    let b = next@.subrange(5 + 2 * level, 7 + 2 * level);
    assert(a[0] == previous@[5 + 2 * level] && a[1] == previous@[6 + 2 * level]);
    assert(b[0] == next@[5 + 2 * level] && b[1] == next@[6 + 2 * level]);
    assert(a =~= b <==> a[0] == b[0] && a[1] == b[1]);
}

/// One status on battery is shown as it is; one while charging shows what was
/// shown before.
pub proof fn law_a_charge_is_read_on_battery(
    previous: Option<u8>,
    status: Status,
    charge: Option<u8>,
)
    requires
        call_ensures(charge_to_show, (previous, status), charge),
    ensures
        charge == shown_charge(previous, status),
        status.state == 0x10 ==> charge == previous,
        status.state != 0x10 ==> charge == Some(status.percent),
{
}

/// The thread goes on only after a step that says so, and only a step that was cut
/// short is reported.
pub proof fn law_the_thread_goes_on_after_a_good_step(step: Option<bool>, next: (Vec<Event>, bool))
    requires
        call_ensures(after_step, (step,), next),
    ensures
        next.1 <==> step == Some(true),
        step is Some ==> event_views(next.0@).len() == 0,
        step is None ==> event_views(next.0@) == seq![
            EventView::Error("internal error in the device thread; restart the app"@),
        ],
{
}

/// A restored block holds the file's bytes behind its head, but for a DPI code above
/// 59, which becomes 59; a file that is refused is refused with the reason.
pub proof fn law_a_restored_block_is_the_files(
    path: &str,
    data: Vec<u8>,
    block: Result<[u8; BLOCK_LEN], String>,
    i: int,
    level: int,
)
    requires
        call_ensures(restored_block, (path, &data), block),
        0 <= i < 148,
        0 <= level < 8,
    ensures
        block is Ok <==> restore_fault(path@, data@) is None,
        block is Ok && !(5 <= i < 21) ==> block->Ok_0@[i] == data@[8 + i],
        block is Ok && data@[13 + 2 * level] <= 59 && data@[14 + 2 * level] == 0
            ==> block->Ok_0@[5 + 2 * level] == data@[13 + 2 * level],
        block is Ok && (data@[13 + 2 * level] > 59 || data@[14 + 2 * level] > 0)
            ==> block->Ok_0@[5 + 2 * level] == 59,
        block is Ok ==> block->Ok_0@[6 + 2 * level] == 0,
        block matches Err(text) ==> restore_fault(path@, data@) == Some(text@),
{
    if block is Ok {
        let bytes = crate::protocol::block_in(data@);
        assert((5 + 2 * level - 5) / 2 == level && (6 + 2 * level - 5) / 2 == level);
        assert(bytes[i] == data@[8 + i]);
        assert(bytes[5 + 2 * level] == data@[13 + 2 * level]);
        assert(bytes[6 + 2 * level] == data@[14 + 2 * level]);
    }
}

/// A profile of one level has no other level to switch to; any other profile has,
/// and it differs in the active number alone. A commit sets one byte, and blocks are
/// the same only if all their bytes are.
pub proof fn law_blocks_are_switched_and_compared_by_bytes(
    block: [u8; BLOCK_LEN],
    other: [u8; BLOCK_LEN],
    scratch: Option<[u8; BLOCK_LEN]>,
    marked: [u8; BLOCK_LEN],
    same: bool,
    i: int,
)
    requires
        call_ensures(other_level_block, (&block,), scratch),
        call_ensures(commit, (block,), marked),
        call_ensures(same_block, (&block, &other), same),
        0 <= i < 148,
    ensures
        scratch is Some <==> block@[3] % 16 >= 2,
        scratch matches Some(away) ==> away@[3] % 16 == block@[3] % 16 && away@[3] / 16
            != block@[3] / 16 && 1 <= away@[3] / 16 <= 2 && (i != 3 ==> away@[i] == block@[i]),
        marked@[0x90] == 0xa5,
        i != 0x90 ==> marked@[i] == block@[i],
        same ==> block@[i] == other@[i],
        block@[i] != other@[i] ==> !same,
        block@ == other@ ==> same,
{
}

} // verus!
