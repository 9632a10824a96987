//! The session with the device: what the device thread does for one command,
//! one request to the outside at a time.
//!
//! A session says what it wants done next (a [`Request`]) and what to publish
//! before that; whoever owns the node does it and hands the [`Reply`] back,
//! until the request is that the command is finished. What a command does is
//! written down as a function from the session and the reply to the session
//! after it, the events and the next request.
use crate::protocol::{Error, Status, DATA_LEN};
use crate::settings::{SettingsBlock, BLOCK_LEN};
use crate::text::push_decimal;
use crate::worker::{
    charge_to_show, commit, needs_refresh, other_level_block, restored_block, same_block, Command,
    Event, EventView,
};
use vstd::prelude::*;

verus! {

/// The node that a session talks to.
pub struct Link {
    pub path: String,
    pub pid: u16,
}

/// What is to be done once the device is connected.
pub enum Job {
    /// Battery, plus anything the mouse changed on its own: pressing the DPI
    /// button writes the new active level into the profile block.
    Poll,
    /// Battery, plus the block where none has been loaded yet.
    Refresh,
    Reload,
    Apply { block: [u8; BLOCK_LEN] },
    SetMode { mode: u8 },
    SetDebounce { value: u8 },
    Backup { path: String },
    Restore { path: String },
    FactoryReset { backup_path: String },
}

/// What a profile is written for.
pub enum Purpose {
    Edit,
    Restore { path: String },
    FactoryReset { backup_path: String },
}

/// What a profile is read for.
pub enum Reader {
    Poll,
    Reload { mode: Option<u8>, status: Option<Status> },
    /// To compare it with the block that was written.
    ReadBack { block: [u8; BLOCK_LEN], purpose: Purpose },
    FactoryReset { backup_path: String },
}

/// A node that was found, and the job that is waiting for it.
pub struct Found {
    pub path: String,
    pub pid: u16,
    pub job: Job,
}

/// What the session is waiting for.
pub enum Stage {
    Idle,
    Finding { job: Job },
    Opening { found: Found },
    Granting { found: Found },
    Reopening { found: Found },
    Identifying { found: Found },
    AskingMode { found: Found, psd: [u8; 4] },
    ProbingPrimary { found: Found, psd: [u8; 4], mode: u8 },
    ProbingOther { found: Found, psd: [u8; 4], mode: u8 },
    Polling,
    Refreshing,
    ReloadingPsd,
    ReloadingMode,
    ReloadingStatus { new_mode: Option<u8> },
    Reading { reader: Reader },
    ReadingOther { reader: Reader, first: Error },
    Writing { block: [u8; BLOCK_LEN], purpose: Purpose },
    SwitchingAway { block: [u8; BLOCK_LEN], purpose: Purpose },
    Settling { block: [u8; BLOCK_LEN], purpose: Purpose },
    SwitchingBack { block: [u8; BLOCK_LEN], purpose: Purpose },
    SettingMode { mode: u8, reset: Option<String> },
    CheckingMode { mode: u8, reset: Option<String> },
    SettingDebounce { value: u8 },
    BackupReading { path: String },
    BackupSaving { path: String },
    RestoreLoading { path: String },
    ResetReading { backup_path: String },
    ResetSaving { backup_path: String },
}

/// What the session wants done.
#[derive(Debug, PartialEq, Eq)]
pub enum Request {
    /// Find the node that carries the vendor control reports.
    FindNode,
    OpenNode { path: String },
    /// Ask polkit for read and write access to the node.
    GrantAccess { path: String },
    ReadPsd,
    ReadMode,
    ReadStatus,
    ReadBlock { bank: u8 },
    ReadReport { bank: u8 },
    WriteBlock { bank: u8, block: [u8; BLOCK_LEN] },
    SetMode { mode: u8 },
    SetDebounce { value: u8 },
    SaveFile { path: String, data: [u8; DATA_LEN] },
    LoadFile { path: String },
    Pause { millis: u64 },
    /// The command is done; the thread goes on or stops.
    Finished { running: bool },
}

/// What came of a request.
pub enum Reply {
    Node(Result<(String, u16), Error>),
    /// Of opening, granting, writing and setting.
    Done(Result<(), Error>),
    Psd(Result<[u8; 4], Error>),
    Mode(Result<u8, Error>),
    Status(Result<Status, Error>),
    Block(Result<[u8; BLOCK_LEN], Error>),
    Report(Result<[u8; DATA_LEN], Error>),
    Saved(Result<(), String>),
    Loaded(Result<Vec<u8>, String>),
    Paused,
}

/// What to publish, and then to do.
pub struct Turn {
    pub events: Vec<Event>,
    pub request: Request,
}

pub struct Session {
    /// The open node; `None` while disconnected.
    pub link: Option<Link>,
    pub psd: [u8; 4],
    pub bank: u8,
    /// Whether a successful read confirmed `bank`: a probe that failed at
    /// connect says nothing about which bank the unit has.
    pub bank_confirmed: bool,
    /// Whether the single polkit prompt has been used up for this session.
    pub access_requested: bool,
    pub generation: u64,
    /// The last state of charge the device reported while on battery.
    pub last_percent: Option<u8>,
    /// The last block the device confirmed, to spot active-level edits.
    pub last_block: Option<[u8; BLOCK_LEN]>,
    pub stage: Stage,
}

// ---------------------------------------------------------------------------
// what a session does
// ---------------------------------------------------------------------------

/// A session after a step, with what it publishes and asks for.
pub struct Moved {
    pub session: Session,
    pub events: Seq<EventView>,
    pub request: Request,
}

pub open spec fn asked(s: Session, ev: Seq<EventView>, stage: Stage, request: Request) -> Moved {
    Moved { session: Session { stage, ..s }, events: ev, request }
}

pub open spec fn finished(s: Session, ev: Seq<EventView>) -> Moved {
    asked(s, ev, Stage::Idle, Request::Finished { running: true })
}

pub open spec fn busy(label: Seq<char>) -> EventView {
    EventView::Busy { busy: true, label }
}

pub open spec fn not_busy() -> EventView {
    EventView::Busy { busy: false, label: Seq::empty() }
}

/// The session after an error: a fatal one closes the node.
pub open spec fn without_dead_link(s: Session, e: Error) -> Session {
    if crate::protocol::error_is_fatal(e) {
        Session { link: None, ..s }
    } else {
        s
    }
}

/// How an error is reported: a fatal one as the end of the connection, another
/// one as the failure of what was tried.
pub open spec fn error_event(context: Seq<char>, e: Error) -> EventView {
    if crate::protocol::error_is_fatal(e) {
        EventView::Disconnected(crate::protocol::error_text(e))
    } else {
        EventView::Error(context + ": "@ + crate::protocol::error_text(e))
    }
}

/// A command that ends with an error.
pub open spec fn failed(s: Session, ev: Seq<EventView>, context: Seq<char>, e: Error) -> Moved {
    finished(without_dead_link(s, e), ev.push(error_event(context, e)))
}

/// A connection attempt that ends with an error.
pub open spec fn not_connected(s: Session, e: Error) -> Moved {
    finished(
        Session { link: None, ..s },
        seq![EventView::Disconnected(crate::protocol::error_text(e))],
    )
}

/// The bank that a unit has first of all, by its product id.
pub open spec fn primary_bank(pid: u16) -> u8 {
    if pid == 0x002e {
        1
    } else {
        2
    }
}

/// The bank to try where one does not answer.
pub open spec fn other_bank(bank: u8) -> u8 {
    if bank == 1 {
        2
    } else {
        1
    }
}

pub open spec fn read_profile(s: Session, ev: Seq<EventView>, reader: Reader) -> Moved {
    asked(s, ev, Stage::Reading { reader }, Request::ReadBlock { bank: s.bank })
}

pub open spec fn write_profile(
    s: Session,
    ev: Seq<EventView>,
    block: Seq<u8>,
    purpose: Purpose,
) -> Moved {
    let marked = crate::settings::block_of(crate::worker::committed(block));
    asked(
        s,
        ev.push(busy("Writing settings"@)),
        Stage::Writing { block: marked, purpose },
        Request::WriteBlock { bank: s.bank, block: marked },
    )
}

/// The first request of a job on a connected device.
pub open spec fn job_started(s: Session, ev: Seq<EventView>, job: Job) -> Moved {
    match job {
        Job::Poll => asked(s, ev, Stage::Polling, Request::ReadStatus),
        Job::Refresh => asked(s, ev, Stage::Refreshing, Request::ReadStatus),
        Job::Reload => asked(s, ev, Stage::ReloadingPsd, Request::ReadPsd),
        Job::Apply { block } => write_profile(s, ev, block@, Purpose::Edit),
        Job::SetMode { mode } => asked(
            s,
            ev,
            Stage::SettingMode { mode, reset: None },
            Request::SetMode { mode },
        ),
        Job::SetDebounce { value } => asked(
            s,
            ev,
            Stage::SettingDebounce { value },
            Request::SetDebounce { value },
        ),
        Job::Backup { path } => asked(
            s,
            ev.push(busy("Reading backup"@)),
            Stage::BackupReading { path },
            Request::ReadReport { bank: s.bank },
        ),
        Job::Restore { path } => asked(
            s,
            ev,
            Stage::RestoreLoading { path },
            Request::LoadFile { path },
        ),
        Job::FactoryReset { backup_path } => asked(
            s,
            ev.push(busy("Restoring factory defaults"@)),
            Stage::ResetReading { backup_path },
            Request::ReadReport { bank: s.bank },
        ),
    }
}

/// The first request of a job: it starts with finding the node where none is
/// open.
pub open spec fn job_taken(s: Session, job: Job) -> Moved {
    if s.link is Some {
        job_started(s, Seq::empty(), job)
    } else {
        asked(s, Seq::empty(), Stage::Finding { job }, Request::FindNode)
    }
}

/// The session once the node has answered; `probe` is the block that was read.
/// The block is handed over at once: the consumer has no other copy, and waiting
/// for a change would leave it on a placeholder that it could then write back.
pub open spec fn connected(
    s: Session,
    found: Found,
    psd: [u8; 4],
    mode: u8,
    bank: u8,
    probe: Option<[u8; BLOCK_LEN]>,
) -> Moved {
    let open = Session {
        link: Some(Link { path: found.path, pid: found.pid }),
        psd,
        bank,
        bank_confirmed: probe is Some,
        last_block: probe,
        ..s
    };
    let hello = seq![
        EventView::Connected { path: found.path@, pid: found.pid, psd: psd@, mode, bank },
    ].push(EventView::Mode(mode));
    let ev = match probe {
        Some(block) => hello.push(
            EventView::Block { block: block@, generation: s.generation, verified: true },
        ),
        None => hello,
    };
    job_started(open, ev, found.job)
}

pub open spec fn status_event(s: Session, status: Status) -> EventView {
    EventView::Status {
        charging: status.state == 0x10,
        percent: crate::worker::shown_charge(s.last_percent, status),
    }
}

pub open spec fn with_status(s: Session, status: Status) -> Session {
    Session { last_percent: crate::worker::shown_charge(s.last_percent, status), ..s }
}

/// The session and the events once a reload has its mode and status.
pub open spec fn reloaded(s: Session, mode: Option<u8>, status: Option<Status>) -> (
    Session,
    Seq<EventView>,
) {
    let ev = match mode {
        Some(mode) => seq![EventView::Mode(mode)],
        None => Seq::empty(),
    };
    match status {
        Some(status) => (with_status(s, status), ev.push(status_event(s, status))),
        None => (s, ev),
    }
}

/// What is published of a write that did not succeed.
pub open spec fn with_refusal(ev: Seq<EventView>, purpose: Purpose) -> Seq<EventView> {
    match purpose {
        Purpose::Edit => ev,
        Purpose::Restore { path } => ev.push(
            EventView::Error("restore of "@ + path@ + " failed"@),
        ),
        Purpose::FactoryReset { .. } => ev.push(
            EventView::Error("factory defaults were not accepted by the device"@),
        ),
    }
}

/// The end of a write that the device confirmed.
pub open spec fn accepted(s: Session, ev: Seq<EventView>, purpose: Purpose) -> Moved {
    match purpose {
        Purpose::Edit => finished(s, ev),
        Purpose::Restore { path } => finished(
            s,
            ev.push(EventView::Note("Settings restored from "@ + path@)),
        ),
        Purpose::FactoryReset { backup_path } => asked(
            s,
            ev,
            Stage::SettingMode { mode: 2, reset: Some(backup_path) },
            Request::SetMode { mode: 2 },
        ),
    }
}

/// What follows when a written block has been read back: the device confirmed
/// it only if it gave the exact bytes back, and re-reads its active level only
/// if it is switched away and back.
pub open spec fn read_back(
    s: Session,
    block: [u8; BLOCK_LEN],
    purpose: Purpose,
    got: [u8; BLOCK_LEN],
) -> Moved {
    let verified = got@ == block@;
    let ev = seq![not_busy()].push(
        EventView::Block { block: got@, generation: s.generation, verified },
    );
    let next = Session { last_block: Some(got), ..s };
    let refresh = s.last_block matches Some(previous) && crate::worker::level_changed(
        previous@,
        got@,
    );
    if !verified {
        finished(next, with_refusal(ev, purpose))
    } else if refresh && block@[3] % 16 >= 2 {
        asked(
            next,
            ev,
            Stage::SwitchingAway { block, purpose },
            Request::WriteBlock {
                bank: s.bank,
                block: crate::settings::block_of(crate::worker::with_other_level(block@)),
            },
        )
    } else {
        accepted(next, ev, purpose)
    }
}

/// What follows when a profile has been read.
pub open spec fn profile_read(s: Session, reader: Reader, got: [u8; BLOCK_LEN]) -> Moved {
    match reader {
        Reader::Poll => if s.last_block matches Some(last) && last@ == got@ {
            finished(s, Seq::empty())
        } else {
            finished(
                Session { last_block: Some(got), ..s },
                seq![
                    EventView::Block { block: got@, generation: s.generation, verified: true },
                ],
            )
        },
        Reader::Reload { mode, status } => {
            let (next, ev) = reloaded(s, mode, status);
            finished(
                Session { last_block: Some(got), ..next },
                ev.push(
                    EventView::Block { block: got@, generation: s.generation, verified: true },
                ),
            )
        },
        Reader::ReadBack { block, purpose } => read_back(s, block, purpose, got),
        Reader::FactoryReset { backup_path } => write_profile(
            Session { generation: (s.generation + 1) as u64, ..s },
            Seq::empty(),
            crate::settings::factory_bytes(got@),
            Purpose::FactoryReset { backup_path },
        ),
    }
}

/// A write that failed, or whose block could not be read back.
pub open spec fn write_failed(s: Session, purpose: Purpose, e: Error) -> Moved {
    finished(
        without_dead_link(s, e),
        with_refusal(
            seq![not_busy()].push(error_event("write settings failed"@, e)),
            purpose,
        ),
    )
}

/// What follows when a profile could not be read.
pub open spec fn profile_not_read(s: Session, reader: Reader, e: Error) -> Moved {
    match reader {
        Reader::Poll => failed(s, Seq::empty(), "read settings failed"@, e),
        Reader::Reload { mode, status } => {
            let (next, ev) = reloaded(s, mode, status);
            failed(next, ev, "read settings failed"@, e)
        },
        Reader::ReadBack { purpose, .. } => write_failed(s, purpose, e),
        Reader::FactoryReset { .. } => failed(
            s,
            seq![not_busy()],
            "factory reset cancelled, read failed"@,
            e,
        ),
    }
}

/// The end of setting the mode, which is also the end of a factory reset.
pub open spec fn mode_done(s: Session, event: EventView, reset: Option<String>) -> Moved {
    match reset {
        None => finished(s, seq![event]),
        Some(backup_path) => finished(
            s,
            seq![event].push(
                EventView::Note(
                    "Factory defaults written (previous settings saved to "@ + backup_path@
                        + ")"@,
                ),
            ),
        ),
    }
}

/// Whether a reply is one to what the session asked for.
pub open spec fn expects(stage: Stage, reply: Reply) -> bool {
    match stage {
        Stage::Idle => false,
        Stage::Finding { .. } => reply is Node,
        Stage::Opening { .. } | Stage::Granting { .. } | Stage::Reopening { .. } => reply is Done,
        Stage::Identifying { .. } | Stage::ReloadingPsd => reply is Psd,
        Stage::AskingMode { .. } | Stage::ReloadingMode | Stage::CheckingMode { .. } => reply
            is Mode,
        Stage::ProbingPrimary { .. } | Stage::ProbingOther { .. } | Stage::Reading { .. }
        | Stage::ReadingOther { .. } => reply is Block,
        Stage::Polling | Stage::Refreshing | Stage::ReloadingStatus { .. } => reply is Status,
        Stage::Writing { .. } | Stage::SwitchingAway { .. } | Stage::SwitchingBack { .. } => reply
            is Done,
        Stage::Settling { .. } => reply is Paused,
        Stage::SettingMode { .. } | Stage::SettingDebounce { .. } => reply is Done,
        Stage::BackupReading { .. } | Stage::ResetReading { .. } => reply is Report,
        Stage::BackupSaving { .. } | Stage::ResetSaving { .. } => reply is Saved,
        Stage::RestoreLoading { .. } => reply is Loaded,
    }
}

/// The session after the reply to its request.
pub open spec fn advanced(s: Session, reply: Reply) -> Moved {
    match (s.stage, reply) {
        (Stage::Finding { job }, Reply::Node(Ok((path, pid)))) => asked(
            s,
            Seq::empty(),
            Stage::Opening { found: Found { path, pid, job } },
            Request::OpenNode { path },
        ),
        (Stage::Finding { .. }, Reply::Node(Err(e))) => not_connected(s, e),
        (Stage::Opening { found }, Reply::Done(Ok(()))) => asked(
            s,
            Seq::empty(),
            Stage::Identifying { found },
            Request::ReadPsd,
        ),
        // The node is root-only until the udev rule is installed: polkit is asked
        // for read/write once per run. A poll that keeps failing does not prompt
        // again.
        (Stage::Opening { found }, Reply::Done(Err(e))) => if e is PermissionDenied
            && !s.access_requested {
            asked(
                Session { access_requested: true, ..s },
                Seq::empty(),
                Stage::Granting { found },
                Request::GrantAccess { path: found.path },
            )
        } else {
            not_connected(s, e)
        },
        (Stage::Granting { found }, Reply::Done(Ok(()))) => asked(
            s,
            Seq::empty(),
            Stage::Reopening { found },
            Request::OpenNode { path: found.path },
        ),
        (Stage::Granting { .. }, Reply::Done(Err(e))) => not_connected(s, e),
        (Stage::Reopening { found }, Reply::Done(Ok(()))) => asked(
            s,
            Seq::empty(),
            Stage::Identifying { found },
            Request::ReadPsd,
        ),
        (Stage::Reopening { .. }, Reply::Done(Err(e))) => not_connected(s, e),
        (Stage::Identifying { found }, Reply::Psd(Ok(psd))) => asked(
            s,
            Seq::empty(),
            Stage::AskingMode { found, psd },
            Request::ReadMode,
        ),
        (Stage::Identifying { .. }, Reply::Psd(Err(e))) => not_connected(s, e),
        (Stage::AskingMode { found, psd }, Reply::Mode(Ok(mode))) => asked(
            s,
            Seq::empty(),
            Stage::ProbingPrimary { found, psd, mode },
            Request::ReadBlock { bank: primary_bank(found.pid) },
        ),
        (Stage::AskingMode { .. }, Reply::Mode(Err(e))) => not_connected(s, e),
        // A stalled read says nothing about which banks exist, so the other one is
        // tried before the unit is believed to be single-profile.
        (Stage::ProbingPrimary { found, psd, mode }, Reply::Block(Ok(block))) => connected(
            s,
            found,
            psd,
            mode,
            primary_bank(found.pid),
            Some(block),
        ),
        (Stage::ProbingPrimary { found, psd, mode }, Reply::Block(Err(_))) => asked(
            s,
            Seq::empty(),
            Stage::ProbingOther { found, psd, mode },
            Request::ReadBlock { bank: other_bank(primary_bank(found.pid)) },
        ),
        (Stage::ProbingOther { found, psd, mode }, Reply::Block(Ok(block))) => connected(
            s,
            found,
            psd,
            mode,
            other_bank(primary_bank(found.pid)),
            Some(block),
        ),
        (Stage::ProbingOther { found, psd, mode }, Reply::Block(Err(_))) => connected(
            s,
            found,
            psd,
            mode,
            primary_bank(found.pid),
            None,
        ),
        (Stage::Polling, Reply::Status(Ok(status))) => read_profile(
            with_status(s, status),
            seq![status_event(s, status)],
            Reader::Poll,
        ),
        (Stage::Polling, Reply::Status(Err(e))) => failed(
            s,
            Seq::empty(),
            "battery read failed"@,
            e,
        ),
        // A block that has been loaded is left to the poll.
        (Stage::Refreshing, Reply::Status(Ok(status))) => if s.last_block is Some {
            finished(with_status(s, status), seq![status_event(s, status)])
        } else {
            read_profile(
                with_status(s, status),
                seq![status_event(s, status)],
                Reader::Poll,
            )
        },
        (Stage::Refreshing, Reply::Status(Err(e))) => failed(
            s,
            Seq::empty(),
            "battery read failed"@,
            e,
        ),
        (Stage::ReloadingPsd, Reply::Psd(read)) => asked(
            match read {
                Ok(psd) => Session { psd, ..s },
                Err(_) => s,
            },
            Seq::empty(),
            Stage::ReloadingMode,
            Request::ReadMode,
        ),
        (Stage::ReloadingMode, Reply::Mode(read)) => asked(
            s,
            Seq::empty(),
            Stage::ReloadingStatus {
                new_mode: match read {
                    Ok(mode) => Some(mode),
                    Err(_) => None,
                },
            },
            Request::ReadStatus,
        ),
        (Stage::ReloadingStatus { new_mode }, Reply::Status(read)) => read_profile(
            s,
            Seq::empty(),
            Reader::Reload {
                mode: new_mode,
                status: match read {
                    Ok(status) => Some(status),
                    Err(_) => None,
                },
            },
        ),
        (Stage::Reading { reader }, Reply::Block(Ok(block))) => profile_read(
            Session { bank_confirmed: true, ..s },
            reader,
            block,
        ),
        // Never confirmed by a read, so it may not be the live bank.
        (Stage::Reading { reader }, Reply::Block(Err(e))) => if s.bank_confirmed {
            profile_not_read(s, reader, e)
        } else {
            asked(
                s,
                Seq::empty(),
                Stage::ReadingOther { reader, first: e },
                Request::ReadBlock { bank: other_bank(s.bank) },
            )
        },
        (Stage::ReadingOther { reader, .. }, Reply::Block(Ok(block))) => profile_read(
            Session { bank: other_bank(s.bank), bank_confirmed: true, ..s },
            reader,
            block,
        ),
        (Stage::ReadingOther { reader, first }, Reply::Block(Err(_))) => profile_not_read(
            s,
            reader,
            first,
        ),
        (Stage::Writing { block, purpose }, Reply::Done(Ok(()))) => read_profile(
            s,
            Seq::empty(),
            Reader::ReadBack { block, purpose },
        ),
        (Stage::Writing { purpose, .. }, Reply::Done(Err(e))) => write_failed(s, purpose, e),
        (Stage::SwitchingAway { block, purpose }, Reply::Done(Ok(()))) => asked(
            s,
            Seq::empty(),
            Stage::Settling { block, purpose },
            Request::Pause { millis: 60 },
        ),
        (Stage::SwitchingAway { purpose, .. }, Reply::Done(Err(_))) => accepted(
            s,
            Seq::empty(),
            purpose,
        ),
        (Stage::Settling { block, purpose }, Reply::Paused) => asked(
            s,
            Seq::empty(),
            Stage::SwitchingBack { block, purpose },
            Request::WriteBlock { bank: s.bank, block },
        ),
        (Stage::SwitchingBack { purpose, .. }, Reply::Done(Ok(()))) => accepted(
            s,
            Seq::empty(),
            purpose,
        ),
        // The mouse is left on the intermediate level - the one thing that
        // switching back exists to prevent - so this is said.
        (Stage::SwitchingBack { purpose, .. }, Reply::Done(Err(_))) => accepted(
            s,
            seq![
                EventView::Error(
                    "the mouse did not take the active level back; press its DPI button to re-select it"@,
                ),
            ],
            purpose,
        ),
        (Stage::SettingMode { mode, reset }, Reply::Done(Ok(()))) => asked(
            s,
            Seq::empty(),
            Stage::CheckingMode { mode, reset },
            Request::ReadMode,
        ),
        (Stage::SettingMode { reset, .. }, Reply::Done(Err(e))) => mode_done(
            without_dead_link(s, e),
            error_event("set mode failed"@, e),
            reset,
        ),
        (Stage::CheckingMode { reset, .. }, Reply::Mode(Ok(mode))) => mode_done(
            s,
            EventView::Mode(mode),
            reset,
        ),
        (Stage::CheckingMode { mode, reset }, Reply::Mode(Err(_))) => mode_done(
            s,
            EventView::Note(
                "Mode "@ + crate::text::decimal(mode as nat) + " sent (no read-back)"@,
            ),
            reset,
        ),
        (Stage::SettingDebounce { value }, Reply::Done(Ok(()))) => finished(
            s,
            seq![
                EventView::Note(
                    "Debounce register set to "@ + crate::text::decimal(value as nat)
                        + " (write-only, not in a backup)"@,
                ),
            ],
        ),
        (Stage::SettingDebounce { .. }, Reply::Done(Err(e))) => failed(
            s,
            Seq::empty(),
            "set debounce failed"@,
            e,
        ),
        (Stage::BackupReading { path }, Reply::Report(Ok(data))) => asked(
            Session { bank_confirmed: true, ..s },
            Seq::empty(),
            Stage::BackupSaving { path },
            Request::SaveFile { path, data },
        ),
        // A device error, not a file error: this may kill the handle.
        (Stage::BackupReading { .. }, Reply::Report(Err(e))) => failed(
            s,
            seq![not_busy()],
            "backup failed"@,
            e,
        ),
        (Stage::BackupSaving { path }, Reply::Saved(Ok(()))) => finished(
            s,
            seq![not_busy()].push(
                EventView::Note(
                    "Backup of bank "@ + crate::text::decimal(s.bank as nat) + " written to "@
                        + path@,
                ),
            ),
        ),
        (Stage::BackupSaving { .. }, Reply::Saved(Err(text))) => finished(
            s,
            seq![not_busy()].push(EventView::Error("backup failed: "@ + text@)),
        ),
        (Stage::RestoreLoading { path }, Reply::Loaded(Ok(data))) => match
            crate::worker::restore_fault(path@, data@) {
            Some(fault) => finished(s, seq![EventView::Error(fault)]),
            None => write_profile(
                s,
                Seq::empty(),
                crate::worker::restored_bytes(data@),
                Purpose::Restore { path },
            ),
        },
        (Stage::RestoreLoading { .. }, Reply::Loaded(Err(text))) => finished(
            s,
            seq![EventView::Error("restore failed: "@ + text@)],
        ),
        // The report confirms the bank: what is saved is of the bank that is written.
        (Stage::ResetReading { backup_path }, Reply::Report(Ok(data))) => asked(
            Session { bank_confirmed: true, ..s },
            Seq::empty(),
            Stage::ResetSaving { backup_path },
            Request::SaveFile { path: backup_path, data },
        ),
        (Stage::ResetReading { .. }, Reply::Report(Err(e))) => failed(
            s,
            seq![not_busy()],
            "factory reset cancelled, read failed"@,
            e,
        ),
        (Stage::ResetSaving { backup_path }, Reply::Saved(Ok(()))) => read_profile(
            s,
            Seq::empty(),
            Reader::FactoryReset { backup_path },
        ),
        (Stage::ResetSaving { backup_path }, Reply::Saved(Err(text))) => finished(
            s,
            seq![not_busy()].push(
                EventView::Error(
                    "factory reset cancelled, could not save "@ + backup_path@ + ": "@ + text@,
                ),
            ),
        ),
        _ => finished(s, Seq::empty()),
    }
}

/// The session after the idle poll was started.
pub open spec fn polled(s: Session) -> Moved {
    job_taken(s, Job::Poll)
}

/// The session after a command was taken.
pub open spec fn begun(s: Session, command: Command) -> Moved {
    match command {
        Command::Refresh => job_taken(s, Job::Refresh),
        Command::Reload => job_taken(s, Job::Reload),
        // The generation is adopted before anything can fail: the Qt side already
        // advanced its own, and a stranded counter makes later blocks look stale.
        Command::ApplyBlock { block, generation } => job_taken(
            Session { generation, ..s },
            Job::Apply { block },
        ),
        Command::SetMode(mode) => job_taken(s, Job::SetMode { mode }),
        Command::SetDebounce(value) => job_taken(s, Job::SetDebounce { value }),
        Command::Backup { path } => job_taken(s, Job::Backup { path }),
        Command::Restore { path } => job_taken(s, Job::Restore { path }),
        Command::FactoryReset { backup_path } => job_taken(s, Job::FactoryReset { backup_path }),
        Command::Shutdown => asked(
            s,
            Seq::empty(),
            Stage::Idle,
            Request::Finished { running: false },
        ),
    }
}

/// The session that the device thread starts with.
pub open spec fn is_new(s: Session) -> bool {
    &&& s.link is None
    &&& s.psd@ == seq![0u8, 0, 0, 0]
    &&& s.bank == 2
    &&& !s.bank_confirmed
    &&& !s.access_requested
    &&& s.generation == 0
    &&& s.last_percent is None
    &&& s.last_block is None
    &&& s.stage is Idle
}

// ---------------------------------------------------------------------------
// the invariant
// ---------------------------------------------------------------------------

pub open spec fn is_committed(block: [u8; BLOCK_LEN]) -> bool {
    block@[crate::settings::COMMIT_OFFSET as int] == crate::settings::COMMIT_MARKER
}

/// A factory reset takes the generation after the current one.
pub open spec fn job_fits(s: Session, job: Job) -> bool {
    job is FactoryReset ==> s.generation < u64::MAX
}

pub open spec fn reader_fits(s: Session, reader: Reader) -> bool {
    match reader {
        Reader::FactoryReset { .. } => s.generation < u64::MAX,
        Reader::ReadBack { block, .. } => is_committed(block),
        _ => true,
    }
}

/// What holds of a session between two steps: the node is open in every stage
/// that talks to it, and every block on its way to the device is marked as a
/// profile save.
pub open spec fn well_formed(s: Session) -> bool {
    match s.stage {
        Stage::Idle => true,
        Stage::Finding { job } => s.link is None && job_fits(s, job),
        Stage::Opening { found } | Stage::Granting { found } | Stage::Reopening { found }
        | Stage::Identifying { found } => s.link is None && job_fits(s, found.job),
        Stage::AskingMode { found, .. } => s.link is None && job_fits(s, found.job),
        Stage::ProbingPrimary { found, .. } | Stage::ProbingOther { found, .. } => s.link is None
            && job_fits(s, found.job),
        Stage::Reading { reader } => s.link is Some && reader_fits(s, reader),
        Stage::ReadingOther { reader, .. } => s.link is Some && reader_fits(s, reader),
        Stage::Writing { block, .. } | Stage::SwitchingAway { block, .. }
        | Stage::Settling { block, .. } | Stage::SwitchingBack { block, .. } => s.link is Some
            && is_committed(block),
        Stage::ResetReading { .. } | Stage::ResetSaving { .. } => s.link is Some && s.generation
            < u64::MAX,
        _ => s.link is Some,
    }
}

// ---------------------------------------------------------------------------
// lists of events
// ---------------------------------------------------------------------------

fn published(events: Vec<Event>, event: Event) -> (more: Vec<Event>)
    ensures
        crate::worker::event_views(more@) == crate::worker::event_views(events@).push(event@),
{
    let mut more = events;
    more.push(event);
    proof {
        assert(crate::worker::event_views(more@) =~= crate::worker::event_views(events@).push(
            event@,
        ));
    }
    more
}

fn no_events() -> (events: Vec<Event>)
    ensures
        crate::worker::event_views(events@) == Seq::<EventView>::empty(),
{
    let events: Vec<Event> = Vec::new();
    proof {
        assert(crate::worker::event_views(events@) =~= Seq::<EventView>::empty());
    }
    events
}

fn one_event(event: Event) -> (events: Vec<Event>)
    ensures
        crate::worker::event_views(events@) == seq![event@],
{
    published(no_events(), event)
}

fn two_events(first: Event, second: Event) -> (events: Vec<Event>)
    ensures
        crate::worker::event_views(events@) == seq![first@].push(second@),
{
    published(one_event(first), second)
}

fn busy_event(label: &str) -> (event: Event)
    ensures
        event@ == busy(label@),
{
    Event::Busy { busy: true, label: label.to_string() }
}

fn not_busy_event() -> (event: Event)
    ensures
        event@ == not_busy(),
{
    let label = String::new();
    proof {
        assert(label@ =~= Seq::<char>::empty());
    }
    Event::Busy { busy: false, label }
}

/// `head`, `middle` and `tail` in one text.
fn text_of(head: &str, middle: &str, tail: &str) -> (text: String)
    ensures
        text@ == head@ + middle@ + tail@,
{
    let mut text = String::new();
    text.append(head);
    text.append(middle);
    text.append(tail);
    proof {
        assert(text@ =~= head@ + middle@ + tail@);
    }
    text
}

/// A number between `head` and `tail` in one text.
fn text_of_number(head: &str, number: u8, tail: &str) -> (text: String)
    ensures
        text@ == head@ + crate::text::decimal(number as nat) + tail@,
{
    let mut text = String::new();
    text.append(head);
    push_decimal(&mut text, number as u64);
    text.append(tail);
    proof {
        assert(text@ =~= head@ + crate::text::decimal(number as nat) + tail@);
    }
    text
}

/// `head` and `tail` in one text.
fn joined(head: &str, tail: &str) -> (text: String)
    ensures
        text@ == head@ + tail@,
{
    let mut text = String::new();
    text.append(head);
    text.append(tail);
    proof {
        assert(text@ =~= head@ + tail@);
    }
    text
}

/// How a failure is reported: a dead handle as the end of the connection, a
/// transient error as such.
fn failure_event(context: &str, e: &Error) -> (event: Event)
    ensures
        event@ == error_event(context@, *e),
{
    let text = e.text();
    if e.is_fatal() {
        Event::Disconnected(text)
    } else {
        Event::Error(text_of(context, ": ", text.as_str()))
    }
}

fn primary_bank_of(pid: u16) -> (bank: u8)
    ensures
        bank == primary_bank(pid),
{
    if pid == 0x002e {
        1
    } else {
        2
    }
}

fn other_bank_of(bank: u8) -> (other: u8)
    ensures
        other == other_bank(bank),
{
    if bank == 1 {
        2
    } else {
        1
    }
}

fn refusal_of(events: Vec<Event>, purpose: &Purpose) -> (more: Vec<Event>)
    ensures
        crate::worker::event_views(more@) == with_refusal(
            crate::worker::event_views(events@),
            *purpose,
        ),
{
    match purpose {
        Purpose::Edit => events,
        Purpose::Restore { path } => published(
            events,
            Event::Error(text_of("restore of ", path.as_str(), " failed")),
        ),
        Purpose::FactoryReset { .. } => published(
            events,
            Event::Error("factory defaults were not accepted by the device".to_string()),
        ),
    }
}

// ---------------------------------------------------------------------------
// the steps
// ---------------------------------------------------------------------------

impl Default for Session {
    fn default() -> (session: Self)
        ensures
            is_new(session),
    {
        let psd = [0u8, 0, 0, 0];
        proof {
            assert(psd@ =~= seq![0u8, 0, 0, 0]);
        }
        Session {
            link: None,
            psd,
            bank: 2,
            bank_confirmed: false,
            access_requested: false,
            generation: 0,
            last_percent: None,
            last_block: None,
            stage: Stage::Idle,
        }
    }
}

/// What a step of a session came to.
pub open spec fn moved(session: Session, turn: Turn) -> Moved {
    Moved {
        session,
        events: crate::worker::event_views(turn.events@),
        request: turn.request,
    }
}

impl Session {
    fn ask(&mut self, events: Vec<Event>, stage: Stage, request: Request) -> (turn: Turn)
        ensures
            moved(*final(self), turn) == asked(
                *old(self),
                crate::worker::event_views(events@),
                stage,
                request,
            ),
    {
        self.stage = stage;
        Turn { events, request }
    }

    fn finish(&mut self, events: Vec<Event>) -> (turn: Turn)
        ensures
            moved(*final(self), turn) == finished(
                *old(self),
                crate::worker::event_views(events@),
            ),
    {
        self.ask(events, Stage::Idle, Request::Finished { running: true })
    }

    fn drop_dead_link(&mut self, e: &Error)
        ensures
            *final(self) == without_dead_link(*old(self), *e),
    {
        if e.is_fatal() {
            self.link = None;
        }
    }

    /// Report an operation failure: a dead handle is dropped so the next
    /// command re-discovers the device; transient errors are reported instead.
    fn report(&mut self, events: Vec<Event>, context: &str, e: Error) -> (turn: Turn)
        ensures
            moved(*final(self), turn) == failed(
                *old(self),
                crate::worker::event_views(events@),
                context@,
                e,
            ),
    {
        let event = failure_event(context, &e);
        self.drop_dead_link(&e);
        self.finish(published(events, event))
    }

    fn stay_disconnected(&mut self, e: Error) -> (turn: Turn)
        ensures
            moved(*final(self), turn) == not_connected(*old(self), e),
    {
        self.link = None;
        self.finish(one_event(Event::Disconnected(e.text())))
    }

    fn read_block(&mut self, events: Vec<Event>, reader: Reader) -> (turn: Turn)
        ensures
            moved(*final(self), turn) == read_profile(
                *old(self),
                crate::worker::event_views(events@),
                reader,
            ),
    {
        let bank = self.bank;
        self.ask(events, Stage::Reading { reader }, Request::ReadBlock { bank })
    }

    /// Write a block and read it back.
    fn apply_block(
        &mut self,
        events: Vec<Event>,
        block: [u8; BLOCK_LEN],
        purpose: Purpose,
    ) -> (turn: Turn)
        ensures
            moved(*final(self), turn) == write_profile(
                *old(self),
                crate::worker::event_views(events@),
                block@,
                purpose,
            ),
    {
        let block = commit(block);
        proof {
            crate::settings::lemma_block_of_array(block);
        }
        let bank = self.bank;
        self.ask(
            published(events, busy_event("Writing settings")),
            Stage::Writing { block, purpose },
            Request::WriteBlock { bank, block },
        )
    }

    fn start_job(&mut self, events: Vec<Event>, job: Job) -> (turn: Turn)
        ensures
            moved(*final(self), turn) == job_started(
                *old(self),
                crate::worker::event_views(events@),
                job,
            ),
    {
        let bank = self.bank;
        match job {
            Job::Poll => self.ask(events, Stage::Polling, Request::ReadStatus),
            Job::Refresh => self.ask(events, Stage::Refreshing, Request::ReadStatus),
            Job::Reload => self.ask(events, Stage::ReloadingPsd, Request::ReadPsd),
            Job::Apply { block } => self.apply_block(events, block, Purpose::Edit),
            Job::SetMode { mode } => self.ask(
                events,
                Stage::SettingMode { mode, reset: None },
                Request::SetMode { mode },
            ),
            Job::SetDebounce { value } => self.ask(
                events,
                Stage::SettingDebounce { value },
                Request::SetDebounce { value },
            ),
            Job::Backup { path } => self.ask(
                published(events, busy_event("Reading backup")),
                Stage::BackupReading { path },
                Request::ReadReport { bank },
            ),
            Job::Restore { path } => {
                let from = path.clone();
                self.ask(events, Stage::RestoreLoading { path }, Request::LoadFile { path: from })
            },
            Job::FactoryReset { backup_path } => self.ask(
                published(events, busy_event("Restoring factory defaults")),
                Stage::ResetReading { backup_path },
                Request::ReadReport { bank },
            ),
        }
    }

    /// Discovery + open, unless the node is open, and then the job. On failure
    /// the session is left disconnected.
    fn connect(&mut self, job: Job) -> (turn: Turn)
        ensures
            moved(*final(self), turn) == job_taken(*old(self), job),
    {
        if self.link.is_some() {
            self.start_job(no_events(), job)
        } else {
            self.ask(no_events(), Stage::Finding { job }, Request::FindNode)
        }
    }

    fn open(
        &mut self,
        found: Found,
        psd: [u8; 4],
        mode: u8,
        bank: u8,
        probe: Option<[u8; BLOCK_LEN]>,
    ) -> (turn: Turn)
        ensures
            moved(*final(self), turn) == connected(*old(self), found, psd, mode, bank, probe),
    {
        let Found { path, pid, job } = found;
        let shown = path.clone();
        let events = two_events(
            Event::Connected { path: shown, pid, psd, mode, bank },
            Event::Mode(mode),
        );
        let events = match probe {
            Some(block) => published(
                events,
                Event::Block { block, generation: self.generation, verified: true },
            ),
            None => events,
        };
        self.link = Some(Link { path, pid });
        self.psd = psd;
        self.bank = bank;
        self.bank_confirmed = probe.is_some();
        self.last_block = probe;
        self.start_job(events, job)
    }

    /// Show the device's charge, remembering the last reading that was real.
    fn publish_status(&mut self, events: Vec<Event>, status: Status) -> (more: Vec<Event>)
        ensures
            *final(self) == with_status(*old(self), status),
            crate::worker::event_views(more@) == crate::worker::event_views(events@).push(
                status_event(*old(self), status),
            ),
    {
        let percent = charge_to_show(self.last_percent, status);
        self.last_percent = percent;
        published(events, Event::Status { charging: status.charging(), percent })
    }

    fn publish_reload(&mut self, mode: Option<u8>, status: Option<Status>) -> (events: Vec<Event>)
        ensures
            (*final(self), crate::worker::event_views(events@)) == reloaded(
                *old(self),
                mode,
                status,
            ),
    {
        let events = match mode {
            Some(mode) => one_event(Event::Mode(mode)),
            None => no_events(),
        };
        match status {
            Some(status) => self.publish_status(events, status),
            None => events,
        }
    }

    fn succeed(&mut self, events: Vec<Event>, purpose: Purpose) -> (turn: Turn)
        ensures
            moved(*final(self), turn) == accepted(
                *old(self),
                crate::worker::event_views(events@),
                purpose,
            ),
    {
        match purpose {
            Purpose::Edit => self.finish(events),
            Purpose::Restore { path } => {
                let note = Event::Note(joined("Settings restored from ", path.as_str()));
                self.finish(published(events, note))
            },
            Purpose::FactoryReset { backup_path } => self.ask(
                events,
                Stage::SettingMode { mode: 2, reset: Some(backup_path) },
                Request::SetMode { mode: 2 },
            ),
        }
    }

    /// Compare what was read back with what was written, and re-select the
    /// active level so that the mouse re-reads its colour and DPI. The
    /// intermediate level is only selected for the length of one write.
    fn check_read_back(
        &mut self,
        block: [u8; BLOCK_LEN],
        purpose: Purpose,
        got: [u8; BLOCK_LEN],
    ) -> (turn: Turn)
        ensures
            moved(*final(self), turn) == read_back(*old(self), block, purpose, got),
    {
        let verified = same_block(&got, &block);
        let events = two_events(
            not_busy_event(),
            Event::Block { block: got, generation: self.generation, verified },
        );
        let refresh = match self.last_block {
            Some(previous) => needs_refresh(
                &SettingsBlock::new(previous),
                &SettingsBlock::new(got),
            ),
            None => false,
        };
        self.last_block = Some(got);
        if !verified {
            return self.finish(refusal_of(events, &purpose));
        }
        if refresh {
            if let Some(scratch) = other_level_block(&block) {
                proof {
                    crate::settings::lemma_block_of_array(scratch);
                }
                let bank = self.bank;
                return self.ask(
                    events,
                    Stage::SwitchingAway { block, purpose },
                    Request::WriteBlock { bank, block: scratch },
                );
            }
        }
        self.succeed(events, purpose)
    }

    fn take_profile(&mut self, reader: Reader, got: [u8; BLOCK_LEN]) -> (turn: Turn)
        requires
            reader is FactoryReset ==> old(self).generation < u64::MAX,
        ensures
            moved(*final(self), turn) == profile_read(*old(self), reader, got),
    {
        match reader {
            Reader::Poll => {
                let same = match self.last_block {
                    Some(last) => same_block(&last, &got),
                    None => false,
                };
                if same {
                    return self.finish(no_events());
                }
                self.last_block = Some(got);
                let event = Event::Block {
                    block: got,
                    generation: self.generation,
                    verified: true,
                };
                self.finish(one_event(event))
            },
            Reader::Reload { mode, status } => {
                let events = self.publish_reload(mode, status);
                self.last_block = Some(got);
                let event = Event::Block {
                    block: got,
                    generation: self.generation,
                    verified: true,
                };
                self.finish(published(events, event))
            },
            Reader::ReadBack { block, purpose } => self.check_read_back(block, purpose, got),
            Reader::FactoryReset { backup_path } => {
                let factory = SettingsBlock::factory(&SettingsBlock::new(got));
                self.generation = self.generation + 1;
                self.apply_block(
                    no_events(),
                    *factory.raw(),
                    Purpose::FactoryReset { backup_path },
                )
            },
        }
    }

    fn fail_write(&mut self, purpose: Purpose, e: Error) -> (turn: Turn)
        ensures
            moved(*final(self), turn) == write_failed(*old(self), purpose, e),
    {
        let events = two_events(
            not_busy_event(),
            failure_event("write settings failed", &e),
        );
        self.drop_dead_link(&e);
        self.finish(refusal_of(events, &purpose))
    }

    fn miss_profile(&mut self, reader: Reader, e: Error) -> (turn: Turn)
        ensures
            moved(*final(self), turn) == profile_not_read(*old(self), reader, e),
    {
        match reader {
            Reader::Poll => self.report(no_events(), "read settings failed", e),
            Reader::Reload { mode, status } => {
                let events = self.publish_reload(mode, status);
                self.report(events, "read settings failed", e)
            },
            Reader::ReadBack { purpose, .. } => self.fail_write(purpose, e),
            Reader::FactoryReset { .. } => self.report(
                one_event(not_busy_event()),
                "factory reset cancelled, read failed",
                e,
            ),
        }
    }

    fn end_mode(&mut self, event: Event, reset: Option<String>) -> (turn: Turn)
        ensures
            moved(*final(self), turn) == mode_done(*old(self), event@, reset),
    {
        match reset {
            None => self.finish(one_event(event)),
            Some(backup_path) => {
                let note = Event::Note(
                    text_of(
                        "Factory defaults written (previous settings saved to ",
                        backup_path.as_str(),
                        ")",
                    ),
                );
                self.finish(two_events(event, note))
            },
        }
    }
}

/// Whether the node that was opened is to be kept open.
pub open spec fn holds_node(s: Session) -> bool {
    s.link is Some || s.stage is Identifying || s.stage is AskingMode || s.stage is ProbingPrimary
        || s.stage is ProbingOther
}

/// A step keeps the session well formed.
proof fn lemma_job_started(s: Session, ev: Seq<EventView>, job: Job)
    requires
        s.link is Some,
        job_fits(s, job),
    ensures
        well_formed(job_started(s, ev, job).session),
{
    if let Job::Apply { block } = job {
        crate::settings::lemma_block_of_bytes(crate::worker::committed(block@));
    }
}

proof fn lemma_profile_read(s: Session, reader: Reader, got: [u8; BLOCK_LEN])
    requires
        s.link is Some,
        reader_fits(s, reader),
    ensures
        well_formed(profile_read(s, reader, got).session),
{
    if reader is FactoryReset {
        crate::settings::lemma_block_of_bytes(
            crate::worker::committed(crate::settings::factory_bytes(got@)),
        );
    }
}

pub proof fn lemma_advanced(s: Session, reply: Reply)
    requires
        well_formed(s),
        expects(s.stage, reply),
    ensures
        well_formed(advanced(s, reply).session),
        advanced(s, reply).request is Finished <==> advanced(s, reply).session.stage is Idle,
{
    match (s.stage, reply) {
        (Stage::ProbingPrimary { found, psd, mode }, Reply::Block(Ok(block))) => {
            lemma_connected(s, found, psd, mode, primary_bank(found.pid), Some(block));
        },
        (Stage::ProbingOther { found, psd, mode }, Reply::Block(Ok(block))) => {
            lemma_connected(s, found, psd, mode, other_bank(primary_bank(found.pid)), Some(block));
        },
        (Stage::ProbingOther { found, psd, mode }, Reply::Block(Err(_))) => {
            lemma_connected(s, found, psd, mode, primary_bank(found.pid), None);
        },
        (Stage::Reading { reader }, Reply::Block(Ok(block))) => {
            lemma_profile_read(Session { bank_confirmed: true, ..s }, reader, block);
        },
        (Stage::ReadingOther { reader, .. }, Reply::Block(Ok(block))) => {
            lemma_profile_read(
                Session { bank: other_bank(s.bank), bank_confirmed: true, ..s },
                reader,
                block,
            );
        },
        (Stage::RestoreLoading { .. }, Reply::Loaded(Ok(data))) => {
            if data@.len() == DATA_LEN {
                crate::settings::lemma_block_of_bytes(
                    crate::worker::committed(crate::worker::restored_bytes(data@)),
                );
            }
        },
        _ => {},
    }
}

proof fn lemma_connected(
    s: Session,
    found: Found,
    psd: [u8; 4],
    mode: u8,
    bank: u8,
    probe: Option<[u8; BLOCK_LEN]>,
)
    requires
        job_fits(s, found.job),
    ensures
        well_formed(connected(s, found, psd, mode, bank, probe).session),
        connected(s, found, psd, mode, bank, probe).session.stage !is Idle,
        connected(s, found, psd, mode, bank, probe).request !is Finished,
{
    let open = Session {
        link: Some(Link { path: found.path, pid: found.pid }),
        psd,
        bank,
        bank_confirmed: probe is Some,
        last_block: probe,
        ..s
    };
    lemma_job_started(open, Seq::empty(), found.job);
}

impl Session {
    /// The idle poll: battery poll plus a look for device-side profile changes.
    pub fn poll(&mut self) -> (turn: Turn)
        requires
            old(self).stage is Idle,
        ensures
            moved(*final(self), turn) == polled(*old(self)),
            well_formed(*final(self)),
    {
        self.connect(Job::Poll)
    }

    /// Handle one command. A factory reset counts the generation on.
    pub fn handle(&mut self, command: Command) -> (turn: Turn)
        requires
            old(self).stage is Idle,
            command is FactoryReset ==> old(self).generation < u64::MAX,
        ensures
            moved(*final(self), turn) == begun(*old(self), command),
            well_formed(*final(self)),
    {
        proof {
            if let Command::ApplyBlock { block, generation } = command {
                crate::settings::lemma_block_of_bytes(crate::worker::committed(block@));
            }
        }
        match command {
            Command::Refresh => self.connect(Job::Refresh),
            Command::Reload => self.connect(Job::Reload),
            Command::ApplyBlock { block, generation } => {
                self.generation = generation;
                self.connect(Job::Apply { block })
            },
            Command::SetMode(mode) => self.connect(Job::SetMode { mode }),
            Command::SetDebounce(value) => self.connect(Job::SetDebounce { value }),
            Command::Backup { path } => self.connect(Job::Backup { path }),
            Command::Restore { path } => self.connect(Job::Restore { path }),
            Command::FactoryReset { backup_path } => self.connect(
                Job::FactoryReset { backup_path },
            ),
            Command::Shutdown => self.ask(
                no_events(),
                Stage::Idle,
                Request::Finished { running: false },
            ),
        }
    }

    /// Whether the node that was opened is to be kept open.
    pub fn keeps_node_open(&self) -> (yes: bool)
        ensures
            yes == holds_node(*self),
    {
        if self.link.is_some() {
            return true;
        }
        match &self.stage {
            Stage::Identifying { .. } | Stage::AskingMode { .. } | Stage::ProbingPrimary { .. }
            | Stage::ProbingOther { .. } => true,
            _ => false,
        }
    }

    /// Whether the session is waiting for a reply of this kind.
    pub fn expects(&self, reply: &Reply) -> (yes: bool)
        ensures
            yes == expects(self.stage, *reply),
    {
        match &self.stage {
            Stage::Idle => false,
            Stage::Finding { .. } => matches!(reply, Reply::Node(_)),
            Stage::Opening { .. } | Stage::Granting { .. } | Stage::Reopening { .. } => matches!(
                reply,
                Reply::Done(_)
            ),
            Stage::Identifying { .. } | Stage::ReloadingPsd => matches!(reply, Reply::Psd(_)),
            Stage::AskingMode { .. } | Stage::ReloadingMode | Stage::CheckingMode { .. } => matches!(
                reply,
                Reply::Mode(_)
            ),
            Stage::ProbingPrimary { .. } | Stage::ProbingOther { .. } | Stage::Reading { .. }
            | Stage::ReadingOther { .. } => matches!(reply, Reply::Block(_)),
            Stage::Polling | Stage::Refreshing | Stage::ReloadingStatus { .. } => matches!(
                reply,
                Reply::Status(_)
            ),
            Stage::Writing { .. } | Stage::SwitchingAway { .. } | Stage::SwitchingBack { .. } => matches!(
                reply,
                Reply::Done(_)
            ),
            Stage::Settling { .. } => matches!(reply, Reply::Paused),
            Stage::SettingMode { .. } | Stage::SettingDebounce { .. } => matches!(
                reply,
                Reply::Done(_)
            ),
            Stage::BackupReading { .. } | Stage::ResetReading { .. } => matches!(
                reply,
                Reply::Report(_)
            ),
            Stage::BackupSaving { .. } | Stage::ResetSaving { .. } => matches!(
                reply,
                Reply::Saved(_)
            ),
            Stage::RestoreLoading { .. } => matches!(reply, Reply::Loaded(_)),
        }
    }

    /// Go on after the reply to the last request.
    pub fn step(&mut self, reply: Reply) -> (turn: Turn)
        requires
            well_formed(*old(self)),
            expects(old(self).stage, reply),
        ensures
            moved(*final(self), turn) == advanced(*old(self), reply),
            well_formed(*final(self)),
            turn.request is Finished <==> final(self).stage is Idle,
    {
        proof {
            lemma_advanced(*self, reply);
        }
        let mut stage = Stage::Idle;
        core::mem::swap(&mut stage, &mut self.stage);
        match stage {
            Stage::Idle => self.finish(no_events()),
            Stage::Finding { .. } | Stage::Opening { .. } | Stage::Granting { .. }
            | Stage::Reopening { .. } | Stage::Identifying { .. } | Stage::AskingMode { .. }
            | Stage::ProbingPrimary { .. } | Stage::ProbingOther { .. } => self.step_connecting(
                stage,
                reply,
            ),
            Stage::Polling | Stage::Refreshing | Stage::ReloadingPsd | Stage::ReloadingMode
            | Stage::ReloadingStatus { .. } | Stage::Reading { .. }
            | Stage::ReadingOther { .. } => self.step_reading(stage, reply),
            Stage::Writing { .. } | Stage::SwitchingAway { .. } | Stage::Settling { .. }
            | Stage::SwitchingBack { .. } => self.step_writing(stage, reply),
            Stage::SettingMode { .. } | Stage::CheckingMode { .. }
            | Stage::SettingDebounce { .. } => self.step_setting(stage, reply),
            Stage::BackupReading { .. } | Stage::BackupSaving { .. }
            | Stage::RestoreLoading { .. } | Stage::ResetReading { .. }
            | Stage::ResetSaving { .. } => self.step_file(stage, reply),
        }
    }

    fn step_connecting(&mut self, stage: Stage, reply: Reply) -> (turn: Turn)
        requires
            stage is Finding || stage is Opening || stage is Granting || stage is Reopening
                || stage is Identifying || stage is AskingMode || stage is ProbingPrimary || stage
                is ProbingOther,
        ensures
            moved(*final(self), turn) == advanced(Session { stage, ..*old(self) }, reply),
    {
        match (stage, reply) {
            (Stage::Finding { job }, Reply::Node(Ok((path, pid)))) => {
                let node = path.clone();
                self.ask(
                    no_events(),
                    Stage::Opening { found: Found { path, pid, job } },
                    Request::OpenNode { path: node },
                )
            },
            (Stage::Finding { .. }, Reply::Node(Err(e))) => self.stay_disconnected(e),
            (Stage::Opening { found }, Reply::Done(Ok(()))) => self.ask(
                no_events(),
                Stage::Identifying { found },
                Request::ReadPsd,
            ),
            (Stage::Opening { found }, Reply::Done(Err(e))) => {
                if matches!(e, Error::PermissionDenied) && !self.access_requested {
                    self.access_requested = true;
                    let path = found.path.clone();
                    self.ask(
                        no_events(),
                        Stage::Granting { found },
                        Request::GrantAccess { path },
                    )
                } else {
                    self.stay_disconnected(e)
                }
            },
            (Stage::Granting { found }, Reply::Done(Ok(()))) => {
                let path = found.path.clone();
                self.ask(no_events(), Stage::Reopening { found }, Request::OpenNode { path })
            },
            (Stage::Granting { .. }, Reply::Done(Err(e))) => self.stay_disconnected(e),
            (Stage::Reopening { found }, Reply::Done(Ok(()))) => self.ask(
                no_events(),
                Stage::Identifying { found },
                Request::ReadPsd,
            ),
            (Stage::Reopening { .. }, Reply::Done(Err(e))) => self.stay_disconnected(e),
            (Stage::Identifying { found }, Reply::Psd(Ok(psd))) => self.ask(
                no_events(),
                Stage::AskingMode { found, psd },
                Request::ReadMode,
            ),
            (Stage::Identifying { .. }, Reply::Psd(Err(e))) => self.stay_disconnected(e),
            (Stage::AskingMode { found, psd }, Reply::Mode(Ok(mode))) => {
                let bank = primary_bank_of(found.pid);
                self.ask(
                    no_events(),
                    Stage::ProbingPrimary { found, psd, mode },
                    Request::ReadBlock { bank },
                )
            },
            (Stage::AskingMode { .. }, Reply::Mode(Err(e))) => self.stay_disconnected(e),
            (Stage::ProbingPrimary { found, psd, mode }, Reply::Block(Ok(block))) => {
                let bank = primary_bank_of(found.pid);
                self.open(found, psd, mode, bank, Some(block))
            },
            (Stage::ProbingPrimary { found, psd, mode }, Reply::Block(Err(_))) => {
                let bank = other_bank_of(primary_bank_of(found.pid));
                self.ask(
                    no_events(),
                    Stage::ProbingOther { found, psd, mode },
                    Request::ReadBlock { bank },
                )
            },
            (Stage::ProbingOther { found, psd, mode }, Reply::Block(Ok(block))) => {
                let bank = other_bank_of(primary_bank_of(found.pid));
                self.open(found, psd, mode, bank, Some(block))
            },
            (Stage::ProbingOther { found, psd, mode }, Reply::Block(Err(_))) => {
                let bank = primary_bank_of(found.pid);
                self.open(found, psd, mode, bank, None)
            },
            _ => self.finish(no_events()),
        }
    }

    fn step_reading(&mut self, stage: Stage, reply: Reply) -> (turn: Turn)
        requires
            stage is Polling || stage is Refreshing || stage is ReloadingPsd || stage
                is ReloadingMode || stage is ReloadingStatus || stage is Reading || stage is ReadingOther,
            stage matches Stage::Reading { reader } ==> reader_fits(*old(self), reader),
            stage matches Stage::ReadingOther { reader, .. } ==> reader_fits(*old(self), reader),
        ensures
            moved(*final(self), turn) == advanced(Session { stage, ..*old(self) }, reply),
    {
        match (stage, reply) {
            (Stage::Polling, Reply::Status(Ok(status))) => {
                let events = self.publish_status(no_events(), status);
                self.read_block(events, Reader::Poll)
            },
            (Stage::Polling, Reply::Status(Err(e))) => self.report(
                no_events(),
                "battery read failed",
                e,
            ),
            (Stage::Refreshing, Reply::Status(Ok(status))) => {
                let events = self.publish_status(no_events(), status);
                if self.last_block.is_some() {
                    self.finish(events)
                } else {
                    self.read_block(events, Reader::Poll)
                }
            },
            (Stage::Refreshing, Reply::Status(Err(e))) => self.report(
                no_events(),
                "battery read failed",
                e,
            ),
            (Stage::ReloadingPsd, Reply::Psd(read)) => {
                if let Ok(psd) = read {
                    self.psd = psd;
                }
                self.ask(no_events(), Stage::ReloadingMode, Request::ReadMode)
            },
            (Stage::ReloadingMode, Reply::Mode(read)) => {
                let new_mode = match read {
                    Ok(mode) => Some(mode),
                    Err(_) => None,
                };
                self.ask(no_events(), Stage::ReloadingStatus { new_mode }, Request::ReadStatus)
            },
            (Stage::ReloadingStatus { new_mode }, Reply::Status(read)) => {
                let status = match read {
                    Ok(status) => Some(status),
                    Err(_) => None,
                };
                self.read_block(no_events(), Reader::Reload { mode: new_mode, status })
            },
            (Stage::Reading { reader }, Reply::Block(Ok(block))) => {
                self.bank_confirmed = true;
                self.take_profile(reader, block)
            },
            (Stage::Reading { reader }, Reply::Block(Err(e))) => {
                if self.bank_confirmed {
                    self.miss_profile(reader, e)
                } else {
                    let bank = other_bank_of(self.bank);
                    self.ask(
                        no_events(),
                        Stage::ReadingOther { reader, first: e },
                        Request::ReadBlock { bank },
                    )
                }
            },
            (Stage::ReadingOther { reader, .. }, Reply::Block(Ok(block))) => {
                self.bank = other_bank_of(self.bank);
                self.bank_confirmed = true;
                self.take_profile(reader, block)
            },
            (Stage::ReadingOther { reader, first }, Reply::Block(Err(_))) => self.miss_profile(
                reader,
                first,
            ),
            _ => self.finish(no_events()),
        }
    }

    fn step_writing(&mut self, stage: Stage, reply: Reply) -> (turn: Turn)
        requires
            stage is Writing || stage is SwitchingAway || stage is Settling || stage
                is SwitchingBack,
        ensures
            moved(*final(self), turn) == advanced(Session { stage, ..*old(self) }, reply),
    {
        match (stage, reply) {
            (Stage::Writing { block, purpose }, Reply::Done(Ok(()))) => self.read_block(
                no_events(),
                Reader::ReadBack { block, purpose },
            ),
            (Stage::Writing { purpose, .. }, Reply::Done(Err(e))) => self.fail_write(purpose, e),
            (Stage::SwitchingAway { block, purpose }, Reply::Done(Ok(()))) => self.ask(
                no_events(),
                Stage::Settling { block, purpose },
                Request::Pause { millis: 60 },
            ),
            (Stage::SwitchingAway { purpose, .. }, Reply::Done(Err(_))) => self.succeed(
                no_events(),
                purpose,
            ),
            (Stage::Settling { block, purpose }, Reply::Paused) => {
                let bank = self.bank;
                self.ask(
                    no_events(),
                    Stage::SwitchingBack { block, purpose },
                    Request::WriteBlock { bank, block },
                )
            },
            (Stage::SwitchingBack { purpose, .. }, Reply::Done(Ok(()))) => self.succeed(
                no_events(),
                purpose,
            ),
            (Stage::SwitchingBack { purpose, .. }, Reply::Done(Err(_))) => {
                let event = Event::Error(
                    "the mouse did not take the active level back; press its DPI button to re-select it".to_string(),
                );
                self.succeed(one_event(event), purpose)
            },
            _ => self.finish(no_events()),
        }
    }

    fn step_setting(&mut self, stage: Stage, reply: Reply) -> (turn: Turn)
        requires
            stage is SettingMode || stage is CheckingMode || stage is SettingDebounce,
        ensures
            moved(*final(self), turn) == advanced(Session { stage, ..*old(self) }, reply),
    {
        match (stage, reply) {
            (Stage::SettingMode { mode, reset }, Reply::Done(Ok(()))) => self.ask(
                no_events(),
                Stage::CheckingMode { mode, reset },
                Request::ReadMode,
            ),
            (Stage::SettingMode { reset, .. }, Reply::Done(Err(e))) => {
                let event = failure_event("set mode failed", &e);
                self.drop_dead_link(&e);
                self.end_mode(event, reset)
            },
            (Stage::CheckingMode { reset, .. }, Reply::Mode(Ok(mode))) => self.end_mode(
                Event::Mode(mode),
                reset,
            ),
            (Stage::CheckingMode { mode, reset }, Reply::Mode(Err(_))) => {
                let note = text_of_number("Mode ", mode, " sent (no read-back)");
                self.end_mode(Event::Note(note), reset)
            },
            (Stage::SettingDebounce { value }, Reply::Done(Ok(()))) => {
                let note = text_of_number(
                    "Debounce register set to ",
                    value,
                    " (write-only, not in a backup)",
                );
                self.finish(one_event(Event::Note(note)))
            },
            (Stage::SettingDebounce { .. }, Reply::Done(Err(e))) => self.report(
                no_events(),
                "set debounce failed",
                e,
            ),
            _ => self.finish(no_events()),
        }
    }

    fn step_file(&mut self, stage: Stage, reply: Reply) -> (turn: Turn)
        requires
            stage is BackupReading || stage is BackupSaving || stage is RestoreLoading || stage
                is ResetReading || stage is ResetSaving,
        ensures
            moved(*final(self), turn) == advanced(Session { stage, ..*old(self) }, reply),
    {
        match (stage, reply) {
            (Stage::BackupReading { path }, Reply::Report(Ok(data))) => {
                let to = path.clone();
                self.bank_confirmed = true;
                self.ask(
                    no_events(),
                    Stage::BackupSaving { path },
                    Request::SaveFile { path: to, data },
                )
            },
            (Stage::BackupReading { .. }, Reply::Report(Err(e))) => self.report(
                one_event(not_busy_event()),
                "backup failed",
                e,
            ),
            (Stage::BackupSaving { path }, Reply::Saved(Ok(()))) => {
                let mut note = text_of_number("Backup of bank ", self.bank, " written to ");
                note.append(path.as_str());
                self.finish(two_events(not_busy_event(), Event::Note(note)))
            },
            (Stage::BackupSaving { .. }, Reply::Saved(Err(text))) => {
                let event = Event::Error(joined("backup failed: ", text.as_str()));
                self.finish(two_events(not_busy_event(), event))
            },
            (Stage::RestoreLoading { path }, Reply::Loaded(Ok(data))) => {
                match restored_block(path.as_str(), &data) {
                    Err(fault) => self.finish(one_event(Event::Error(fault))),
                    Ok(block) => self.apply_block(no_events(), block, Purpose::Restore { path }),
                }
            },
            (Stage::RestoreLoading { .. }, Reply::Loaded(Err(text))) => {
                let event = Event::Error(joined("restore failed: ", text.as_str()));
                self.finish(one_event(event))
            },
            (Stage::ResetReading { backup_path }, Reply::Report(Ok(data))) => {
                let path = backup_path.clone();
                self.bank_confirmed = true;
                self.ask(
                    no_events(),
                    Stage::ResetSaving { backup_path },
                    Request::SaveFile { path, data },
                )
            },
            (Stage::ResetReading { .. }, Reply::Report(Err(e))) => self.report(
                one_event(not_busy_event()),
                "factory reset cancelled, read failed",
                e,
            ),
            (Stage::ResetSaving { backup_path }, Reply::Saved(Ok(()))) => self.read_block(
                no_events(),
                Reader::FactoryReset { backup_path },
            ),
            (Stage::ResetSaving { backup_path }, Reply::Saved(Err(text))) => {
                let mut message = text_of(
                    "factory reset cancelled, could not save ",
                    backup_path.as_str(),
                    ": ",
                );
                message.append(text.as_str());
                self.finish(two_events(not_busy_event(), Event::Error(message)))
            },
            _ => self.finish(no_events()),
        }
    }
}

} // verus!
