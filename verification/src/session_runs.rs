//! What each command comes to, from the first request to the last event, for
//! every answer that the outside can give on the way.
use crate::protocol::{Error, Status, DATA_LEN};
use crate::session::{Link, Moved, Purpose, Reader, Reply, Request, Session, Stage};
use crate::settings::BLOCK_LEN;
use crate::worker::{Command, EventView};
use vstd::prelude::*;

verus! {

/// How a failure shows: a lost device, a refused access or an error of the
/// system ends the connection; a stall, a missing reply or a foreign one is the
/// failure of what was tried.
pub open spec fn failure_event(context: Seq<char>, e: Error) -> EventView {
    if e is IoStall || e is Timeout || e is Echo {
        EventView::Error(context + ": "@ + crate::protocol::error_text(e))
    } else {
        EventView::Disconnected(crate::protocol::error_text(e))
    }
}

/// The session after a failure: the link is lost, or nothing has changed.
pub open spec fn after_failure(s: Session, e: Error) -> Session {
    if e is IoStall || e is Timeout || e is Echo {
        Session { stage: Stage::Idle, ..s }
    } else {
        Session { link: None, stage: Stage::Idle, ..s }
    }
}

/// Whether a step ends the command with just these events.
pub open spec fn ends_with(m: Moved, session: Session, events: Seq<EventView>) -> bool {
    &&& m.request == (Request::Finished { running: true })
    &&& m.events == events
    &&& m.session == (Session { stage: Stage::Idle, ..session })
}

/// Whether a step asks for something, publishes just these events, and changes
/// the session in nothing but what it waits for.
pub open spec fn asks_for(m: Moved, session: Session, events: Seq<EventView>, request: Request) -> bool {
    &&& m.request == request
    &&& m.events == events
    &&& m.session == (Session { stage: m.session.stage, ..session })
    &&& m.session.stage !is Idle
}

pub open spec fn quiet() -> Seq<EventView> {
    Seq::empty()
}

pub open spec fn busy_lifted() -> EventView {
    EventView::Busy { busy: false, label: Seq::empty() }
}

// ---------------------------------------------------------------------------
// connecting
// ---------------------------------------------------------------------------

/// A session that has a link and nothing to do.
pub open spec fn is_connected(s: Session) -> bool {
    s.link is Some && s.stage is Idle
}

/// A command that is started by a session: the poll, or one of the commands but
/// the last.
pub open spec fn started(s: Session, command: Option<Command>) -> Moved {
    match command {
        Some(command) => crate::session::begun(s, command),
        None => crate::session::polled(s),
    }
}

/// The generation of a session that has taken a command.
pub open spec fn generation_with(s: Session, command: Option<Command>) -> u64 {
    match command {
        Some(Command::ApplyBlock { generation, .. }) => generation,
        _ => s.generation,
    }
}

/// Without a link every command first looks for the node, opens it, and asks it
/// for its psd and mode; then the bank that goes with the product id is read.
pub proof fn law_a_command_connects_first(
    s: Session,
    command: Option<Command>,
    path: String,
    pid: u16,
    psd: [u8; 4],
    mode: u8,
)
    requires
        s.stage is Idle,
        s.link is None,
        command != Some(Command::Shutdown),
    ensures
        ({
            let s = Session { generation: generation_with(s, command), ..s };
            let found = started(s, command);
            let opened = crate::session::advanced(found.session, Reply::Node(Ok((path, pid))));
            let asked = crate::session::advanced(opened.session, Reply::Done(Ok(())));
            let named = crate::session::advanced(asked.session, Reply::Psd(Ok(psd)));
            let moded = crate::session::advanced(named.session, Reply::Mode(Ok(mode)));
            &&& asks_for(found, s, quiet(), Request::FindNode)
            &&& asks_for(opened, s, quiet(), Request::OpenNode { path })
            &&& asks_for(asked, s, quiet(), Request::ReadPsd)
            &&& asks_for(named, s, quiet(), Request::ReadMode)
            &&& asks_for(
                moded,
                s,
                quiet(),
                Request::ReadBlock {
                    bank: if pid == 0x002e {
                        1
                    } else {
                        2
                    },
                },
            )
        }),
{
}

/// The session of a command once it has been asked for a mode and answered.
pub open spec fn probing(
    s: Session,
    command: Option<Command>,
    path: String,
    pid: u16,
    psd: [u8; 4],
    mode: u8,
) -> Session {
    let found = started(s, command).session;
    let opened = crate::session::advanced(found, Reply::Node(Ok((path, pid)))).session;
    let asked = crate::session::advanced(opened, Reply::Done(Ok(()))).session;
    let named = crate::session::advanced(asked, Reply::Psd(Ok(psd))).session;
    crate::session::advanced(named, Reply::Mode(Ok(mode))).session
}

/// A session with a new link to a bank, and the block that was read of it.
pub open spec fn linked(
    s: Session,
    path: String,
    pid: u16,
    psd: [u8; 4],
    bank: u8,
    probe: Option<[u8; BLOCK_LEN]>,
) -> Session {
    Session {
        link: Some(Link { path, pid }),
        psd,
        bank,
        bank_confirmed: probe is Some,
        last_block: probe,
        ..s
    }
}

/// What a new link is announced with.
pub open spec fn greeting(
    s: Session,
    path: String,
    pid: u16,
    psd: [u8; 4],
    mode: u8,
    bank: u8,
    probe: Option<[u8; BLOCK_LEN]>,
) -> Seq<EventView> {
    let hello = EventView::Connected { path: path@, pid, psd: psd@, mode, bank };
    match probe {
        Some(block) => seq![
            hello,
            EventView::Mode(mode),
            EventView::Block { block: block@, generation: s.generation, verified: true },
        ],
        None => seq![hello, EventView::Mode(mode)],
    }
}

/// Whether a step goes on exactly as the command does on a session that was
/// connected all along, after the greeting.
pub open spec fn goes_on_connected(
    m: Moved,
    open: Session,
    greeting: Seq<EventView>,
    command: Option<Command>,
) -> bool {
    let direct = started(open, command);
    &&& m.session == direct.session
    &&& m.request == direct.request
    &&& m.events == greeting + direct.events
}

proof fn lemma_connected_goes_on(
    s: Session,
    found: crate::session::Found,
    psd: [u8; 4],
    mode: u8,
    bank: u8,
    probe: Option<[u8; BLOCK_LEN]>,
    command: Option<Command>,
)
    requires
        s.generation == generation_with(s, command),
        command != Some(Command::Shutdown),
        started(Session { stage: Stage::Idle, link: None, ..s }, command).session.stage == (
        Stage::Finding { job: found.job }),
    ensures
        goes_on_connected(
            crate::session::connected(s, found, psd, mode, bank, probe),
            linked(Session { stage: Stage::Idle, ..s }, found.path, found.pid, psd, bank, probe),
            greeting(s, found.path, found.pid, psd, mode, bank, probe),
            command,
        ),
{
    let m = crate::session::connected(s, found, psd, mode, bank, probe);
    let direct = started(
        linked(Session { stage: Stage::Idle, ..s }, found.path, found.pid, psd, bank, probe),
        command,
    );
    assert(m.events =~= greeting(s, found.path, found.pid, psd, mode, bank, probe)
        + direct.events);
}

/// A bank that answers becomes the bank of the session, its block is handed over,
/// and the command goes on as if the session had been connected all along.
pub proof fn law_a_bank_that_answers_is_taken(
    s: Session,
    command: Option<Command>,
    path: String,
    pid: u16,
    psd: [u8; 4],
    mode: u8,
    block: [u8; BLOCK_LEN],
)
    requires
        s.stage is Idle,
        s.link is None,
        command != Some(Command::Shutdown),
        s.generation == generation_with(s, command),
    ensures
        ({
            let bank: u8 = if pid == 0x002e {
                1
            } else {
                2
            };
            goes_on_connected(
                crate::session::advanced(
                    probing(s, command, path, pid, psd, mode),
                    Reply::Block(Ok(block)),
                ),
                linked(s, path, pid, psd, bank, Some(block)),
                greeting(s, path, pid, psd, mode, bank, Some(block)),
                command,
            )
        }),
{
    let before = probing(s, command, path, pid, psd, mode);
    let found = before.stage->ProbingPrimary_found;
    lemma_connected_goes_on(
        before,
        found,
        psd,
        mode,
        crate::session::primary_bank(pid),
        Some(block),
        command,
    );
}

/// A bank that does not answer makes the other one be tried: if that one answers
/// it is the bank of the session, else the first one stays, unconfirmed and with
/// no block known of it. Either way the command goes on.
pub proof fn law_the_other_bank_is_tried_before_giving_up(
    s: Session,
    command: Option<Command>,
    path: String,
    pid: u16,
    psd: [u8; 4],
    mode: u8,
    first: Error,
    second: Error,
    block: [u8; BLOCK_LEN],
)
    requires
        s.stage is Idle,
        s.link is None,
        command != Some(Command::Shutdown),
        s.generation == generation_with(s, command),
    ensures
        ({
            let bank: u8 = if pid == 0x002e {
                1
            } else {
                2
            };
            let other = (3 - bank) as u8;
            let tried = crate::session::advanced(
                probing(s, command, path, pid, psd, mode),
                Reply::Block(Err(first)),
            );
            &&& asks_for(tried, s, quiet(), Request::ReadBlock { bank: other })
            &&& goes_on_connected(
                crate::session::advanced(tried.session, Reply::Block(Ok(block))),
                linked(s, path, pid, psd, other, Some(block)),
                greeting(s, path, pid, psd, mode, other, Some(block)),
                command,
            )
            &&& goes_on_connected(
                crate::session::advanced(tried.session, Reply::Block(Err(second))),
                linked(s, path, pid, psd, bank, None),
                greeting(s, path, pid, psd, mode, bank, None),
                command,
            )
        }),
{
    let before = crate::session::advanced(
        probing(s, command, path, pid, psd, mode),
        Reply::Block(Err(first)),
    ).session;
    let found = before.stage->ProbingOther_found;
    let bank = crate::session::primary_bank(pid);
    lemma_connected_goes_on(
        before,
        found,
        psd,
        mode,
        crate::session::other_bank(bank),
        Some(block),
        command,
    );
    lemma_connected_goes_on(before, found, psd, mode, bank, None, command);
}

/// Whatever fails before the node has given its psd and mode ends the command:
/// the session stays without a link and says why. A refused node alone is asked
/// for access first, once, and then opened again.
pub proof fn law_a_failed_connection_says_why(
    s: Session,
    command: Option<Command>,
    path: String,
    pid: u16,
    psd: [u8; 4],
    e: Error,
)
    requires
        s.stage is Idle,
        s.link is None,
        command != Some(Command::Shutdown),
        s.generation == generation_with(s, command),
    ensures
        ({
            let why = seq![EventView::Disconnected(crate::protocol::error_text(e))];
            let found = started(s, command).session;
            let opened = crate::session::advanced(found, Reply::Node(Ok((path, pid)))).session;
            let refused = crate::session::advanced(opened, Reply::Done(Err(e)));
            let granted = crate::session::advanced(refused.session, Reply::Done(Ok(())));
            let asked = crate::session::advanced(opened, Reply::Done(Ok(()))).session;
            let reopened = crate::session::advanced(granted.session, Reply::Done(Ok(())));
            let named = crate::session::advanced(asked, Reply::Psd(Ok(psd))).session;
            let prompted = Session { access_requested: true, ..s };
            &&& ends_with(crate::session::advanced(found, Reply::Node(Err(e))), s, why)
            &&& ends_with(crate::session::advanced(asked, Reply::Psd(Err(e))), s, why)
            &&& ends_with(crate::session::advanced(named, Reply::Mode(Err(e))), s, why)
            &&& if e is PermissionDenied && !s.access_requested {
                &&& asks_for(refused, prompted, quiet(), Request::GrantAccess { path })
                &&& ends_with(
                    crate::session::advanced(refused.session, Reply::Done(Err(e))),
                    prompted,
                    why,
                )
                &&& asks_for(granted, prompted, quiet(), Request::OpenNode { path })
                &&& ends_with(
                    crate::session::advanced(granted.session, Reply::Done(Err(e))),
                    prompted,
                    why,
                )
                &&& asks_for(reopened, prompted, quiet(), Request::ReadPsd)
                &&& reopened.session == (Session { access_requested: true, ..asked })
            } else {
                ends_with(refused, s, why)
            }
        }),
{
}

// ---------------------------------------------------------------------------
// reading the profile
// ---------------------------------------------------------------------------

/// A bank that no read has confirmed is given up for the other one if that one
/// answers, and the command then goes on as if the other one had been the bank
/// all along. If neither answers, the first failure counts.
pub proof fn law_an_unconfirmed_bank_gives_way(
    s: Session,
    reader: Reader,
    first: Error,
    second: Error,
    block: [u8; BLOCK_LEN],
)
    requires
        s.stage == (Stage::Reading { reader }),
        !s.bank_confirmed,
    ensures
        ({
            let other: u8 = if s.bank == 1 {
                2
            } else {
                1
            };
            let tried = crate::session::advanced(s, Reply::Block(Err(first)));
            let there = Session { bank: other, ..s };
            let sure = Session { bank_confirmed: true, ..s };
            let failed = crate::session::advanced(sure, Reply::Block(Err(first)));
            let both = crate::session::advanced(tried.session, Reply::Block(Err(second)));
            &&& asks_for(tried, s, quiet(), Request::ReadBlock { bank: other })
            &&& crate::session::advanced(tried.session, Reply::Block(Ok(block)))
                == crate::session::advanced(there, Reply::Block(Ok(block)))
            &&& both.events == failed.events
            &&& both.request == failed.request
            &&& both.session == (Session { bank_confirmed: false, ..failed.session })
        }),
{
    let tried = crate::session::advanced(s, Reply::Block(Err(first)));
    let sure = Session { bank_confirmed: true, ..s };
    let failed = crate::session::advanced(sure, Reply::Block(Err(first)));
    let both = crate::session::advanced(tried.session, Reply::Block(Err(second)));
    assert(tried.session.stage == (Stage::ReadingOther { reader, first }));
    assert(failed == crate::session::profile_not_read(sure, reader, first));
    assert(both == crate::session::profile_not_read(
        Session { stage: Stage::ReadingOther { reader, first }, ..s },
        reader,
        first,
    ));
}

/// A read that gives a block confirms the bank, whatever it was for.
pub proof fn law_a_read_confirms_the_bank(s: Session, reader: Reader, block: [u8; BLOCK_LEN])
    requires
        s.stage == (Stage::Reading { reader }),
    ensures
        crate::session::advanced(s, Reply::Block(Ok(block))).session.bank_confirmed,
        crate::session::advanced(s, Reply::Block(Ok(block))).session.bank == s.bank,
{
}

// ---------------------------------------------------------------------------
// status, mode, debounce
// ---------------------------------------------------------------------------

/// The status as it is published: the charge is the one just read on battery, or
/// the last one known while charging.
pub open spec fn charge_event(s: Session, status: Status) -> EventView {
    EventView::Status {
        charging: status.state == 0x10,
        percent: if status.state == 0x10 {
            s.last_percent
        } else {
            Some(status.percent)
        },
    }
}

/// The session that remembers the charge it shows.
pub open spec fn charged(s: Session, status: Status) -> Session {
    Session {
        last_percent: if status.state == 0x10 {
            s.last_percent
        } else {
            Some(status.percent)
        },
        ..s
    }
}

/// A poll on an open link reads the status and then the block of the session's
/// bank; the block is published if it is not the last one known.
pub proof fn law_a_poll_reads_status_and_block(
    s: Session,
    status: Status,
    block: [u8; BLOCK_LEN],
    e: Error,
)
    requires
        is_connected(s),
    ensures
        ({
            let asked = crate::session::polled(s);
            let read = crate::session::advanced(asked.session, Reply::Status(Ok(status)));
            let done = crate::session::advanced(read.session, Reply::Block(Ok(block)));
            let missed = crate::session::advanced(read.session, Reply::Block(Err(e)));
            let now = charged(s, status);
            let sure = Session { bank_confirmed: true, ..now };
            &&& asks_for(asked, s, quiet(), Request::ReadStatus)
            &&& asks_for(
                read,
                now,
                seq![charge_event(s, status)],
                Request::ReadBlock { bank: s.bank },
            )
            &&& if s.last_block == Some(block) {
                ends_with(done, sure, quiet())
            } else {
                ends_with(
                    done,
                    Session { last_block: Some(block), ..sure },
                    seq![
                        EventView::Block {
                            block: block@,
                            generation: s.generation,
                            verified: true,
                        },
                    ],
                )
            }
            &&& s.bank_confirmed ==> missed.session == after_failure(now, e) && missed.events
                == seq![failure_event("read settings failed"@, e)] && missed.request == (
            Request::Finished { running: true })
            &&& ({
                let none = crate::session::advanced(asked.session, Reply::Status(Err(e)));
                none.session == after_failure(s, e) && none.events == seq![
                    failure_event("battery read failed"@, e),
                ] && none.request == (Request::Finished { running: true })
            })
        }),
{
    if let Some(last) = s.last_block {
        if last@ == block@ {
            crate::settings::lemma_block_of_array(last);
            crate::settings::lemma_block_of_array(block);
        }
    }
    let read = crate::session::advanced(
        crate::session::polled(s).session,
        Reply::Status(Ok(status)),
    );
    assert(read.session.stage == (Stage::Reading { reader: Reader::Poll }));
}

/// A refresh on an open link reads the status; where a block is known that is
/// all, else it goes on as a poll does.
pub proof fn law_a_refresh_is_a_poll_until_a_block_is_known(s: Session, status: Status, e: Error)
    requires
        is_connected(s),
    ensures
        ({
            let asked = crate::session::begun(s, Command::Refresh);
            let poll = crate::session::polled(s);
            let read = crate::session::advanced(asked.session, Reply::Status(Ok(status)));
            let none = crate::session::advanced(asked.session, Reply::Status(Err(e)));
            &&& asks_for(asked, s, quiet(), Request::ReadStatus)
            &&& s.last_block is Some ==> ends_with(
                read,
                charged(s, status),
                seq![charge_event(s, status)],
            )
            &&& s.last_block is None ==> read == crate::session::advanced(
                poll.session,
                Reply::Status(Ok(status)),
            )
            &&& none == crate::session::advanced(poll.session, Reply::Status(Err(e)))
        }),
{
}

/// A reload on an open link asks for psd, mode, status and block in turn, goes on
/// where one of the first three cannot be read, and publishes what it has at the
/// end.
pub proof fn law_a_reload_reads_all_four(
    s: Session,
    psd: Result<[u8; 4], Error>,
    mode: Result<u8, Error>,
    status: Result<Status, Error>,
    block: [u8; BLOCK_LEN],
    e: Error,
)
    requires
        is_connected(s),
    ensures
        ({
            let first = crate::session::begun(s, Command::Reload);
            let second = crate::session::advanced(first.session, Reply::Psd(psd));
            let third = crate::session::advanced(second.session, Reply::Mode(mode));
            let fourth = crate::session::advanced(third.session, Reply::Status(status));
            let done = crate::session::advanced(fourth.session, Reply::Block(Ok(block)));
            let missed = crate::session::advanced(fourth.session, Reply::Block(Err(e)));
            let named = if psd is Ok {
                Session { psd: psd->Ok_0, ..s }
            } else {
                s
            };
            let now = if status is Ok {
                charged(named, status->Ok_0)
            } else {
                named
            };
            let told = if mode is Ok && status is Ok {
                seq![EventView::Mode(mode->Ok_0), charge_event(s, status->Ok_0)]
            } else if mode is Ok {
                seq![EventView::Mode(mode->Ok_0)]
            } else if status is Ok {
                seq![charge_event(s, status->Ok_0)]
            } else {
                quiet()
            };
            &&& asks_for(first, s, quiet(), Request::ReadPsd)
            &&& asks_for(second, named, quiet(), Request::ReadMode)
            &&& asks_for(third, named, quiet(), Request::ReadStatus)
            &&& asks_for(fourth, named, quiet(), Request::ReadBlock { bank: s.bank })
            &&& ends_with(
                done,
                Session { bank_confirmed: true, last_block: Some(block), ..now },
                told.push(
                    EventView::Block { block: block@, generation: s.generation, verified: true },
                ),
            )
            &&& s.bank_confirmed ==> missed.session == after_failure(now, e) && missed.events
                == told.push(failure_event("read settings failed"@, e)) && missed.request == (
            Request::Finished { running: true })
        }),
{
    let first = crate::session::begun(s, Command::Reload);
    let second = crate::session::advanced(first.session, Reply::Psd(psd));
    let third = crate::session::advanced(second.session, Reply::Mode(mode));
    let fourth = crate::session::advanced(third.session, Reply::Status(status));
    let reader = Reader::Reload {
        mode: match mode {
            Ok(m) => Some(m),
            Err(_) => None,
        },
        status: match status {
            Ok(t) => Some(t),
            Err(_) => None,
        },
    };
    assert(fourth.session.stage == (Stage::Reading { reader }));
    if mode is Ok && status is Ok {
        assert(seq![EventView::Mode(mode->Ok_0)].push(charge_event(s, status->Ok_0)) =~= seq![
            EventView::Mode(mode->Ok_0),
            charge_event(s, status->Ok_0),
        ]);
    }
}

/// Setting the mode sends it and reads it back: the mode that was read is
/// published, or that there was no read-back.
pub proof fn law_a_mode_is_sent_and_read_back(s: Session, mode: u8, got: u8, e: Error)
    requires
        is_connected(s),
    ensures
        ({
            let sent = crate::session::begun(s, Command::SetMode(mode));
            let read = crate::session::advanced(sent.session, Reply::Done(Ok(())));
            let refused = crate::session::advanced(sent.session, Reply::Done(Err(e)));
            &&& asks_for(sent, s, quiet(), Request::SetMode { mode })
            &&& asks_for(read, s, quiet(), Request::ReadMode)
            &&& ends_with(
                crate::session::advanced(read.session, Reply::Mode(Ok(got))),
                s,
                seq![EventView::Mode(got)],
            )
            &&& ends_with(
                crate::session::advanced(read.session, Reply::Mode(Err(e))),
                s,
                seq![
                    EventView::Note(
                        "Mode "@ + crate::text::decimal(mode as nat) + " sent (no read-back)"@,
                    ),
                ],
            )
            &&& refused.session == after_failure(s, e)
            &&& refused.events == seq![failure_event("set mode failed"@, e)]
            &&& refused.request == (Request::Finished { running: true })
        }),
{
}

/// Setting the debounce register sends the value, and says so.
pub proof fn law_a_debounce_value_is_sent(s: Session, value: u8, e: Error)
    requires
        is_connected(s),
    ensures
        ({
            let sent = crate::session::begun(s, Command::SetDebounce(value));
            let refused = crate::session::advanced(sent.session, Reply::Done(Err(e)));
            &&& asks_for(sent, s, quiet(), Request::SetDebounce { value })
            &&& ends_with(
                crate::session::advanced(sent.session, Reply::Done(Ok(()))),
                s,
                seq![
                    EventView::Note(
                        "Debounce register set to "@ + crate::text::decimal(value as nat)
                            + " (write-only, not in a backup)"@,
                    ),
                ],
            )
            &&& refused.session == after_failure(s, e)
            &&& refused.events == seq![failure_event("set debounce failed"@, e)]
            &&& refused.request == (Request::Finished { running: true })
        }),
{
}

/// Shutting down asks for nothing, changes nothing and stops the thread; it is
/// the only command that does.
pub proof fn law_only_a_shutdown_stops_the_thread(s: Session, command: Command)
    requires
        s.stage is Idle,
    ensures
        crate::session::begun(s, command).request == (Request::Finished { running: false })
            <==> command is Shutdown,
        command is Shutdown ==> crate::session::begun(s, command).events == quiet()
            && crate::session::begun(s, command).session == s,
{
}

// ---------------------------------------------------------------------------
// files
// ---------------------------------------------------------------------------

/// A backup on an open link asks for the report of the session's bank, saves the
/// report that comes back under the given path, and says which bank it was.
pub proof fn law_a_backup_saves_the_report_of_its_bank(
    s: Session,
    path: String,
    data: [u8; DATA_LEN],
)
    requires
        is_connected(s),
    ensures
        ({
            let asked = crate::session::begun(s, Command::Backup { path });
            let read = crate::session::advanced(asked.session, Reply::Report(Ok(data)));
            let saved = crate::session::advanced(read.session, Reply::Saved(Ok(())));
            let sure = Session { bank_confirmed: true, ..s };
            &&& asks_for(
                asked,
                s,
                seq![EventView::Busy { busy: true, label: "Reading backup"@ }],
                Request::ReadReport { bank: s.bank },
            )
            &&& asks_for(read, sure, quiet(), Request::SaveFile { path, data })
            &&& ends_with(
                saved,
                sure,
                seq![
                    busy_lifted(),
                    EventView::Note(
                        "Backup of bank "@ + crate::text::decimal(s.bank as nat) + " written to "@
                            + path@,
                    ),
                ],
            )
        }),
{
    let asked = crate::session::begun(s, Command::Backup { path });
    assert(asked.session.stage == (Stage::BackupReading { path }));
    let read = crate::session::advanced(asked.session, Reply::Report(Ok(data)));
    assert(read.session.stage == (Stage::BackupSaving { path }));
    let saved = crate::session::advanced(read.session, Reply::Saved(Ok(())));
    assert(saved.events =~= seq![
        busy_lifted(),
        EventView::Note(
            "Backup of bank "@ + crate::text::decimal(s.bank as nat) + " written to "@ + path@,
        ),
    ]);
}

/// A backup that cannot be read or saved says so and lifts the busy state.
pub proof fn law_a_failed_backup_says_why(s: Session, path: String, text: String, e: Error)
    ensures
        s.stage == (Stage::BackupSaving { path }) ==> ends_with(
            crate::session::advanced(s, Reply::Saved(Err(text))),
            s,
            seq![busy_lifted(), EventView::Error("backup failed: "@ + text@)],
        ),
        s.stage == (Stage::BackupReading { path }) ==> ({
            let missed = crate::session::advanced(s, Reply::Report(Err(e)));
            &&& missed.session == after_failure(s, e)
            &&& missed.events == seq![busy_lifted(), failure_event("backup failed"@, e)]
            &&& missed.request == (Request::Finished { running: true })
        }),
{
    if s.stage == (Stage::BackupSaving { path }) {
        assert(crate::session::advanced(s, Reply::Saved(Err(text))).events =~= seq![
            busy_lifted(),
            EventView::Error("backup failed: "@ + text@),
        ]);
    }
    if s.stage == (Stage::BackupReading { path }) {
        assert(crate::session::advanced(s, Reply::Report(Err(e))).events =~= seq![
            busy_lifted(),
            failure_event("backup failed"@, e),
        ]);
    }
}

/// A restore on an open link loads the file; one that is a data report of a
/// profile is written to the session's bank with the commit marker, and any
/// other file ends the command without a request to the device.
pub proof fn law_a_restore_writes_only_a_profile(
    s: Session,
    path: String,
    data: Vec<u8>,
    text: String,
)
    requires
        is_connected(s),
    ensures
        ({
            let asked = crate::session::begun(s, Command::Restore { path });
            let loaded = crate::session::advanced(asked.session, Reply::Loaded(Ok(data)));
            let nibbles = data@[11];
            &&& asks_for(asked, s, quiet(), Request::LoadFile { path })
            &&& ends_with(
                crate::session::advanced(asked.session, Reply::Loaded(Err(text))),
                s,
                seq![EventView::Error("restore failed: "@ + text@)],
            )
            &&& if data@.len() == 520 && data@[0] == 8 && 1 <= nibbles / 16 <= nibbles % 16 <= 8 {
                &&& loaded.request matches Request::WriteBlock { bank, block } && bank == s.bank
                    && block@[0x90] == 0xa5 && (forall|i: int|
                    0 <= i < 148 && i != 0x90 && !(5 <= i < 21) ==> #[trigger] block@[i] == data@[8
                        + i]) && (forall|level: int|
                    0 <= level < 8 && data@[13 + 2 * level] <= 59 && data@[14 + 2 * level] == 0
                        ==> #[trigger] block@[5 + 2 * level] == data@[13 + 2 * level] && block@[6
                        + 2 * level] == 0) && (forall|level: int|
                    0 <= level < 8 && !(data@[13 + 2 * level] <= 59 && data@[14 + 2 * level] == 0)
                        ==> #[trigger] block@[5 + 2 * level] == 59 && block@[6 + 2 * level] == 0)
                    && loaded.session.stage == (Stage::Writing {
                    block,
                    purpose: Purpose::Restore { path },
                })
                &&& loaded.events == seq![
                    EventView::Busy { busy: true, label: "Writing settings"@ },
                ]
                &&& loaded.session == (Session { stage: loaded.session.stage, ..s })
            } else {
                &&& loaded.request == (Request::Finished { running: true })
                &&& loaded.session == s
                &&& loaded.events.len() == 1
                &&& loaded.events[0] is Error
            }
        }),
{
    let asked = crate::session::begun(s, Command::Restore { path });
    let loaded = crate::session::advanced(asked.session, Reply::Loaded(Ok(data)));
    let nibbles = data@[11];
    let block = crate::protocol::block_in(data@);
    if data@.len() == 520 && data@[0] == 8 {
        assert(block[3] == data@[11]);
        let bytes = crate::worker::committed(crate::worker::restored_bytes(data@));
        crate::settings::lemma_block_of_bytes(bytes);
        assert forall|level: int| 0 <= level < 8 implies {
            let code = data@[13 + 2 * level] + 256 * data@[14 + 2 * level];
            &&& #[trigger] bytes[5 + 2 * level] == if code <= 59 {
                data@[13 + 2 * level] as int
            } else {
                59
            }
            &&& bytes[6 + 2 * level] == 0
        } by {
            assert((5 + 2 * level - 5) / 2 == level && (6 + 2 * level - 5) / 2 == level);
            assert(block[5 + 2 * level] == data@[13 + 2 * level]);
            assert(block[6 + 2 * level] == data@[14 + 2 * level]);
        }
    }
}

// ---------------------------------------------------------------------------
// writing
// ---------------------------------------------------------------------------

/// An edit on an open link adopts its generation, and is written to the session's
/// bank with the commit marker set and no other byte changed; then the block is
/// read back.
pub proof fn law_an_edit_is_written_as_it_is(
    s: Session,
    block: [u8; BLOCK_LEN],
    generation: u64,
    e: Error,
)
    requires
        is_connected(s),
    ensures
        ({
            let adopted = Session { generation, ..s };
            let sent = crate::session::begun(s, Command::ApplyBlock { block, generation });
            let read = crate::session::advanced(sent.session, Reply::Done(Ok(())));
            let lost = crate::session::advanced(sent.session, Reply::Done(Err(e)));
            &&& sent.request matches Request::WriteBlock { bank, block: written } && bank == s.bank
                && written@ == block@.update(0x90, 0xa5) && sent.session.stage == (Stage::Writing {
                block: written,
                purpose: Purpose::Edit,
            })
            &&& sent.events == seq![EventView::Busy { busy: true, label: "Writing settings"@ }]
            &&& sent.session == (Session { stage: sent.session.stage, ..adopted })
            &&& asks_for(read, adopted, quiet(), Request::ReadBlock { bank: s.bank })
            &&& lost.session == after_failure(adopted, e)
            &&& lost.request == (Request::Finished { running: true })
            &&& lost.events == seq![busy_lifted(), failure_event("write settings failed"@, e)]
        }),
{
    crate::settings::lemma_block_of_bytes(crate::worker::committed(block@));
    let sent = crate::session::begun(s, Command::ApplyBlock { block, generation });
    let lost = crate::session::advanced(sent.session, Reply::Done(Err(e)));
    assert(lost.events =~= seq![busy_lifted(), failure_event("write settings failed"@, e)]);
}

/// Whether the slot of the level that `next` has active holds another DPI code or
/// another colour than before.
pub open spec fn active_slot_differs(previous: Seq<u8>, next: Seq<u8>) -> bool {
    let number = next[3] / 16;
    let level = if number == 0 {
        0
    } else {
        number - 1
    };
    ||| previous[5 + 2 * level] != next[5 + 2 * level]
    ||| previous[6 + 2 * level] != next[6 + 2 * level]
    ||| previous[0x25 + 3 * level] != next[0x25 + 3 * level]
    ||| previous[0x26 + 3 * level] != next[0x26 + 3 * level]
    ||| previous[0x27 + 3 * level] != next[0x27 + 3 * level]
}

proof fn lemma_active_slot(previous: Seq<u8>, next: Seq<u8>)
    requires
        previous.len() == BLOCK_LEN,
        next.len() == BLOCK_LEN,
    ensures
        crate::worker::level_changed(previous, next) == active_slot_differs(previous, next),
{
    let level = crate::settings::level_index(next) as int;
    let a = crate::settings::color_at(previous, level);
    let b = crate::settings::color_at(next, level);
    assert(a[0] == previous[0x25 + 3 * level] && a[1] == previous[0x26 + 3 * level] && a[2]
        == previous[0x27 + 3 * level]);
    assert(b[0] == next[0x25 + 3 * level] && b[1] == next[0x26 + 3 * level] && b[2] == next[0x27
        + 3 * level]);
    assert(a =~= b <==> (a[0] == b[0] && a[1] == b[1] && a[2] == b[2]));
}

/// A session that has written a block and waits for it to be read back.
pub open spec fn reads_back(s: Session, block: [u8; BLOCK_LEN], purpose: Purpose) -> bool {
    s.stage == (Stage::Reading { reader: Reader::ReadBack { block, purpose } }) && s.link is Some
}

/// The session that has read a block back.
pub open spec fn knowing(s: Session, block: [u8; BLOCK_LEN]) -> Session {
    Session { bank_confirmed: true, last_block: Some(block), ..s }
}

/// What is published when a block has been read back.
pub open spec fn read_back_events(
    s: Session,
    got: [u8; BLOCK_LEN],
    verified: bool,
) -> Seq<EventView> {
    seq![
        busy_lifted(),
        EventView::Block { block: got@, generation: s.generation, verified },
    ]
}

/// Whether a step is the end of a write that the device confirmed, with `before`
/// published first: an edit is done, a restore says so, and a reset goes on to
/// set mode 2.
pub open spec fn write_succeeds(
    m: Moved,
    session: Session,
    before: Seq<EventView>,
    purpose: Purpose,
) -> bool {
    match purpose {
        Purpose::Edit => ends_with(m, session, before),
        Purpose::Restore { path } => ends_with(
            m,
            session,
            before.push(EventView::Note("Settings restored from "@ + path@)),
        ),
        Purpose::FactoryReset { backup_path } => asks_for(
            m,
            session,
            before,
            Request::SetMode { mode: 2 },
        ) && m.session.stage == (Stage::SettingMode { mode: 2, reset: Some(backup_path) }),
    }
}

/// A block that comes back as it was written is a success, whatever it was
/// written for. If the settings of the active level are new to the mouse and
/// there is another level, the mouse is first switched to that level and back;
/// what becomes of that changes nothing of the success.
pub proof fn law_exact_bytes_are_a_success(
    s: Session,
    block: [u8; BLOCK_LEN],
    purpose: Purpose,
    got: [u8; BLOCK_LEN],
    e: Error,
)
    requires
        reads_back(s, block, purpose),
        got@ == block@,
    ensures
        ({
            let m = crate::session::advanced(s, Reply::Block(Ok(got)));
            let known = knowing(s, got);
            let told = read_back_events(s, got, true);
            let count = block@[3] % 16;
            let switches = (s.last_block matches Some(previous) && active_slot_differs(
                previous@,
                got@,
            )) && count >= 2;
            let paused = crate::session::advanced(m.session, Reply::Done(Ok(())));
            let back = crate::session::advanced(paused.session, Reply::Paused);
            &&& !switches ==> write_succeeds(m, known, told, purpose)
            &&& switches ==> {
                &&& m.request matches Request::WriteBlock { bank, block: away } && bank == s.bank
                    && away@.len() == 148 && away@[3] % 16 == count && (away@[3] / 16 == if block@[3]
                    / 16 <= 1 {
                    2int
                } else {
                    1int
                }) && forall|i: int| 0 <= i < 148 && i != 3 ==> #[trigger] away@[i] == block@[i]
                &&& m.events == told
                &&& m.session == (Session { stage: m.session.stage, ..known })
                &&& asks_for(paused, known, quiet(), Request::Pause { millis: 60 })
                &&& asks_for(
                    back,
                    known,
                    quiet(),
                    Request::WriteBlock { bank: s.bank, block },
                )
                &&& write_succeeds(
                    crate::session::advanced(m.session, Reply::Done(Err(e))),
                    known,
                    quiet(),
                    purpose,
                )
                &&& write_succeeds(
                    crate::session::advanced(back.session, Reply::Done(Ok(()))),
                    known,
                    quiet(),
                    purpose,
                )
                &&& write_succeeds(
                    crate::session::advanced(back.session, Reply::Done(Err(e))),
                    known,
                    seq![
                        EventView::Error(
                            "the mouse did not take the active level back; press its DPI button to re-select it"@,
                        ),
                    ],
                    purpose,
                )
            }
        }),
{
    let m = crate::session::advanced(s, Reply::Block(Ok(got)));
    let told = read_back_events(s, got, true);
    let ev = seq![crate::session::not_busy()].push(
        EventView::Block { block: got@, generation: s.generation, verified: true },
    );
    assert(ev =~= told);
    assert(m == crate::session::read_back(
        Session { bank_confirmed: true, ..s },
        block,
        purpose,
        got,
    ));
    if let Some(previous) = s.last_block {
        lemma_active_slot(previous@, got@);
    }
    crate::settings::lemma_block_of_bytes(crate::worker::with_other_level(block@));
}

/// A block that comes back otherwise is published as not verified, nothing more
/// is asked for, and what it was written for is said to have failed.
pub proof fn law_other_bytes_are_no_success(
    s: Session,
    block: [u8; BLOCK_LEN],
    purpose: Purpose,
    got: [u8; BLOCK_LEN],
    e: Error,
)
    requires
        reads_back(s, block, purpose),
        got@ != block@,
    ensures
        ({
            let m = crate::session::advanced(s, Reply::Block(Ok(got)));
            let lost = crate::session::advanced(s, Reply::Block(Err(e)));
            let told = read_back_events(s, got, false);
            let failed = seq![busy_lifted(), failure_event("write settings failed"@, e)];
            &&& ends_with(
                m,
                knowing(s, got),
                match purpose {
                    Purpose::Edit => told,
                    Purpose::Restore { path } => told.push(
                        EventView::Error("restore of "@ + path@ + " failed"@),
                    ),
                    Purpose::FactoryReset { .. } => told.push(
                        EventView::Error("factory defaults were not accepted by the device"@),
                    ),
                },
            )
            &&& s.bank_confirmed ==> lost.session == after_failure(s, e) && lost.request == (
            Request::Finished { running: true }) && lost.events == match purpose {
                Purpose::Edit => failed,
                Purpose::Restore { path } => failed.push(
                    EventView::Error("restore of "@ + path@ + " failed"@),
                ),
                Purpose::FactoryReset { .. } => failed.push(
                    EventView::Error("factory defaults were not accepted by the device"@),
                ),
            }
        }),
{
    let told = read_back_events(s, got, false);
    let ev = seq![crate::session::not_busy()].push(
        EventView::Block { block: got@, generation: s.generation, verified: false },
    );
    assert(ev =~= told);
    let m = crate::session::advanced(s, Reply::Block(Ok(got)));
    assert(m == crate::session::read_back(
        Session { bank_confirmed: true, ..s },
        block,
        purpose,
        got,
    ));
    let failed = seq![busy_lifted(), failure_event("write settings failed"@, e)];
    assert(seq![crate::session::not_busy()].push(
        crate::session::error_event("write settings failed"@, e),
    ) =~= failed);
}

/// A write of any purpose that the device has taken is read back from the bank it
/// went to; one that it has not taken is reported, and what it was for failed.
pub proof fn law_a_write_is_read_back(
    s: Session,
    block: [u8; BLOCK_LEN],
    purpose: Purpose,
    e: Error,
)
    requires
        s.stage == (Stage::Writing { block, purpose }),
        s.link is Some,
    ensures
        ({
            let read = crate::session::advanced(s, Reply::Done(Ok(())));
            let lost = crate::session::advanced(s, Reply::Done(Err(e)));
            &&& asks_for(read, s, quiet(), Request::ReadBlock { bank: s.bank })
            &&& reads_back(read.session, block, purpose)
            &&& lost.session == after_failure(s, e)
            &&& lost.request == (Request::Finished { running: true })
            &&& lost.events == match purpose {
                Purpose::Edit => seq![busy_lifted(), failure_event("write settings failed"@, e)],
                Purpose::Restore { path } => seq![
                    busy_lifted(),
                    failure_event("write settings failed"@, e),
                    EventView::Error("restore of "@ + path@ + " failed"@),
                ],
                Purpose::FactoryReset { .. } => seq![
                    busy_lifted(),
                    failure_event("write settings failed"@, e),
                    EventView::Error("factory defaults were not accepted by the device"@),
                ],
            }
        }),
{
    let lost = crate::session::advanced(s, Reply::Done(Err(e)));
    match purpose {
        Purpose::Edit => {
            assert(lost.events =~= seq![busy_lifted(), failure_event("write settings failed"@, e)]);
        },
        Purpose::Restore { path } => {
            assert(lost.events =~= seq![
                busy_lifted(),
                failure_event("write settings failed"@, e),
                EventView::Error("restore of "@ + path@ + " failed"@),
            ]);
        },
        Purpose::FactoryReset { .. } => {
            assert(lost.events =~= seq![
                busy_lifted(),
                failure_event("write settings failed"@, e),
                EventView::Error("factory defaults were not accepted by the device"@),
            ]);
        },
    }
}

// ---------------------------------------------------------------------------
// the factory reset
// ---------------------------------------------------------------------------

/// A factory reset on an open link reads the report of the session's bank, saves
/// it, reads the block, and writes the factory profile over it; whatever of that
/// fails cancels the reset before anything is written.
pub proof fn law_a_reset_reads_saves_and_writes(
    s: Session,
    path: String,
    data: [u8; DATA_LEN],
    current: [u8; BLOCK_LEN],
    text: String,
    e: Error,
)
    requires
        is_connected(s),
        s.generation < u64::MAX,
    ensures
        ({
            let asked = crate::session::begun(s, Command::FactoryReset { backup_path: path });
            let read = crate::session::advanced(asked.session, Reply::Report(Ok(data)));
            let saved = crate::session::advanced(read.session, Reply::Saved(Ok(())));
            let sent = crate::session::advanced(saved.session, Reply::Block(Ok(current)));
            let no_report = crate::session::advanced(asked.session, Reply::Report(Err(e)));
            let no_file = crate::session::advanced(read.session, Reply::Saved(Err(text)));
            let no_block = crate::session::advanced(saved.session, Reply::Block(Err(e)));
            let sure = Session { bank_confirmed: true, ..s };
            let next = Session { generation: (s.generation + 1) as u64, ..sure };
            let cancelled = seq![
                busy_lifted(),
                failure_event("factory reset cancelled, read failed"@, e),
            ];
            &&& asks_for(
                asked,
                s,
                seq![EventView::Busy { busy: true, label: "Restoring factory defaults"@ }],
                Request::ReadReport { bank: s.bank },
            )
            &&& asks_for(read, sure, quiet(), Request::SaveFile { path, data })
            &&& asks_for(saved, sure, quiet(), Request::ReadBlock { bank: s.bank })
            &&& sent.request matches Request::WriteBlock { bank, block } && bank == s.bank && block@
                == crate::settings::factory_bytes(current@).update(0x90, 0xa5)
                && sent.session.stage == (Stage::Writing {
                block,
                purpose: Purpose::FactoryReset { backup_path: path },
            })
            &&& sent.events == seq![EventView::Busy { busy: true, label: "Writing settings"@ }]
            &&& sent.session == (Session { stage: sent.session.stage, ..next })
            &&& no_report.session == after_failure(s, e)
            &&& no_report.events == cancelled
            &&& no_report.request == (Request::Finished { running: true })
            &&& no_block.session == after_failure(sure, e)
            &&& no_block.events == cancelled
            &&& no_block.request == (Request::Finished { running: true })
            &&& ends_with(
                no_file,
                sure,
                seq![
                    busy_lifted(),
                    EventView::Error(
                        "factory reset cancelled, could not save "@ + path@ + ": "@ + text@,
                    ),
                ],
            )
        }),
{
    let asked = crate::session::begun(s, Command::FactoryReset { backup_path: path });
    let read = crate::session::advanced(asked.session, Reply::Report(Ok(data)));
    let saved = crate::session::advanced(read.session, Reply::Saved(Ok(())));
    let no_report = crate::session::advanced(asked.session, Reply::Report(Err(e)));
    let no_file = crate::session::advanced(read.session, Reply::Saved(Err(text)));
    let no_block = crate::session::advanced(saved.session, Reply::Block(Err(e)));
    let cancelled = seq![
        busy_lifted(),
        failure_event("factory reset cancelled, read failed"@, e),
    ];
    assert(saved.session.stage == (Stage::Reading {
        reader: Reader::FactoryReset { backup_path: path },
    }));
    crate::settings::lemma_block_of_bytes(
        crate::worker::committed(crate::settings::factory_bytes(current@)),
    );
    assert(no_report.events =~= cancelled);
    assert(no_block.events =~= cancelled);
    assert(no_file.events =~= seq![
        busy_lifted(),
        EventView::Error("factory reset cancelled, could not save "@ + path@ + ": "@ + text@),
    ]);
}

/// The end of a factory reset: mode 2 is sent and read back, and whatever becomes
/// of that, the last event says that the defaults were written and where the
/// previous settings are.
pub proof fn law_a_reset_sets_mode_two_and_says_so(
    s: Session,
    path: String,
    got: u8,
    e: Error,
)
    requires
        s.stage == (Stage::SettingMode { mode: 2, reset: Some(path) }),
    ensures
        ({
            let note = EventView::Note(
                "Factory defaults written (previous settings saved to "@ + path@ + ")"@,
            );
            let read = crate::session::advanced(s, Reply::Done(Ok(())));
            let refused = crate::session::advanced(s, Reply::Done(Err(e)));
            &&& asks_for(read, s, quiet(), Request::ReadMode)
            &&& ends_with(
                crate::session::advanced(read.session, Reply::Mode(Ok(got))),
                s,
                seq![EventView::Mode(got), note],
            )
            &&& ends_with(
                crate::session::advanced(read.session, Reply::Mode(Err(e))),
                s,
                seq![
                    EventView::Note(
                        "Mode "@ + crate::text::decimal(2) + " sent (no read-back)"@,
                    ),
                    note,
                ],
            )
            &&& refused.session == after_failure(s, e)
            &&& refused.events == seq![failure_event("set mode failed"@, e), note]
            &&& refused.request == (Request::Finished { running: true })
        }),
{
    let note = EventView::Note(
        "Factory defaults written (previous settings saved to "@ + path@ + ")"@,
    );
    let read = crate::session::advanced(s, Reply::Done(Ok(())));
    let refused = crate::session::advanced(s, Reply::Done(Err(e)));
    let good = crate::session::advanced(read.session, Reply::Mode(Ok(got)));
    let none = crate::session::advanced(read.session, Reply::Mode(Err(e)));
    assert(good.events =~= seq![EventView::Mode(got), note]);
    assert(none.events =~= seq![
        EventView::Note("Mode "@ + crate::text::decimal(2) + " sent (no read-back)"@),
        note,
    ]);
    assert(refused.events =~= seq![failure_event("set mode failed"@, e), note]);
}

// ---------------------------------------------------------------------------
// requests and replies
// ---------------------------------------------------------------------------

/// Whether a reply is of the kind that a request is answered with.
pub open spec fn answers(request: Request, reply: Reply) -> bool {
    match request {
        Request::FindNode => reply is Node,
        Request::OpenNode { .. } | Request::GrantAccess { .. } => reply is Done,
        Request::WriteBlock { .. } => reply is Done,
        Request::SetMode { .. } | Request::SetDebounce { .. } => reply is Done,
        Request::ReadPsd => reply is Psd,
        Request::ReadMode => reply is Mode,
        Request::ReadStatus => reply is Status,
        Request::ReadBlock { .. } => reply is Block,
        Request::ReadReport { .. } => reply is Report,
        Request::SaveFile { .. } => reply is Saved,
        Request::LoadFile { .. } => reply is Loaded,
        Request::Pause { .. } => reply is Paused,
        Request::Finished { .. } => false,
    }
}

/// Whether a step leaves the session waiting for replies to its request alone.
pub open spec fn waits(m: Moved, later: Reply) -> bool {
    crate::session::expects(m.session.stage, later) <==> answers(m.request, later)
}

proof fn lemma_a_job_waits(s: Session, ev: Seq<EventView>, job: crate::session::Job, later: Reply)
    ensures
        waits(crate::session::job_started(s, ev, job), later),
{
}

proof fn lemma_an_accepted_write_waits(
    s: Session,
    ev: Seq<EventView>,
    purpose: Purpose,
    later: Reply,
)
    ensures
        waits(crate::session::accepted(s, ev, purpose), later),
{
}

proof fn lemma_a_read_profile_waits(
    s: Session,
    reader: Reader,
    got: [u8; BLOCK_LEN],
    e: Error,
    later: Reply,
)
    ensures
        waits(crate::session::profile_read(s, reader, got), later),
        waits(crate::session::profile_not_read(s, reader, e), later),
{
    if let Reader::ReadBack { block, purpose } = reader {
        let ev = seq![crate::session::not_busy()].push(
            EventView::Block { block: got@, generation: s.generation, verified: got@ == block@ },
        );
        lemma_an_accepted_write_waits(
            Session { last_block: Some(got), ..s },
            ev,
            purpose,
            later,
        );
    }
}

proof fn lemma_connecting_waits(s: Session, reply: Reply, later: Reply)
    requires
        crate::session::expects(s.stage, reply),
        s.stage is Finding || s.stage is Opening || s.stage is Granting || s.stage is Reopening
            || s.stage is Identifying || s.stage is AskingMode || s.stage is ProbingPrimary
            || s.stage is ProbingOther,
    ensures
        waits(crate::session::advanced(s, reply), later),
{
    match (s.stage, reply) {
        (Stage::ProbingPrimary { found, psd, mode }, Reply::Block(Ok(block))) => {
            lemma_a_link_waits(
                s,
                found,
                psd,
                mode,
                crate::session::primary_bank(found.pid),
                Some(block),
                later,
            );
        },
        (Stage::ProbingOther { found, psd, mode }, Reply::Block(Ok(block))) => {
            lemma_a_link_waits(
                s,
                found,
                psd,
                mode,
                crate::session::other_bank(crate::session::primary_bank(found.pid)),
                Some(block),
                later,
            );
        },
        (Stage::ProbingOther { found, psd, mode }, Reply::Block(Err(_))) => {
            lemma_a_link_waits(
                s,
                found,
                psd,
                mode,
                crate::session::primary_bank(found.pid),
                None,
                later,
            );
        },
        _ => {},
    }
}

proof fn lemma_a_link_waits(
    s: Session,
    found: crate::session::Found,
    psd: [u8; 4],
    mode: u8,
    bank: u8,
    probe: Option<[u8; BLOCK_LEN]>,
    later: Reply,
)
    ensures
        waits(crate::session::connected(s, found, psd, mode, bank, probe), later),
{
    lemma_a_job_waits(
        linked(s, found.path, found.pid, psd, bank, probe),
        crate::session::connected(s, found, psd, mode, bank, probe).events,
        found.job,
        later,
    );
}

proof fn lemma_reading_waits(s: Session, reply: Reply, later: Reply)
    requires
        crate::session::expects(s.stage, reply),
        s.stage is Polling || s.stage is Refreshing || s.stage is ReloadingPsd || s.stage
            is ReloadingMode || s.stage is ReloadingStatus || s.stage is Reading || s.stage
            is ReadingOther,
    ensures
        waits(crate::session::advanced(s, reply), later),
{
    let sure = Session { bank_confirmed: true, ..s };
    match (s.stage, reply) {
        (Stage::Reading { reader }, Reply::Block(Ok(block))) => {
            lemma_a_read_profile_waits(sure, reader, block, Error::NoDevice, later);
        },
        (Stage::Reading { reader }, Reply::Block(Err(e))) => {
            lemma_a_read_profile_waits(s, reader, crate::settings::block_of(Seq::empty()), e, later);
        },
        (Stage::ReadingOther { reader, first }, Reply::Block(Ok(block))) => {
            lemma_a_read_profile_waits(
                Session { bank: crate::session::other_bank(s.bank), ..sure },
                reader,
                block,
                first,
                later,
            );
        },
        (Stage::ReadingOther { reader, first }, Reply::Block(Err(_))) => {
            lemma_a_read_profile_waits(
                s,
                reader,
                crate::settings::block_of(Seq::empty()),
                first,
                later,
            );
        },
        _ => {},
    }
}

proof fn lemma_writing_waits(s: Session, reply: Reply, later: Reply)
    requires
        crate::session::expects(s.stage, reply),
        s.stage is Writing || s.stage is SwitchingAway || s.stage is Settling || s.stage
            is SwitchingBack || s.stage is SettingMode || s.stage is CheckingMode || s.stage
            is SettingDebounce,
    ensures
        waits(crate::session::advanced(s, reply), later),
{
}

proof fn lemma_filing_waits(s: Session, reply: Reply, later: Reply)
    requires
        crate::session::expects(s.stage, reply),
        s.stage is BackupReading || s.stage is BackupSaving || s.stage is RestoreLoading
            || s.stage is ResetReading || s.stage is ResetSaving,
    ensures
        waits(crate::session::advanced(s, reply), later),
{
}

/// After every step a session waits for a reply to what it has just asked for, and
/// for no other.
pub proof fn law_a_session_waits_for_its_reply(s: Session, reply: Reply, later: Reply)
    requires
        crate::session::expects(s.stage, reply),
    ensures
        crate::session::expects(crate::session::advanced(s, reply).session.stage, later)
            <==> answers(crate::session::advanced(s, reply).request, later),
{
    if s.stage is Polling || s.stage is Refreshing || s.stage is ReloadingPsd || s.stage
        is ReloadingMode || s.stage is ReloadingStatus || s.stage is Reading || s.stage
        is ReadingOther {
        lemma_reading_waits(s, reply, later);
    } else if s.stage is Writing || s.stage is SwitchingAway || s.stage is Settling || s.stage
        is SwitchingBack || s.stage is SettingMode || s.stage is CheckingMode || s.stage
        is SettingDebounce {
        lemma_writing_waits(s, reply, later);
    } else if s.stage is BackupReading || s.stage is BackupSaving || s.stage is RestoreLoading
        || s.stage is ResetReading || s.stage is ResetSaving {
        lemma_filing_waits(s, reply, later);
    } else {
        lemma_connecting_waits(s, reply, later);
    }
}

/// The same holds of a command and of the poll.
pub proof fn law_a_command_waits_for_its_reply(s: Session, command: Option<Command>, later: Reply)
    requires
        s.stage is Idle,
    ensures
        crate::session::expects(started(s, command).session.stage, later) <==> answers(
            started(s, command).request,
            later,
        ),
{
}

/// What a session tells whoever owns the node: to keep it open while there is a link
/// and while a node that was opened is asked who it is, and whether a reply is due.
pub proof fn law_the_node_is_kept_while_it_is_needed(
    s: Session,
    reply: Reply,
    open: bool,
    due: bool,
)
    requires
        call_ensures(Session::keeps_node_open, (&s,), open),
        call_ensures(Session::expects, (&s, &reply), due),
    ensures
        s.link is Some ==> open,
        s.link is None && open ==> due == match s.stage {
            Stage::Identifying { .. } => reply is Psd,
            Stage::AskingMode { .. } => reply is Mode,
            _ => reply is Block,
        },
        s.stage is Identifying || s.stage is AskingMode || s.stage is ProbingPrimary || s.stage
            is ProbingOther ==> open,
        s.link is None && (s.stage is Idle || s.stage is Finding || s.stage is Opening || s.stage
            is Granting || s.stage is Reopening) ==> !open,
        s.stage is Idle ==> !due,
        due == crate::session::expects(s.stage, reply),
{
}

/// A session starts without a link, on bank 2 unconfirmed, with nothing known and
/// access not yet asked for.
pub proof fn law_a_session_starts_unconnected(s: Session)
    requires
        call_ensures(<Session as Default>::default, (), s),
    ensures
        s.link is None,
        s.stage is Idle,
        s.bank == 2,
        !s.bank_confirmed,
        !s.access_requested,
        s.generation == 0,
        s.last_percent is None,
        s.last_block is None,
        s.psd@[0] == 0 && s.psd@[1] == 0 && s.psd@[2] == 0 && s.psd@[3] == 0,
{
}

} // verus!
