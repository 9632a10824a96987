use igm5000::protocol::{data_frame, Error, OsError, Status, DATA_LEN};
use igm5000::session::{Reply, Request, Session, Stage, Turn};
use igm5000::settings::{SettingsBlock, BLOCK_LEN, COMMIT_MARKER, COMMIT_OFFSET};
use igm5000::worker::{
    after_step, charge_to_show, commit, needs_refresh, other_level_block, restored_block,
    same_block, Command, Event, POLL_INTERVAL_SECS,
};

fn status(state: u8, percent: u8) -> Status {
    Status { state, percent }
}

fn factory() -> [u8; BLOCK_LEN] {
    *SettingsBlock::factory(&SettingsBlock::new([0; BLOCK_LEN])).raw()
}

fn marked(block: [u8; BLOCK_LEN]) -> [u8; BLOCK_LEN] {
    commit(block)
}

fn os_error() -> Error {
    Error::Io(OsError {
        code: Some(5),
        text: "gone".to_string(),
    })
}

fn busy(label: &str) -> Event {
    Event::Busy {
        busy: true,
        label: label.to_string(),
    }
}

fn not_busy() -> Event {
    Event::Busy {
        busy: false,
        label: String::new(),
    }
}

fn block_event(block: [u8; BLOCK_LEN], generation: u64, verified: bool) -> Event {
    Event::Block {
        block,
        generation,
        verified,
    }
}

fn finished() -> Request {
    Request::Finished { running: true }
}

/// Answers the requests of a command in turn; gives all events and requests.
fn play(session: &mut Session, first: Turn, replies: Vec<Reply>) -> (Vec<Event>, Vec<Request>) {
    let mut events = first.events;
    let mut requests = vec![first.request];
    for reply in replies {
        assert!(session.expects(&reply), "after {:?}", requests.last());
        let turn = session.step(reply);
        events.extend(turn.events);
        requests.push(turn.request);
    }
    (events, requests)
}

fn connecting(pid: u16, probe: [u8; BLOCK_LEN]) -> Vec<Reply> {
    vec![
        Reply::Node(Ok(("/dev/hidraw3".to_string(), pid))),
        Reply::Done(Ok(())),
        Reply::Psd(Ok(*b"psd1")),
        Reply::Mode(Ok(2)),
        Reply::Block(Ok(probe)),
    ]
}

/// A session that is connected and idle.
fn connected(probe: [u8; BLOCK_LEN]) -> Session {
    let mut session = Session::default();
    let first = session.handle(Command::SetDebounce(1));
    let mut replies = connecting(0x002f, probe);
    replies.push(Reply::Done(Ok(())));
    let (_, requests) = play(&mut session, first, replies);
    assert_eq!(requests.last(), Some(&finished()));
    assert!(session.keeps_node_open());
    session
}

#[test]
fn the_charge_shown_while_charging_is_the_last_battery_reading() {
    // Measured on the device: 2 for ten minutes while charging, then 92 the
    // moment it was unplugged - so the charging value is not a charge.
    assert_eq!(charge_to_show(None, status(0x10, 2)), None);
    assert_eq!(charge_to_show(Some(92), status(0x10, 2)), Some(92));

    // On battery the device's own reading is the charge.
    assert_eq!(charge_to_show(None, status(0x11, 92)), Some(92));
    assert_eq!(charge_to_show(Some(92), status(0x11, 46)), Some(46));
}

#[test]
fn a_new_session_knows_nothing() {
    let session = Session::default();
    assert!(session.link.is_none());
    assert_eq!(session.psd, [0; 4]);
    assert_eq!(session.bank, 2);
    assert!(!session.bank_confirmed && !session.access_requested);
    assert_eq!(session.generation, 0);
    assert!(session.last_percent.is_none() && session.last_block.is_none());
    assert!(matches!(session.stage, Stage::Idle));
    assert!(!session.keeps_node_open());
    assert_eq!(POLL_INTERVAL_SECS, 5);
}

#[test]
fn connecting_hands_the_block_over() {
    let mut session = Session::default();
    let first = session.poll();
    let mut replies = connecting(0x002e, factory());
    replies.push(Reply::Status(Ok(status(0x11, 80))));
    replies.push(Reply::Block(Ok(factory())));
    let (events, requests) = play(&mut session, first, replies);
    assert_eq!(
        events,
        [
            Event::Connected {
                path: "/dev/hidraw3".to_string(),
                pid: 0x002e,
                psd: *b"psd1",
                mode: 2,
                bank: 1,
            },
            Event::Mode(2),
            block_event(factory(), 0, true),
            Event::Status {
                charging: false,
                percent: Some(80)
            },
        ]
    );
    assert_eq!(
        requests,
        [
            Request::FindNode,
            Request::OpenNode {
                path: "/dev/hidraw3".to_string()
            },
            Request::ReadPsd,
            Request::ReadMode,
            Request::ReadBlock { bank: 1 },
            Request::ReadStatus,
            Request::ReadBlock { bank: 1 },
            finished(),
        ]
    );
}

#[test]
fn the_other_bank_is_tried_when_the_first_one_stalls() {
    let mut session = Session::default();
    let first = session.handle(Command::SetMode(1));
    let mut replies = connecting(0x002f, factory());
    replies.pop();
    replies.push(Reply::Block(Err(Error::IoStall)));
    replies.push(Reply::Block(Ok(factory())));
    let (events, requests) = play(&mut session, first, replies);
    assert_eq!(requests[4], Request::ReadBlock { bank: 2 });
    assert_eq!(requests[5], Request::ReadBlock { bank: 1 });
    assert_eq!(requests[6], Request::SetMode { mode: 1 });
    assert!(matches!(events[0], Event::Connected { bank: 1, .. }));
    assert!(session.bank_confirmed);
}

#[test]
fn an_unconfirmed_bank_is_given_up_for_the_other_one() {
    let mut session = Session::default();
    let first = session.handle(Command::Refresh);
    let mut replies = connecting(0x002f, factory());
    replies.pop();
    replies.push(Reply::Block(Err(Error::IoStall)));
    replies.push(Reply::Block(Err(Error::Timeout)));
    replies.push(Reply::Status(Ok(status(0x10, 2))));
    replies.push(Reply::Block(Err(Error::IoStall)));
    replies.push(Reply::Block(Ok(factory())));
    let (events, requests) = play(&mut session, first, replies);
    assert!(matches!(events[0], Event::Connected { bank: 2, .. }));
    assert_eq!(
        requests[requests.len() - 3..],
        [
            Request::ReadBlock { bank: 2 },
            Request::ReadBlock { bank: 1 },
            finished()
        ]
    );
    assert_eq!(session.bank, 1);
    assert!(session.bank_confirmed);
    assert_eq!(events.last(), Some(&block_event(factory(), 0, true)));

    // Once confirmed, a failed read is only reported.
    let first = session.poll();
    let (events, _) = play(
        &mut session,
        first,
        vec![
            Reply::Status(Ok(status(0x10, 2))),
            Reply::Block(Err(Error::IoStall)),
        ],
    );
    assert_eq!(
        events.last(),
        Some(&Event::Error(
            "read settings failed: device stalled".to_string()
        ))
    );
    assert!(session.link.is_some());
}

#[test]
fn a_missing_device_is_announced() {
    let mut session = Session::default();
    let first = session.poll();
    let (events, requests) = play(
        &mut session,
        first,
        vec![Reply::Node(Err(Error::NoDevice))],
    );
    assert_eq!(events, [Event::Disconnected("no device found".to_string())]);
    assert_eq!(requests.last(), Some(&finished()));
    assert!(!session.keeps_node_open());
}

#[test]
fn polkit_is_asked_once() {
    let mut session = Session::default();
    let first = session.poll();
    let (events, requests) = play(
        &mut session,
        first,
        vec![
            Reply::Node(Ok(("/dev/hidraw3".to_string(), 0x2f))),
            Reply::Done(Err(Error::PermissionDenied)),
            Reply::Done(Err(Error::Escalation("no".to_string()))),
        ],
    );
    assert_eq!(
        requests[2],
        Request::GrantAccess {
            path: "/dev/hidraw3".to_string()
        }
    );
    assert_eq!(
        events,
        [Event::Disconnected("could not get access: no".to_string())]
    );

    let first = session.poll();
    let (events, requests) = play(
        &mut session,
        first,
        vec![
            Reply::Node(Ok(("/dev/hidraw3".to_string(), 0x2f))),
            Reply::Done(Err(Error::PermissionDenied)),
        ],
    );
    assert_eq!(requests.last(), Some(&finished()));
    assert_eq!(
        events,
        [Event::Disconnected(
            "permission denied on hidraw node".to_string()
        )]
    );
}

#[test]
fn a_granted_node_is_opened_again() {
    let mut session = Session::default();
    let first = session.poll();
    let (_, requests) = play(
        &mut session,
        first,
        vec![
            Reply::Node(Ok(("/dev/hidraw3".to_string(), 0x2f))),
            Reply::Done(Err(Error::PermissionDenied)),
            Reply::Done(Ok(())),
            Reply::Done(Ok(())),
        ],
    );
    assert_eq!(
        requests[3],
        Request::OpenNode {
            path: "/dev/hidraw3".to_string()
        }
    );
    assert_eq!(requests[4], Request::ReadPsd);
    assert!(session.keeps_node_open());

    // A node that does not answer is closed again.
    let turn = session.step(Reply::Psd(Err(Error::Timeout)));
    assert_eq!(
        turn.events,
        [Event::Disconnected("device did not answer".to_string())]
    );
    assert!(!session.keeps_node_open());
}

#[test]
fn a_poll_publishes_the_block_only_when_it_changed() {
    let mut session = connected(factory());
    let first = session.poll();
    let (events, _) = play(
        &mut session,
        first,
        vec![
            Reply::Status(Ok(status(0x11, 70))),
            Reply::Block(Ok(factory())),
        ],
    );
    assert_eq!(events.len(), 1);

    let mut changed = factory();
    changed[3] = 0x36;
    let first = session.poll();
    let (events, _) = play(
        &mut session,
        first,
        vec![
            Reply::Status(Ok(status(0x10, 2))),
            Reply::Block(Ok(changed)),
        ],
    );
    assert_eq!(
        events,
        [
            Event::Status {
                charging: true,
                percent: Some(70)
            },
            block_event(changed, 0, true),
        ]
    );
}

#[test]
fn a_refresh_leaves_a_loaded_block_to_the_poll() {
    let mut session = connected(factory());
    let mut changed = factory();
    changed[3] = 0x36;
    let first = session.handle(Command::Refresh);
    assert_eq!(first.request, Request::ReadStatus);
    let (events, requests) = play(
        &mut session,
        first,
        vec![Reply::Status(Ok(status(0x11, 64)))],
    );
    assert_eq!(requests, [Request::ReadStatus, finished()]);
    assert_eq!(
        events,
        [Event::Status {
            charging: false,
            percent: Some(64)
        }]
    );
    assert_eq!(session.last_block, Some(factory()));

    // The poll finds what the mouse changed.
    let first = session.poll();
    let (events, _) = play(
        &mut session,
        first,
        vec![
            Reply::Status(Ok(status(0x11, 64))),
            Reply::Block(Ok(changed)),
        ],
    );
    assert_eq!(events.last(), Some(&block_event(changed, 0, true)));

    let first = session.handle(Command::Refresh);
    let (events, _) = play(
        &mut session,
        first,
        vec![Reply::Status(Err(Error::IoStall))],
    );
    assert_eq!(
        events,
        [Event::Error(
            "battery read failed: device stalled".to_string()
        )]
    );
}

#[test]
fn a_fatal_error_closes_the_node_and_a_transient_one_does_not() {
    let mut session = connected(factory());
    let first = session.poll();
    let (events, _) = play(
        &mut session,
        first,
        vec![Reply::Status(Err(Error::Timeout))],
    );
    assert_eq!(
        events,
        [Event::Error(
            "battery read failed: device did not answer".to_string()
        )]
    );
    assert!(session.link.is_some());

    let first = session.poll();
    let (events, _) = play(&mut session, first, vec![Reply::Status(Err(os_error()))]);
    assert_eq!(events, [Event::Disconnected("i/o error: gone".to_string())]);
    assert!(session.link.is_none());
    assert!(!session.keeps_node_open());
}

#[test]
fn a_reload_reads_everything_again() {
    let mut session = connected(factory());
    let first = session.handle(Command::Reload);
    let (events, requests) = play(
        &mut session,
        first,
        vec![
            Reply::Psd(Ok(*b"next")),
            Reply::Mode(Ok(3)),
            Reply::Status(Ok(status(0x11, 55))),
            Reply::Block(Ok(factory())),
        ],
    );
    assert_eq!(
        requests,
        [
            Request::ReadPsd,
            Request::ReadMode,
            Request::ReadStatus,
            Request::ReadBlock { bank: 2 },
            finished()
        ]
    );
    assert_eq!(
        events,
        [
            Event::Mode(3),
            Event::Status {
                charging: false,
                percent: Some(55)
            },
            block_event(factory(), 0, true),
        ]
    );
    assert_eq!(session.psd, *b"next");

    // What cannot be read is left out.
    let first = session.handle(Command::Reload);
    let (events, _) = play(
        &mut session,
        first,
        vec![
            Reply::Psd(Err(Error::IoStall)),
            Reply::Mode(Err(Error::IoStall)),
            Reply::Status(Err(Error::IoStall)),
            Reply::Block(Err(Error::IoStall)),
        ],
    );
    assert_eq!(
        events,
        [Event::Error(
            "read settings failed: device stalled".to_string()
        )]
    );
    assert_eq!(session.psd, *b"next");
}

#[test]
fn an_edit_is_written_and_read_back() {
    let mut session = connected(factory());
    let mut edit = factory();
    edit[0x3d] = 5;
    let first = session.handle(Command::ApplyBlock {
        block: edit,
        generation: 7,
    });
    assert_eq!(session.generation, 7);
    let (events, requests) = play(
        &mut session,
        first,
        vec![Reply::Done(Ok(())), Reply::Block(Ok(marked(edit)))],
    );
    assert_eq!(
        requests,
        [
            Request::WriteBlock {
                bank: 2,
                block: marked(edit)
            },
            Request::ReadBlock { bank: 2 },
            finished()
        ]
    );
    assert_eq!(
        events,
        [
            busy("Writing settings"),
            not_busy(),
            block_event(marked(edit), 7, true)
        ]
    );
    assert_eq!(marked(edit)[COMMIT_OFFSET], COMMIT_MARKER);
}

#[test]
fn a_block_that_comes_back_different_is_not_verified() {
    let mut session = connected(factory());
    let mut edit = factory();
    edit[0x3d] = 5;
    let first = session.handle(Command::ApplyBlock {
        block: edit,
        generation: 1,
    });
    let (events, requests) = play(
        &mut session,
        first,
        vec![Reply::Done(Ok(())), Reply::Block(Ok(factory()))],
    );
    assert_eq!(events.last(), Some(&block_event(factory(), 1, false)));
    assert_eq!(requests.last(), Some(&finished()));
}

#[test]
fn a_failed_write_is_reported() {
    let mut session = connected(factory());
    let first = session.handle(Command::ApplyBlock {
        block: factory(),
        generation: 1,
    });
    let (events, _) = play(
        &mut session,
        first,
        vec![Reply::Done(Err(Error::IoStall))],
    );
    assert_eq!(
        events,
        [
            busy("Writing settings"),
            not_busy(),
            Event::Error("write settings failed: device stalled".to_string())
        ]
    );
    assert_eq!(session.generation, 1);
}

#[test]
fn a_generation_is_adopted_even_when_nothing_is_connected() {
    let mut session = Session::default();
    let first = session.handle(Command::ApplyBlock {
        block: factory(),
        generation: 12,
    });
    let (events, _) = play(
        &mut session,
        first,
        vec![Reply::Node(Err(Error::NoDevice))],
    );
    assert_eq!(events, [Event::Disconnected("no device found".to_string())]);
    assert_eq!(session.generation, 12);
}

#[test]
fn a_changed_active_level_is_selected_again() {
    let mut session = connected(factory());
    let mut block = SettingsBlock::new(factory());
    block.set_dpi_code(1, 20);
    let edit = marked(*block.raw());
    let mut away = edit;
    away[3] = 0x16;
    let first = session.handle(Command::ApplyBlock {
        block: edit,
        generation: 1,
    });
    let (_, requests) = play(
        &mut session,
        first,
        vec![
            Reply::Done(Ok(())),
            Reply::Block(Ok(edit)),
            Reply::Done(Ok(())),
            Reply::Paused,
            Reply::Done(Ok(())),
        ],
    );
    assert_eq!(
        requests[2..],
        [
            Request::WriteBlock {
                bank: 2,
                block: away
            },
            Request::Pause { millis: 60 },
            Request::WriteBlock {
                bank: 2,
                block: edit
            },
            finished()
        ]
    );
}

#[test]
fn a_mouse_that_stays_switched_away_is_reported() {
    let mut session = connected(factory());
    let mut block = SettingsBlock::new(factory());
    block.set_color(1, [1, 2, 3]);
    let edit = marked(*block.raw());
    let first = session.handle(Command::ApplyBlock {
        block: edit,
        generation: 1,
    });
    let (events, _) = play(
        &mut session,
        first,
        vec![
            Reply::Done(Ok(())),
            Reply::Block(Ok(edit)),
            Reply::Done(Ok(())),
            Reply::Paused,
            Reply::Done(Err(Error::IoStall)),
        ],
    );
    assert_eq!(
        events.last(),
        Some(&Event::Error(
            "the mouse did not take the active level back; press its DPI button to re-select it"
                .to_string()
        ))
    );

    // A switch that did not happen needs no way back.
    let mut block = SettingsBlock::new(edit);
    block.set_color(1, [4, 5, 6]);
    let edit = *block.raw();
    let first = session.handle(Command::ApplyBlock {
        block: edit,
        generation: 2,
    });
    let (events, requests) = play(
        &mut session,
        first,
        vec![
            Reply::Done(Ok(())),
            Reply::Block(Ok(edit)),
            Reply::Done(Err(Error::IoStall)),
        ],
    );
    assert_eq!(events.last(), Some(&block_event(edit, 2, true)));
    assert_eq!(requests.last(), Some(&finished()));
}

#[test]
fn the_mode_is_read_back() {
    let mut session = connected(factory());
    let first = session.handle(Command::SetMode(3));
    let (events, requests) = play(
        &mut session,
        first,
        vec![Reply::Done(Ok(())), Reply::Mode(Ok(3))],
    );
    assert_eq!(
        requests,
        [Request::SetMode { mode: 3 }, Request::ReadMode, finished()]
    );
    assert_eq!(events, [Event::Mode(3)]);

    let first = session.handle(Command::SetMode(1));
    let (events, _) = play(
        &mut session,
        first,
        vec![Reply::Done(Ok(())), Reply::Mode(Err(Error::Timeout))],
    );
    assert_eq!(
        events,
        [Event::Note("Mode 1 sent (no read-back)".to_string())]
    );

    let first = session.handle(Command::SetMode(1));
    let (events, _) = play(
        &mut session,
        first,
        vec![Reply::Done(Err(Error::Timeout))],
    );
    assert_eq!(
        events,
        [Event::Error(
            "set mode failed: device did not answer".to_string()
        )]
    );
}

#[test]
fn the_debounce_register_is_written_only() {
    let mut session = connected(factory());
    let first = session.handle(Command::SetDebounce(12));
    let (events, requests) = play(&mut session, first, vec![Reply::Done(Ok(()))]);
    assert_eq!(requests, [Request::SetDebounce { value: 12 }, finished()]);
    assert_eq!(
        events,
        [Event::Note(
            "Debounce register set to 12 (write-only, not in a backup)".to_string()
        )]
    );
    let first = session.handle(Command::SetDebounce(12));
    let (events, _) = play(
        &mut session,
        first,
        vec![Reply::Done(Err(Error::IoStall))],
    );
    assert_eq!(
        events,
        [Event::Error("set debounce failed: device stalled".to_string())]
    );
}

#[test]
fn a_backup_saves_the_report() {
    let mut session = connected(factory());
    let data = data_frame(2, &factory());
    let first = session.handle(Command::Backup {
        path: "/tmp/b".to_string(),
    });
    let (events, requests) = play(
        &mut session,
        first,
        vec![Reply::Report(Ok(data)), Reply::Saved(Ok(()))],
    );
    assert_eq!(
        requests,
        [
            Request::ReadReport { bank: 2 },
            Request::SaveFile {
                path: "/tmp/b".to_string(),
                data
            },
            finished()
        ]
    );
    assert_eq!(
        events,
        [
            busy("Reading backup"),
            not_busy(),
            Event::Note("Backup of bank 2 written to /tmp/b".to_string())
        ]
    );

    let first = session.handle(Command::Backup {
        path: "/tmp/b".to_string(),
    });
    let (events, _) = play(
        &mut session,
        first,
        vec![
            Reply::Report(Ok(data)),
            Reply::Saved(Err("disk full".to_string())),
        ],
    );
    assert_eq!(
        events[1..],
        [
            not_busy(),
            Event::Error("backup failed: disk full".to_string())
        ]
    );

    let first = session.handle(Command::Backup {
        path: "/tmp/b".to_string(),
    });
    let (events, _) = play(&mut session, first, vec![Reply::Report(Err(os_error()))]);
    assert_eq!(
        events[1..],
        [
            not_busy(),
            Event::Disconnected("i/o error: gone".to_string())
        ]
    );
}

fn restore(data: Vec<u8>, more: Vec<Reply>) -> (Vec<Event>, Vec<Request>) {
    let mut session = connected(factory());
    let first = session.handle(Command::Restore {
        path: "f".to_string(),
    });
    assert_eq!(
        first.request,
        Request::LoadFile {
            path: "f".to_string()
        }
    );
    let mut replies = vec![Reply::Loaded(Ok(data))];
    replies.extend(more);
    play(&mut session, first, replies)
}

#[test]
fn a_saved_report_is_restored() {
    let mut block = factory();
    block[7] = 200;
    block[8] = 1;
    let mut expected = factory();
    expected[7] = 59;
    expected[8] = 0;
    let expected = marked(expected);
    let data = data_frame(2, &block).to_vec();
    let (events, requests) = restore(
        data.clone(),
        vec![
            Reply::Done(Ok(())),
            Reply::Block(Ok(expected)),
            Reply::Done(Ok(())),
            Reply::Paused,
            Reply::Done(Ok(())),
        ],
    );
    assert_eq!(
        requests[1],
        Request::WriteBlock {
            bank: 2,
            block: expected
        }
    );
    assert_eq!(
        events.last(),
        Some(&Event::Note("Settings restored from f".to_string()))
    );

    let (events, _) = restore(data, vec![Reply::Done(Err(Error::Timeout))]);
    assert_eq!(
        events[1..],
        [
            not_busy(),
            Event::Error("write settings failed: device did not answer".to_string()),
            Event::Error("restore of f failed".to_string())
        ]
    );
}

#[test]
fn other_files_are_not_restored() {
    let (events, requests) = restore(vec![8; 519], vec![]);
    assert_eq!(
        events,
        [Event::Error(
            "restore failed: f is 519 bytes, not a 520-byte data report".to_string()
        )]
    );
    assert_eq!(requests.last(), Some(&finished()));

    let mut data = data_frame(2, &factory()).to_vec();
    data[0] = 5;
    let (events, _) = restore(data, vec![]);
    assert_eq!(
        events,
        [Event::Error(
            "restore failed: f does not start with data report 0x08".to_string()
        )]
    );

    for (nibbles, levels, active) in [(0x10, 0, 1), (0x19, 9, 1), (0x06, 6, 0), (0x76, 6, 7)] {
        let mut data = data_frame(2, &factory()).to_vec();
        data[8 + 3] = nibbles;
        let (events, _) = restore(data, vec![]);
        assert_eq!(
            events,
            [Event::Error(format!(
                "restore failed: f describes {levels} levels with level {active} active"
            ))]
        );
    }

    let mut session = connected(factory());
    let first = session.handle(Command::Restore {
        path: "f".to_string(),
    });
    let (events, _) = play(
        &mut session,
        first,
        vec![Reply::Loaded(Err("no such file".to_string()))],
    );
    assert_eq!(
        events,
        [Event::Error("restore failed: no such file".to_string())]
    );
}

#[test]
fn a_reset_saves_the_state_before_it_writes() {
    let mut current = factory();
    current[0] = 0x33;
    current[0x3d] = 4;
    let mut session = connected(current);
    session.generation = 4;
    let data = data_frame(2, &current);
    let mut expected = factory();
    expected[0] = 0x33;
    let expected = marked(expected);
    let first = session.handle(Command::FactoryReset {
        backup_path: "old".to_string(),
    });
    let (events, requests) = play(
        &mut session,
        first,
        vec![
            Reply::Report(Ok(data)),
            Reply::Saved(Ok(())),
            Reply::Block(Ok(current)),
            Reply::Done(Ok(())),
            Reply::Block(Ok(expected)),
            Reply::Done(Ok(())),
            Reply::Mode(Ok(2)),
        ],
    );
    assert_eq!(
        requests,
        [
            Request::ReadReport { bank: 2 },
            Request::SaveFile {
                path: "old".to_string(),
                data
            },
            Request::ReadBlock { bank: 2 },
            Request::WriteBlock {
                bank: 2,
                block: expected
            },
            Request::ReadBlock { bank: 2 },
            Request::SetMode { mode: 2 },
            Request::ReadMode,
            finished()
        ]
    );
    assert_eq!(
        events,
        [
            busy("Restoring factory defaults"),
            busy("Writing settings"),
            not_busy(),
            block_event(expected, 5, true),
            Event::Mode(2),
            Event::Note(
                "Factory defaults written (previous settings saved to old)".to_string()
            ),
        ]
    );
    assert_eq!(session.generation, 5);
}

#[test]
fn a_reset_that_cannot_be_undone_is_cancelled() {
    let command = || Command::FactoryReset {
        backup_path: "old".to_string(),
    };
    let mut session = connected(factory());
    let first = session.handle(command());
    let (events, requests) = play(
        &mut session,
        first,
        vec![
            Reply::Report(Ok([0; DATA_LEN])),
            Reply::Saved(Err("read-only".to_string())),
        ],
    );
    assert_eq!(
        events[1..],
        [
            not_busy(),
            Event::Error(
                "factory reset cancelled, could not save old: read-only".to_string()
            )
        ]
    );
    assert_eq!(requests.last(), Some(&finished()));

    let first = session.handle(command());
    let (events, _) = play(
        &mut session,
        first,
        vec![Reply::Report(Err(Error::IoStall))],
    );
    assert_eq!(
        events[1..],
        [
            not_busy(),
            Event::Error("factory reset cancelled, read failed: device stalled".to_string())
        ]
    );

    let first = session.handle(command());
    let (events, _) = play(
        &mut session,
        first,
        vec![
            Reply::Report(Ok([0; DATA_LEN])),
            Reply::Saved(Ok(())),
            Reply::Block(Err(Error::IoStall)),
        ],
    );
    assert_eq!(
        events[1..],
        [
            not_busy(),
            Event::Error("factory reset cancelled, read failed: device stalled".to_string())
        ]
    );
}

/// A session that is connected and idle, with a bank that no read confirmed.
fn unconfirmed() -> Session {
    let mut session = Session::default();
    let first = session.handle(Command::SetDebounce(1));
    let mut replies = connecting(0x002f, factory());
    replies.pop();
    replies.push(Reply::Block(Err(Error::IoStall)));
    replies.push(Reply::Block(Err(Error::IoStall)));
    replies.push(Reply::Done(Ok(())));
    play(&mut session, first, replies);
    assert!(session.link.is_some() && !session.bank_confirmed);
    session
}

#[test]
fn a_reset_writes_only_the_bank_that_was_saved() {
    let mut session = unconfirmed();
    let first = session.handle(Command::FactoryReset {
        backup_path: "old".to_string(),
    });
    let data = data_frame(2, &factory());
    let (events, requests) = play(
        &mut session,
        first,
        vec![
            Reply::Report(Ok(data)),
            Reply::Saved(Ok(())),
            Reply::Block(Err(Error::IoStall)),
        ],
    );
    assert_eq!(
        requests,
        [
            Request::ReadReport { bank: 2 },
            Request::SaveFile {
                path: "old".to_string(),
                data
            },
            Request::ReadBlock { bank: 2 },
            finished()
        ]
    );
    assert_eq!(
        events[1..],
        [
            not_busy(),
            Event::Error("factory reset cancelled, read failed: device stalled".to_string())
        ]
    );
    assert_eq!(session.bank, 2);
    assert!(session.bank_confirmed);
}

#[test]
fn a_report_confirms_the_bank() {
    let mut session = unconfirmed();
    let first = session.handle(Command::Backup {
        path: "b".to_string(),
    });
    play(
        &mut session,
        first,
        vec![
            Reply::Report(Ok(data_frame(2, &factory()))),
            Reply::Saved(Ok(())),
        ],
    );
    assert!(session.bank_confirmed);
    assert_eq!(session.bank, 2);
}

#[test]
fn a_reset_that_is_refused_is_no_success() {
    let mut session = connected(factory());
    let first = session.handle(Command::FactoryReset {
        backup_path: "old".to_string(),
    });
    let (events, requests) = play(
        &mut session,
        first,
        vec![
            Reply::Report(Ok([0; DATA_LEN])),
            Reply::Saved(Ok(())),
            Reply::Block(Ok(factory())),
            Reply::Done(Ok(())),
            Reply::Block(Ok([0; BLOCK_LEN])),
        ],
    );
    assert_eq!(
        events.last(),
        Some(&Event::Error(
            "factory defaults were not accepted by the device".to_string()
        ))
    );
    assert_eq!(requests.last(), Some(&finished()));
}

#[test]
fn shutdown_stops_the_thread() {
    let mut session = connected(factory());
    let turn = session.handle(Command::Shutdown);
    assert!(turn.events.is_empty());
    assert_eq!(turn.request, Request::Finished { running: false });
}

#[test]
fn only_the_reply_that_was_asked_for_is_expected() {
    let mut session = Session::default();
    assert!(!session.expects(&Reply::Paused));
    session.poll();
    assert!(session.expects(&Reply::Node(Err(Error::NoDevice))));
    assert!(!session.expects(&Reply::Done(Ok(()))));
    assert!(!session.expects(&Reply::Status(Err(Error::Timeout))));
}

#[test]
fn a_panic_is_reported_and_stops_the_thread() {
    assert_eq!(after_step(Some(true)), (vec![], true));
    assert_eq!(after_step(Some(false)), (vec![], false));
    assert_eq!(
        after_step(None),
        (
            vec![Event::Error(
                "internal error in the device thread; restart the app".to_string()
            )],
            false
        )
    );
}

#[test]
fn the_active_level_decides_about_a_refresh() {
    let before = SettingsBlock::new(factory());
    let mut after = SettingsBlock::new(factory());
    assert!(!needs_refresh(&before, &after));
    after.set_color(0, [1, 1, 1]);
    assert!(!needs_refresh(&before, &after));
    after.set_color(1, [1, 1, 1]);
    assert!(needs_refresh(&before, &after));
    let mut after = SettingsBlock::new(factory());
    after.set_dpi_code(1, 9);
    assert!(needs_refresh(&before, &after));
}

#[test]
fn the_intermediate_level_is_another_one() {
    let mut block = factory();
    assert_eq!(other_level_block(&block).unwrap()[3], 0x16);
    block[3] = 0x13;
    assert_eq!(other_level_block(&block).unwrap()[3], 0x23);
    block[3] = 0x03;
    assert_eq!(other_level_block(&block).unwrap()[3], 0x23);
    block[3] = 0x11;
    assert!(other_level_block(&block).is_none());
    assert!(same_block(&block, &block));
    assert!(!same_block(&block, &factory()));
}

#[test]
fn codes_of_the_table_are_restored_as_they_are() {
    let data = data_frame(2, &factory()).to_vec();
    assert_eq!(restored_block("f", &data), Ok(factory()));
}
