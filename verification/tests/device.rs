use igm5000::device::{
    device_info_text, hex_of, level_ok, parse_hex, Device, Effect, WORKER_DRAIN_SECS,
};
use igm5000::settings::{SettingsBlock, BLOCK_LEN, DPI_STEPS};
use igm5000::worker::{Command, Event};

fn factory() -> [u8; BLOCK_LEN] {
    *SettingsBlock::factory(&SettingsBlock::new([0; BLOCK_LEN])).raw()
}

fn block_event(block: [u8; BLOCK_LEN], generation: u64, verified: bool) -> Event {
    Event::Block {
        block,
        generation,
        verified,
    }
}

/// A device whose thread runs and whose block is loaded.
fn loaded() -> Device {
    let mut device = Device::default();
    device.worker_spawned(Ok(()));
    assert_eq!(
        device.handle_event(block_event(factory(), 0, true)),
        [Effect::BlockChanged]
    );
    device
}

fn written(effects: Vec<Effect>) -> (SettingsBlock, u64) {
    assert_eq!(effects.len(), 1);
    match effects.into_iter().next() {
        Some(Effect::Send(Command::ApplyBlock { block, generation })) => {
            (SettingsBlock::new(block), generation)
        }
        other => panic!("{other:?}"),
    }
}

fn waiting() -> [Effect; 1] {
    [Effect::Notified(
        "Waiting for the device settings to load".to_string(),
    )]
}

#[test]
fn a_new_device_is_blank() {
    let device = Device::default();
    assert!(!device.inner.connected);
    assert_eq!(device.inner.battery, -1);
    assert_eq!(device.inner.status_text, "No device");
    assert_eq!(device.inner.device_info, "");
    assert_eq!(*device.inner.block.raw(), [0; BLOCK_LEN]);
    assert_eq!(device.state_text(), "No device");
    assert_eq!(device.bank(), 0);
    assert_eq!(device.debounce(), 0);
}

#[test]
fn the_thread_is_started_once() {
    let mut device = Device::default();
    assert_eq!(device.start(), [Effect::Spawn]);
    assert_eq!(
        device.worker_spawned(Ok(())),
        [Effect::Send(Command::Reload)]
    );
    assert!(device.start().is_empty());
    assert_eq!(
        device.shutdown(),
        [Effect::Drain {
            seconds: WORKER_DRAIN_SECS
        }]
    );
    assert_eq!(WORKER_DRAIN_SECS, 3);
}

#[test]
fn a_thread_that_cannot_be_started_is_reported() {
    let mut device = Device::default();
    let message = "could not start the device thread: no memory".to_string();
    assert_eq!(
        device.worker_spawned(Err("no memory".to_string())),
        [
            Effect::SetStatusText(message.clone()),
            Effect::ErrorOccurred(message.clone())
        ]
    );
    assert_eq!(device.inner.status_text, message);
    assert!(device.refresh().is_empty());
    assert!(device.shutdown().is_empty());
    assert_eq!(device.start(), [Effect::Spawn]);
}

#[test]
fn edits_wait_for_the_first_block() {
    let mut device = Device::default();
    device.worker_spawned(Ok(()));
    assert_eq!(device.apply_rate(500), waiting());
    assert_eq!(device.apply_dpi(0, 800), waiting());
    assert_eq!(device.set_level_enabled(0, true), waiting());
    assert_eq!(device.apply_color(0, "nonsense"), waiting());
    assert_eq!(device.apply_lod(3), waiting());
    assert_eq!(*device.inner.block.raw(), [0; BLOCK_LEN]);
    assert_eq!(device.inner.generation, 0);
    assert!(device.apply_dpi(8, 800).is_empty());
    assert!(device.set_level_enabled(-1, true).is_empty());
    assert!(device.apply_color(8, "#000000").is_empty());
}

#[test]
fn every_edit_takes_the_next_generation() {
    let mut device = loaded();
    let (block, generation) = written(device.apply_rate(1000));
    assert_eq!((block.rate_hz(), generation), (1000, 1));
    let (block, generation) = written(device.apply_lod(900));
    assert_eq!((block.lod(), generation), (255, 2));
    let (block, generation) = written(device.apply_lod(-1));
    assert_eq!((block.lod(), generation), (0, 3));
    let (block, generation) = written(device.apply_color(2, "0A0b0C"));
    assert_eq!((block.color(2), generation), ([10, 11, 12], 4));
    assert!(device.apply_color(2, "red").is_empty());
    assert_eq!(device.dpi_color(2), "#0a0b0c");
    assert_eq!(device.rate_hz(), 1000);
    assert_eq!(device.lod(), 0);
    assert_eq!(device.inner.generation, 4);
}

#[test]
fn a_rate_is_taken_modulo_two_to_the_sixteen() {
    let mut device = loaded();
    let (block, _) = written(device.apply_rate(65536 + 250));
    assert_eq!(block.rate_hz(), 250);
    let (block, generation) = written(device.apply_rate(-1));
    assert_eq!((block.rate_hz(), generation), (250, 2));
    let (block, _) = written(device.apply_rate(-65536 + 125));
    assert_eq!(block.rate_hz(), 125);
}

#[test]
fn a_level_of_the_profile_is_never_left_without_a_dpi() {
    let mut device = loaded();
    let (block, _) = written(device.apply_dpi(0, 0));
    assert_eq!(block.dpi_value(0), 200);
    let (block, _) = written(device.apply_dpi(7, 0));
    assert_eq!(block.dpi_value(7), 0);
    let (block, _) = written(device.apply_dpi(7, 820));
    assert_eq!(block.dpi_value(7), 800);
    let (block, _) = written(device.apply_dpi(1, i32::MAX));
    assert_eq!(block.dpi_value(1), 10000);
    let (block, _) = written(device.apply_dpi(1, -5));
    assert_eq!(block.dpi_value(1), 200);
    assert_eq!(device.dpi_value(7), 800);
    assert_eq!(device.dpi_value(8), 0);
}

#[test]
fn levels_are_added_and_removed() {
    let mut device = loaded();
    assert_eq!(device.enabled_levels(), 6);
    assert_eq!(device.current_level(), 1);
    let (block, _) = written(device.set_level_enabled(6, true));
    assert_eq!(block.enabled_levels(), 7);
    assert_eq!(block.dpi_value(6), 400);
    assert!(device.dpi_enabled(6));
    assert!(!device.dpi_enabled(7));
    assert!(!device.dpi_enabled(-1));
    let (block, _) = written(device.set_level_enabled(0, false));
    assert_eq!(block.enabled_levels(), 6);
    assert_eq!(block.dpi_value(0), 800);
    assert_eq!(device.current_level(), 0);
}

#[test]
fn commands_are_passed_on() {
    let mut device = loaded();
    assert_eq!(device.refresh(), [Effect::Send(Command::Refresh)]);
    assert_eq!(device.reload(), [Effect::Send(Command::Reload)]);
    assert_eq!(device.send_mode(0), [Effect::Send(Command::SetMode(1))]);
    assert_eq!(device.send_mode(9), [Effect::Send(Command::SetMode(3))]);
    assert_eq!(
        device.send_debounce(300),
        [Effect::Send(Command::SetDebounce(255))]
    );
    assert_eq!(device.debounce(), 255);
    assert_eq!(
        device.backup("a"),
        [Effect::Send(Command::Backup {
            path: "a".to_string()
        })]
    );
    assert_eq!(
        device.restore("b"),
        [Effect::Send(Command::Restore {
            path: "b".to_string()
        })]
    );
    assert_eq!(
        device.factory_reset("c"),
        [Effect::Send(Command::FactoryReset {
            backup_path: "c".to_string()
        })]
    );
}

#[test]
fn the_steps_are_those_of_the_sensor() {
    let device = Device::default();
    assert_eq!(device.dpi_step_count(), DPI_STEPS.len() as i32);
    assert_eq!(device.dpi_step(0), 200);
    assert_eq!(device.dpi_step(-7), 200);
    assert_eq!(device.dpi_step(58), 10000);
    assert_eq!(device.dpi_step(59), 0);
    assert!(level_ok(0) && level_ok(7));
    assert!(!level_ok(-1) && !level_ok(8));
}

#[test]
fn a_connection_is_shown() {
    let mut device = Device::default();
    let info = "/dev/hidraw3  258a:002f  psd 05\u{fffd}7  mode 2  bank 1".to_string();
    assert_eq!(
        device.handle_event(Event::Connected {
            path: "/dev/hidraw3".to_string(),
            pid: 0x002f,
            psd: [b'0', b'5', 0xff, b'7'],
            mode: 2,
            bank: 1,
        }),
        [
            Effect::SetConnected(true),
            Effect::SetDeviceInfo(info.clone()),
            Effect::SetMode(2),
            Effect::SetStatusText("On battery".to_string()),
        ]
    );
    assert_eq!(device.bank(), 1);
    assert_eq!(device.inner.device_info, info);
    assert_eq!(
        device_info_text("n", 0x2e, "PSD1", 3, 2),
        "n  258a:002e  psd PSD1  mode 3  bank 2"
    );

    assert_eq!(
        device.handle_event(Event::Disconnected("device stalled".to_string())),
        [
            Effect::SetConnected(false),
            Effect::SetBattery(-1),
            Effect::SetStatusText("No device: device stalled".to_string()),
            Effect::SetDeviceInfo(String::new()),
        ]
    );
    assert_eq!(device.state_text(), "No device");
}

#[test]
fn the_status_is_shown() {
    let mut device = Device::default();
    device.inner.connected = true;
    assert_eq!(
        device.handle_event(Event::Status {
            charging: true,
            percent: None
        }),
        [
            Effect::SetBattery(-1),
            Effect::SetCharging(true),
            Effect::SetStatusText("Charging".to_string()),
        ]
    );
    assert_eq!(
        device.handle_event(Event::Status {
            charging: false,
            percent: Some(46)
        }),
        [
            Effect::SetBattery(46),
            Effect::SetCharging(false),
            Effect::SetStatusText("On battery".to_string()),
        ]
    );
}

#[test]
fn stale_blocks_are_ignored() {
    let mut device = loaded();
    written(device.apply_lod(3));
    let before = *device.inner.block.raw();
    assert!(device
        .handle_event(block_event(factory(), 0, true))
        .is_empty());
    assert_eq!(*device.inner.block.raw(), before);
    assert_eq!(
        device.handle_event(block_event([7; BLOCK_LEN], 1, true)),
        [Effect::BlockChanged]
    );
    assert_eq!(*device.inner.block.raw(), [7; BLOCK_LEN]);
}

#[test]
fn an_unverified_block_is_read_again() {
    let mut device = loaded();
    assert_eq!(
        device.handle_event(block_event([7; BLOCK_LEN], 0, false)),
        [
            Effect::Notified("Read-back mismatch - reloading".to_string()),
            Effect::Send(Command::Reload),
        ]
    );
    assert_eq!(*device.inner.block.raw(), factory());
}

#[test]
fn messages_and_modes_are_passed_on() {
    let mut device = loaded();
    assert_eq!(
        device.handle_event(Event::Busy {
            busy: true,
            label: "Writing settings".to_string()
        }),
        [Effect::SetStatusText("Writing settings".to_string())]
    );
    assert!(device
        .handle_event(Event::Busy {
            busy: true,
            label: String::new()
        })
        .is_empty());
    assert_eq!(
        device.handle_event(Event::Busy {
            busy: false,
            label: String::new()
        }),
        [Effect::SetStatusText("No device".to_string())]
    );
    assert_eq!(
        device.handle_event(Event::Note("n".to_string())),
        [Effect::Notified("n".to_string())]
    );
    assert_eq!(device.handle_event(Event::Mode(3)), [Effect::SetMode(3)]);
    assert_eq!(device.inner.mode, 3);
    assert_eq!(
        device.handle_event(Event::Error("e".to_string())),
        [Effect::ErrorOccurred("e".to_string())]
    );
}

#[test]
fn colours_are_written_and_read() {
    assert_eq!(hex_of([255, 0, 16]), "#ff0010");
    assert_eq!(parse_hex("#ff0010"), Some([255, 0, 16]));
    assert_eq!(parse_hex("FF0010"), Some([255, 0, 16]));
    for text in [
        "", "#", "#ff001", "#ff00100", "##ff0010", " #ff0010", "#ff00g0", "+f+f+f", "#fffff\u{e9}",
    ] {
        assert_eq!(parse_hex(text), None, "{text}");
    }
    for level in 0..8 {
        let text = loaded().dpi_color(level);
        assert_eq!(hex_of(parse_hex(&text).unwrap()), text);
    }
    assert_eq!(loaded().dpi_color(8), "");
}

#[test]
fn the_block_is_dumped() {
    let device = loaded();
    assert!(device.block_hex().starts_with("0000  00 00 03 26 00 03 00"));
}
