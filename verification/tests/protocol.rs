use igm5000::descriptor::{is_control_interface, parse_report_descriptor};
use igm5000::discovery::{find_control_node, hid_ids, hidraw_nodes, node_index, Node};
use igm5000::privilege::{
    chmod_args, grant_access, grant_outcome, helper_not_run, helper_thread_not_started, refusal,
    run_privileged, short_detail, short_detail_text, system_program, FileFacts, SYSTEM_BIN_DIRS,
};
use igm5000::protocol::{
    bank_opcode, command_frame, data_frame, hidev_feature, ioc, names_other_bank, report_block,
    Error, OsError, Status, CMD_LEN, DATA_LEN,
};

fn os_error(code: Option<i32>) -> OsError {
    OsError {
        code,
        text: "the text".to_string(),
    }
}

fn control_descriptor() -> Vec<u8> {
    vec![
        0x06, 0x00, 0xff, // Usage Page (vendor defined)
        0x09, 0x01, // Usage
        0xa1, 0x01, // Collection (Application)
        0x85, 0x05, // Report ID 5
        0x75, 0x38, // Report Size 56 bits
        0x95, 0x01, // Report Count 1
        0xb1, 0x02, // Feature
        0x85, 0x08, // Report ID 8
        0x75, 0x08, // Report Size 8 bits
        0x96, 0x07, 0x02, // Report Count 519 (two-byte value)
        0xb1, 0x02, // Feature
        0xc0, // End Collection
    ]
}

#[test]
fn feature_requests_match_the_kernel_encoding() {
    assert_eq!(hidev_feature(0x06, CMD_LEN), 0xc008_4806);
    assert_eq!(hidev_feature(0x07, CMD_LEN), 0xc008_4807);
    assert_eq!(hidev_feature(0x07, DATA_LEN), 0xc208_4807);
}

#[test]
fn the_control_interface_is_the_one_with_the_vendor_feature_reports() {
    let control: &[u8] = &[
        0x06, 0x00, 0xff, // Usage Page (vendor defined)
        0x09, 0x01, // Usage
        0xa1, 0x01, // Collection (Application)
        0x85, 0x05, // Report ID 5
        0x75, 0x38, // Report Size 56 bits
        0x95, 0x01, // Report Count 1
        0xb1, 0x02, // Feature
        0x85, 0x08, // Report ID 8
        0x75, 0x08, // Report Size 8 bits
        0x96, 0x07, 0x02, // Report Count 519 (two-byte value)
        0xb1, 0x02, // Feature
        0xc0, // End Collection
    ];
    assert!(is_control_interface(&parse_report_descriptor(control)));

    let plain: &[u8] = &[
        0x05, 0x01, 0x09, 0x02, 0xa1, 0x01, 0x75, 0x08, 0x95, 0x08, 0x81, 0x02, 0xc0,
    ];
    assert!(!is_control_interface(&parse_report_descriptor(plain)));
}

#[test]
fn a_data_report_from_another_bank_is_not_accepted() {
    let mut report = [0u8; DATA_LEN];
    report[1] = bank_opcode(2);

    assert!(names_other_bank(&report, 1));
    assert!(!names_other_bank(&report, 2));

    // Not an opcode: a device that leaves the byte zero, or uses it for
    // data, still has to be read.
    report[1] = 0;
    assert!(!names_other_bank(&report, 1));
}

#[test]
fn the_privileged_helper_never_comes_from_path() {
    assert!(SYSTEM_BIN_DIRS.iter().all(|dir| dir.starts_with('/')));
    let nowhere = vec![None; 6];
    assert!(system_program("igm5000-no-such-helper", &nowhere).is_none());
}

#[test]
fn the_chmod_call_survives_a_multicall_helper() {
    assert_eq!(
        chmod_args(&Some("chmod".to_string()), "/dev/hidraw6"),
        ["a+rw", "--", "/dev/hidraw6"]
    );

    // A multicall helper: `chmod` symlinked to another name.
    assert_eq!(
        chmod_args(&Some("coreutils".to_string()), "/dev/hidraw6"),
        ["chmod", "a+rw", "--", "/dev/hidraw6"]
    );
}

#[test]
fn opcodes_are_numbered_by_bank() {
    assert_eq!(bank_opcode(1), 0x11);
    assert_eq!(bank_opcode(2), 0x21);
    assert_eq!(bank_opcode(3), 0x31);
    assert_eq!(bank_opcode(0x12), 0x21);
    assert_eq!(ioc(3, b'H', 6, 8), 0xc008_4806);
}

#[test]
fn frames_have_their_layout() {
    assert_eq!(command_frame([1, 2, 3, 4, 5]), [5, 1, 2, 3, 4, 5, 0, 0]);
    let mut block = [0u8; 148];
    block[0] = 7;
    block[147] = 9;
    let frame = data_frame(2, &block);
    assert_eq!(&frame[..9], &[8, 0x21, 0, 0x92, 0, 0, 0, 0, 7]);
    assert_eq!(frame[155], 9);
    assert!(frame[156..].iter().all(|b| *b == 0));
    assert_eq!(report_block(&frame), block);
}

#[test]
fn errors_are_sorted_by_their_number() {
    assert_eq!(Error::from_os(os_error(Some(13))), Error::PermissionDenied);
    assert_eq!(Error::from_os(os_error(Some(1))), Error::PermissionDenied);
    assert_eq!(Error::from_os(os_error(Some(32))), Error::IoStall);
    assert_eq!(
        Error::from_os(os_error(Some(libc::ETIMEDOUT))),
        Error::Timeout
    );
    assert_eq!(Error::from_os(os_error(Some(19))), Error::NoDevice);
    assert_eq!(Error::from_os(os_error(Some(2))), Error::NoDevice);
    assert_eq!(
        Error::from_os(os_error(Some(5))),
        Error::Io(os_error(Some(5)))
    );
    assert_eq!(Error::from_os(os_error(None)), Error::Io(os_error(None)));
    assert_eq!(libc::EACCES, 13);
    assert_eq!(libc::EPERM, 1);
    assert_eq!(libc::EPIPE, 32);
    assert_eq!(libc::ENODEV, 19);
    assert_eq!(libc::ENOENT, 2);
    assert_eq!(Error::classify(os_error(Some(77)), 77), Error::Timeout);
}

#[test]
fn errors_have_their_texts() {
    assert_eq!(Error::NoDevice.text(), "no device found");
    assert_eq!(
        Error::PermissionDenied.text(),
        "permission denied on hidraw node"
    );
    assert_eq!(Error::IoStall.text(), "device stalled");
    assert_eq!(Error::Timeout.text(), "device did not answer");
    let echo = Error::Echo {
        expected: 0x90,
        got: 0x02,
    };
    assert_eq!(echo.text(), "bad reply echo: expected 0x90, got 0x02");
    assert_eq!(
        Error::Escalation("no".to_string()).text(),
        "could not get access: no"
    );
    assert_eq!(Error::Io(os_error(None)).text(), "i/o error: the text");
}

#[test]
fn a_nak_is_transient_and_a_lost_device_is_not() {
    assert!(Error::NoDevice.is_fatal());
    assert!(Error::PermissionDenied.is_fatal());
    assert!(Error::Escalation(String::new()).is_fatal());
    assert!(Error::Io(os_error(Some(5))).is_fatal());
    assert!(!Error::IoStall.is_fatal());
    assert!(!Error::Timeout.is_fatal());
    assert!(!Error::Echo {
        expected: 1,
        got: 2
    }
    .is_fatal());
}

#[test]
fn the_charging_state_is_one_value() {
    let charging = Status {
        state: 0x10,
        percent: 2,
    };
    let battery = Status {
        state: 0x11,
        percent: 92,
    };
    assert!(charging.charging());
    assert!(!battery.charging());
}

#[test]
fn reports_add_up_by_id_and_kind() {
    let desc: &[u8] = &[
        0x85, 0x01, // Report ID 1
        0x75, 0x08, 0x95, 0x03, 0x81, 0x02, // 3 bytes of input
        0x75, 0x01, 0x95, 0x09, 0x91, 0x02, // 9 bits of output
        0x85, 0x02, // Report ID 2
        0x75, 0x08, 0x95, 0x01, 0xb1, 0x02, // 1 byte of feature
        0x85, 0x01, // Report ID 1 again
        0x75, 0x08, 0x95, 0x02, 0x81, 0x02, // 2 more bytes of input
        0xb1, 0x02, // size and count were used up
        0xfe, 0x02, 0x00, 0x75, 0x08, // a long item is skipped
    ];
    let reports = parse_report_descriptor(desc);
    assert_eq!(reports.len(), 2);
    assert_eq!(reports[0].0, 1);
    assert_eq!(reports[0].1.input, 5);
    assert_eq!(reports[0].1.output, 2);
    assert_eq!(reports[0].1.feature, 0);
    assert_eq!(reports[1].0, 2);
    assert_eq!(reports[1].1.feature, 1);
    assert!(parse_report_descriptor(&[]).is_empty());
    assert!(parse_report_descriptor(&[0xfe]).is_empty());
}

#[test]
fn a_large_descriptor_value_does_not_overflow() {
    let desc: &[u8] = &[
        0x77, 0xff, 0xff, 0xff, 0xff, // Report Size, four bytes
        0x97, 0xff, 0xff, 0xff, 0xff, // Report Count, four bytes
        0xb1, 0x02,
    ];
    let reports = parse_report_descriptor(desc);
    let bits = u128::from(u32::MAX) * u128::from(u32::MAX);
    assert_eq!(reports[0].1.feature, (bits + 7) / 8);
}

#[test]
fn nodes_are_sorted_by_their_number() {
    let names = ["hidraw10", "null", "hidraw2", "hidraw", "hidraw1a", "hidraw0"];
    let names: Vec<String> = names.iter().map(|n| n.to_string()).collect();
    assert_eq!(
        hidraw_nodes(&names),
        ["/dev/hidraw0", "/dev/hidraw2", "/dev/hidraw10"]
    );
    assert_eq!(node_index("/dev/hidraw17"), 17);
    assert_eq!(node_index("/dev/hidraw"), 0);
    assert_eq!(node_index("/dev/hidraw99999999999"), 0);
}

#[test]
fn ids_come_from_the_uevent() {
    let uevent = "DRIVER=hid-generic\nHID_ID=0003:0000258A:0000002F\nHID_NAME=x\n";
    assert_eq!(hid_ids(uevent), Some((0x258a, 0x002f)));
    assert_eq!(hid_ids("HID_ID= 0003:258a:2e \r\n"), Some((0x258a, 0x2e)));
    assert_eq!(hid_ids("HID_ID=0003:258a"), None);
    assert_eq!(hid_ids("HID_ID=0003:1258a:2e"), None);
    assert_eq!(hid_ids("HID_ID=0003:xyz:2e"), None);
    // The first such line decides.
    assert_eq!(hid_ids("HID_ID=\nHID_ID=0003:258a:2e"), None);
    assert_eq!(hid_ids("DRIVER=hid"), None);
}

fn node(path: &str, ids: &str, descriptor: Option<Vec<u8>>) -> Node {
    Node {
        path: path.to_string(),
        uevent: Some(format!("HID_ID=0003:{ids}\n")),
        descriptor,
    }
}

#[test]
fn a_known_product_is_preferred() {
    let control = control_descriptor();
    let nodes = vec![
        node("/dev/hidraw0", "046D:C077", Some(control.clone())),
        node("/dev/hidraw1", "258A:0099", Some(control.clone())),
        node("/dev/hidraw2", "258A:002E", Some(vec![0xc0])),
        node("/dev/hidraw3", "258A:002E", None),
        node("/dev/hidraw4", "258A:002E", Some(control.clone())),
        node("/dev/hidraw5", "258A:002F", Some(control.clone())),
    ];
    assert_eq!(
        find_control_node(&nodes),
        Ok(("/dev/hidraw4".to_string(), 0x002e))
    );
    assert_eq!(
        find_control_node(&vec![
            node("/dev/hidraw1", "258A:0099", Some(control.clone())),
            node("/dev/hidraw2", "258A:0098", Some(control)),
        ]),
        Ok(("/dev/hidraw1".to_string(), 0x0099))
    );
    assert_eq!(find_control_node(&Vec::new()), Err(Error::NoDevice));
    let silent = Node {
        path: "/dev/hidraw0".to_string(),
        uevent: None,
        descriptor: Some(control_descriptor()),
    };
    assert_eq!(find_control_node(&vec![silent]), Err(Error::NoDevice));
}

fn facts(is_file: bool, uid: u32, mode: u32) -> Option<FileFacts> {
    Some(FileFacts { is_file, uid, mode })
}

#[test]
fn only_a_file_that_root_alone_writes_is_run() {
    let found = vec![
        facts(false, 0, 0o755),
        facts(true, 1000, 0o755),
        facts(true, 0, 0o775),
        facts(true, 0, 0o757),
        facts(true, 0, 0o755),
        facts(true, 0, 0o755),
    ];
    assert_eq!(
        system_program("chmod", &found),
        Some("/bin/chmod".to_string())
    );
    let setuid = vec![facts(true, 0, 0o4755)];
    assert_eq!(
        system_program("pkexec", &setuid),
        Some("/run/wrappers/bin/pkexec".to_string())
    );
}

#[test]
fn the_grant_runs_chmod_through_pkexec() {
    let grant = grant_access(
        Some("/usr/bin/chmod".to_string()),
        &Some("chmod".to_string()),
        Some("/usr/bin/pkexec".to_string()),
        "/dev/hidraw3",
    );
    let grant = grant.unwrap();
    assert_eq!(grant.pkexec, "/usr/bin/pkexec");
    assert_eq!(grant.helper, "/usr/bin/chmod");
    assert_eq!(grant.args, ["a+rw", "--", "/dev/hidraw3"]);

    let missing = grant_access(None, &None, None, "/dev/hidraw3").unwrap_err();
    assert_eq!(
        missing.text(),
        "could not get access: chmod was not found in the system paths"
    );
    let missing = grant_access(Some("/bin/chmod".to_string()), &None, None, "/dev/hidraw3");
    assert_eq!(
        missing.unwrap_err().text(),
        "could not get access: pkexec was not found (is polkit installed?)"
    );
}

#[test]
fn the_helpers_outcome_is_explained() {
    assert_eq!(run_privileged(true, Some(0), b""), Ok(()));
    assert_eq!(
        run_privileged(false, Some(126), b"x"),
        Err(Error::Escalation(
            "the polkit prompt was dismissed".to_string()
        ))
    );
    assert_eq!(
        run_privileged(false, Some(127), b"Not authorized\nmore"),
        Err(Error::Escalation(
            "polkit refused the request (Not authorized)".to_string()
        ))
    );
    assert_eq!(
        run_privileged(false, Some(-3), b""),
        Err(Error::Escalation(
            "the helper exited with -3: no reason given".to_string()
        ))
    );
    assert_eq!(refusal(None, "oops"), "the helper was killed: oops");
    assert_eq!(
        helper_not_run("no such file").text(),
        "could not get access: could not run pkexec: no such file"
    );
    assert_eq!(
        helper_thread_not_started("limit").text(),
        "could not get access: could not start the helper thread: limit"
    );
    assert_eq!(grant_outcome(Some(Ok(()))), Ok(()));
    assert_eq!(
        grant_outcome(Some(Err(Error::Timeout))),
        Err(Error::Timeout)
    );
    assert_eq!(
        grant_outcome(None).unwrap_err().text(),
        "could not get access: no answer from polkit; the device stays read-only"
    );
}

#[test]
fn a_detail_is_one_clean_line() {
    assert_eq!(short_detail(b"  first\x07 line \nsecond"), "first line");
    assert_eq!(short_detail(b""), "no reason given");
    assert_eq!(short_detail(b"\n\nlater"), "no reason given");
    assert_eq!(short_detail(b"a\xffb"), "a\u{fffd}b");
    assert_eq!(short_detail("gr\u{fc}n".as_bytes()), "gr\u{fc}n");
    let long = "x".repeat(500);
    assert_eq!(short_detail_text(&long).len(), 160);
}
