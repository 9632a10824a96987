//! The vendor control protocol of the ISY IGM 5000: identifiers, opcodes,
//! errors and the encoding of the feature requests.
//!
//! All device I/O is HID feature reports: report id 5 is the 8-byte command
//! channel, report id 8 the 520-byte data channel.
use crate::text::push_hex2;
use vstd::prelude::*;

verus! {

pub const VENDOR: u16 = 0x258a;

pub const KNOWN_PIDS: [u16; 2] = [0x002e, 0x002f];

pub const RID_CMD: u8 = 5;

pub const RID_DATA: u8 = 8;

pub const CMD_LEN: usize = 8;

pub const DATA_LEN: usize = 520;

/// The settings block starts at byte 8 of the data report.
pub const BLOCK_OFFSET: usize = 8;

/// Data terminator byte.
pub const DATA_TERM: u8 = 0x92;

pub const CMD_GET_PSD: u8 = 0x01;

/// Read mode; written as the same opcode with `c1 = mode` (1..3).
pub const CMD_GET_MODE: u8 = 0x02;

pub const CMD_SET_DEBOUNCE: u8 = 0x1a;

/// `d0` = 0x10 charging / 0x11 on battery, `d1` = charge percent while on
/// battery.
pub const CMD_GET_STATUS: u8 = 0x90;

// ---------------------------------------------------------------------------
// errors
// ---------------------------------------------------------------------------

/// What the operating system says of a failed call: its error number, where it
/// has one, and its text.
#[derive(Debug, PartialEq, Eq)]
pub struct OsError {
    pub code: Option<i32>,
    pub text: String,
}

#[derive(Debug, PartialEq, Eq)]
pub enum Error {
    NoDevice,
    PermissionDenied,
    /// Access could not be obtained through `pkexec` (missing, cancelled, or
    /// refused by polkit).
    Escalation(String),
    /// `EPIPE` from the ioctl: the wireless link NAK'd the transfer.
    IoStall,
    Timeout,
    Echo { expected: u8, got: u8 },
    Io(OsError),
}

/// The text shown for an error.
pub open spec fn error_text(error: Error) -> Seq<char> {
    match error {
        Error::NoDevice => "no device found"@,
        Error::PermissionDenied => "permission denied on hidraw node"@,
        Error::IoStall => "device stalled"@,
        Error::Timeout => "device did not answer"@,
        Error::Echo { expected, got } => "bad reply echo: expected 0x"@ + crate::text::hex2(
            expected,
        ) + ", got 0x"@ + crate::text::hex2(got),
        Error::Escalation(reason) => "could not get access: "@ + reason@,
        Error::Io(e) => "i/o error: "@ + e.text@,
    }
}

/// Whether an error means that the handle is dead.
pub open spec fn error_is_fatal(error: Error) -> bool {
    match error {
        Error::NoDevice | Error::PermissionDenied | Error::Escalation(_) | Error::Io(_) => true,
        Error::IoStall | Error::Timeout | Error::Echo { .. } => false,
    }
}

/// The error that an operating system error stands for, given the number that
/// the target has for a timed-out operation.
pub open spec fn error_of_os(error: OsError, timed_out: i32) -> Error {
    match error.code {
        Some(code) => if code == 13 || code == 1 {
            Error::PermissionDenied
        } else if code == 32 {
            Error::IoStall
        } else if code == timed_out {
            Error::Timeout
        } else if code == 19 || code == 2 {
            Error::NoDevice
        } else {
            Error::Io(error)
        },
        None => Error::Io(error),
    }
}

/// `libc::EACCES`, which is 13 on every Linux target of that crate.
#[verifier::external_body]
fn eacces() -> (code: i32)
    ensures
        code == 13,
{
    libc::EACCES
}

/// `libc::EPERM`, which is 1 on every Linux target of that crate.
#[verifier::external_body]
fn eperm() -> (code: i32)
    ensures
        code == 1,
{
    libc::EPERM
}

/// `libc::EPIPE`, which is 32 on every Linux target of that crate.
#[verifier::external_body]
fn epipe() -> (code: i32)
    ensures
        code == 32,
{
    libc::EPIPE
}

/// `libc::ENODEV`, which is 19 on every Linux target of that crate.
#[verifier::external_body]
fn enodev() -> (code: i32)
    ensures
        code == 19,
{
    libc::ENODEV
}

/// `libc::ENOENT`, which is 2 on every Linux target of that crate.
#[verifier::external_body]
fn enoent() -> (code: i32)
    ensures
        code == 2,
{
    libc::ENOENT
}

/// `libc::ETIMEDOUT`: of the Linux targets of that crate, 145 on MIPS, 60 on
/// SPARC and 110 on the others.
#[verifier::external_body]
fn etimedout() -> (code: i32)
    ensures
        code == 110 || code == 145 || code == 60,
{
    libc::ETIMEDOUT
}

impl Error {
    /// Whether the handle can no longer talk to the device and should be
    /// dropped so the next command re-discovers it (a device that re-enumerated
    /// across a suspend, or was unplugged). A NAK'd transfer or a missed reply
    /// is transient and handled by the retry policy instead.
    pub fn is_fatal(&self) -> (fatal: bool)
        ensures
            fatal == error_is_fatal(*self),
    {
        match self {
            Error::NoDevice | Error::PermissionDenied | Error::Escalation(_) | Error::Io(_) => true,
            Error::IoStall | Error::Timeout | Error::Echo { .. } => false,
        }
    }

    /// The text shown for the error.
    pub fn text(&self) -> (text: String)
        ensures
            text@ == error_text(*self),
    {
        let mut text = String::new();
        match self {
            Error::NoDevice => text.append("no device found"),
            Error::PermissionDenied => text.append("permission denied on hidraw node"),
            Error::IoStall => text.append("device stalled"),
            Error::Timeout => text.append("device did not answer"),
            Error::Echo { expected, got } => {
                text.append("bad reply echo: expected 0x");
                push_hex2(&mut text, *expected);
                text.append(", got 0x");
                push_hex2(&mut text, *got);
            },
            Error::Escalation(reason) => {
                text.append("could not get access: ");
                text.append(reason.as_str());
            },
            Error::Io(e) => {
                text.append("i/o error: ");
                text.append(e.text.as_str());
            },
        }
        proof {
            assert(text@ =~= error_text(*self));
        }
        text
    }

    /// Sort an operating system error by its number, where `timed_out` is the
    /// target's number for a timed-out operation.
    pub fn classify(error: OsError, timed_out: i32) -> (sorted: Error)
        ensures
            sorted == error_of_os(error, timed_out),
    {
        match error.code {
            Some(code) => {
                if code == eacces() || code == eperm() {
                    Error::PermissionDenied
                } else if code == epipe() {
                    Error::IoStall
                } else if code == timed_out {
                    Error::Timeout
                } else if code == enodev() || code == enoent() {
                    Error::NoDevice
                } else {
                    Error::Io(error)
                }
            },
            None => Error::Io(error),
        }
    }

    /// Sort an operating system error by its number. Which of three numbers
    /// means a timed-out operation depends on the target.
    pub fn from_os(error: OsError) -> (sorted: Error)
        ensures
            sorted == error_of_os(error, 110) || sorted == error_of_os(error, 145) || sorted
                == error_of_os(error, 60),
    {
        Error::classify(error, etimedout())
    }
}

#[derive(Debug, Clone, Copy, PartialEq, Eq)]
pub struct Status {
    pub state: u8,
    pub percent: u8,
}

impl Status {
    pub fn charging(&self) -> (yes: bool)
        ensures
            yes == (self.state == 0x10),
    {
        self.state == 0x10
    }
}

// ---------------------------------------------------------------------------
// opcodes and feature requests
// ---------------------------------------------------------------------------

/// The opcode of a bank: its number in the high nibble, 1 in the low one.
pub open spec fn opcode_of(bank: u8) -> u8 {
    (bank % 16 * 16 + 1) as u8
}

pub fn bank_opcode(bank: u8) -> (opcode: u8)
    ensures
        opcode == opcode_of(bank),
{
    assert((bank << 4) | 0x01 == bank % 16 * 16 + 1) by (bit_vector);
    (bank << 4) | 0x01
}

/// Whether byte 1 of a report is the opcode of one of the banks 1 to 3 other
/// than `bank`.
pub open spec fn other_bank_named(report: Seq<u8>, bank: u8) -> bool {
    report.len() > 1 && exists|other: u8|
        1 <= other <= 3 && other != bank && report[1] == #[trigger] opcode_of(other)
}

/// Whether a data report whose byte 1 is a *recognisably* different bank's opcode.
///
/// Nothing stricter can be checked of a reply; a byte that is no bank's opcode
/// is data.
pub fn names_other_bank(report: &[u8], bank: u8) -> (yes: bool)
    ensures
        yes == other_bank_named(report@, bank),
{
    if report.len() < 2 {
        return false;
    }
    let mut other: u8 = 1;
    while other <= 3
        invariant
            1 <= other <= 4,
            report@.len() >= 2,
            forall|o: u8|
                1 <= o < other && o != bank ==> report@[1] != #[trigger] opcode_of(o),
        decreases 4 - other,
    {
        if other != bank && report[1] == bank_opcode(other) {
            return true;
        }
        other += 1;
    }
    false
}

/// The bits of an ioctl request number.
pub open spec fn request_bits(direction: u64, type_char: u8, nr: u8, size: u32) -> u64 {
    (direction << 30) | ((size as u64) << 16) | ((type_char as u64) << 8) | (nr as u64)
}

pub fn ioc(direction: u64, type_char: u8, nr: u8, size: u32) -> (request: u64)
    ensures
        request == request_bits(direction, type_char, nr, size),
{
    (direction << 30) | ((size as u64) << 16) | ((type_char as u64) << 8) | (nr as u64)
}

/// The request number of a HID feature ioctl: read and write, type `H`. The
/// kernel's field for the length has fourteen bits.
pub fn hidev_feature(nr: u8, len: usize) -> (request: u64)
    ensures
        request == request_bits(3, 0x48, nr, len as u32),
        len < 0x4000 ==> request == 0xc000_0000 + len * 0x1_0000 + 0x4800 + nr,
{
    let size = len as u32;
    assert(size < 0x4000 ==> (3u64 << 30) | ((size as u64) << 16) | ((0x48u8 as u64) << 8) | (
    nr as u64) == 0xc000_0000 + size * 0x1_0000 + 0x4800 + nr) by (bit_vector);
    ioc(3, 0x48, nr, size)
}

// ---------------------------------------------------------------------------
// frames
// ---------------------------------------------------------------------------

/// The report that carries a 5-byte command.
pub open spec fn command_bytes(cmd: Seq<u8>) -> Seq<u8> {
    seq![RID_CMD, cmd[0], cmd[1], cmd[2], cmd[3], cmd[4], 0, 0]
}

/// The report that carries a settings block to a bank.
pub open spec fn data_bytes(bank: u8, block: Seq<u8>) -> Seq<u8> {
    Seq::new(
        DATA_LEN as nat,
        |i: int|
            if i == 0 {
                RID_DATA
            } else if i == 1 {
                opcode_of(bank)
            } else if i == 3 {
                DATA_TERM
            } else if BLOCK_OFFSET <= i < BLOCK_OFFSET + crate::settings::BLOCK_LEN {
                block[i - BLOCK_OFFSET]
            } else {
                0
            },
    )
}

/// The settings block inside a data report.
pub open spec fn block_in(report: Seq<u8>) -> Seq<u8> {
    report.subrange(BLOCK_OFFSET as int, BLOCK_OFFSET + crate::settings::BLOCK_LEN)
}

/// The frame of a command.
pub fn command_frame(cmd: [u8; 5]) -> (frame: [u8; CMD_LEN])
    ensures
        frame@ == command_bytes(cmd@),
{
    let frame = [RID_CMD, cmd[0], cmd[1], cmd[2], cmd[3], cmd[4], 0, 0];
    proof {
        assert(frame@ =~= command_bytes(cmd@));
    }
    frame
}

/// The frame that writes a settings block to a bank. Byte 3 of the block (the
/// level nibbles) is carried as it is.
pub fn data_frame(bank: u8, block: &[u8; crate::settings::BLOCK_LEN]) -> (frame: [u8; DATA_LEN])
    ensures
        frame@ == data_bytes(bank, block@),
{
    let mut frame = [0u8; DATA_LEN];
    frame[0] = RID_DATA;
    frame[1] = bank_opcode(bank);
    frame[3] = DATA_TERM;
    let ghost head = frame@;
    let mut i: usize = 0;
    while i < crate::settings::BLOCK_LEN
        invariant
            i <= crate::settings::BLOCK_LEN,
            head.len() == DATA_LEN,
            forall|k: int|
                0 <= k < DATA_LEN ==> #[trigger] frame@[k] == (if BLOCK_OFFSET <= k < BLOCK_OFFSET
                    + i {
                    block@[k - BLOCK_OFFSET]
                } else {
                    head[k]
                }),
        decreases crate::settings::BLOCK_LEN - i,
    {
        frame[BLOCK_OFFSET + i] = block[i];
        i += 1;
    }
    proof {
        assert(frame@ =~= data_bytes(bank, block@));
    }
    frame
}

/// The settings block inside a data report.
pub fn report_block(report: &[u8; DATA_LEN]) -> (block: [u8; crate::settings::BLOCK_LEN])
    ensures
        block@ == block_in(report@),
{
    let mut block = [0u8; crate::settings::BLOCK_LEN];
    let mut i: usize = 0;
    while i < crate::settings::BLOCK_LEN
        invariant
            i <= crate::settings::BLOCK_LEN,
            forall|k: int| 0 <= k < i ==> #[trigger] block@[k] == report@[BLOCK_OFFSET + k],
        decreases crate::settings::BLOCK_LEN - i,
    {
        block[i] = report[BLOCK_OFFSET + i];
        i += 1;
    }
    proof {
        assert(block@ =~= block_in(report@));
    }
    block
}

/// A block is read out of the report that writes it as it was put in.
pub proof fn law_written_block_reads_back(bank: u8, block: Seq<u8>)
    requires
        block.len() == crate::settings::BLOCK_LEN,
    ensures
        data_bytes(bank, block).len() == DATA_LEN,
        block_in(data_bytes(bank, block)) == block,
{
    assert(block_in(data_bytes(bank, block)) =~= block);
}

/// The banks 1 to 3 have different opcodes, so a report is never taken for one
/// of another bank because of the opcode of its own.
pub proof fn law_own_opcode_names_no_other_bank(report: Seq<u8>, bank: u8)
    requires
        1 <= bank <= 3,
        report.len() > 1,
        report[1] == opcode_of(bank),
    ensures
        !other_bank_named(report, bank),
        forall|other: u8|
            1 <= other <= 3 && other != bank ==> #[trigger] other_bank_named(report, other),
{
    assert(opcode_of(1) == 0x11 && opcode_of(2) == 0x21 && opcode_of(3) == 0x31);
}

/// The opcode of a bank has the bank in its high nibble and 1 in the low one.
pub proof fn law_an_opcode_is_its_bank(bank: u8, opcode: u8)
    requires
        call_ensures(bank_opcode, (bank,), opcode),
    ensures
        opcode % 16 == 1,
        opcode / 16 == bank % 16,
{
}

/// A report names another bank exactly if its byte 1 is 0x11, 0x21 or 0x31 and not
/// the opcode of the bank itself.
pub proof fn law_three_opcodes_name_a_bank(report: Seq<u8>, bank: u8)
    requires
        report.len() > 1,
    ensures
        other_bank_named(report, bank) <==> {
            ||| report[1] == 0x11 && bank != 1
            ||| report[1] == 0x21 && bank != 2
            ||| report[1] == 0x31 && bank != 3
        },
{
    assert(opcode_of(1) == 0x11 && opcode_of(2) == 0x21 && opcode_of(3) == 0x31);
}

/// A command travels as report 5 with its five bytes behind the id; a block
/// travels to its bank as report 8 with the opcode in byte 1, the terminator in
/// byte 3 and the block from byte 8 on. Every other byte is 0.
pub proof fn law_frames_have_their_layout(cmd: Seq<u8>, bank: u8, block: Seq<u8>, i: int)
    requires
        cmd.len() == 5,
        block.len() == 148,
    ensures
        command_bytes(cmd).len() == 8,
        command_bytes(cmd)[0] == 5,
        command_bytes(cmd).subrange(1, 6) == cmd,
        command_bytes(cmd)[6] == 0,
        command_bytes(cmd)[7] == 0,
        data_bytes(bank, block).len() == 520,
        data_bytes(bank, block)[0] == 8,
        data_bytes(bank, block)[1] == bank % 16 * 16 + 1,
        data_bytes(bank, block)[3] == 0x92,
        data_bytes(bank, block).subrange(8, 156) == block,
        0 <= i < 520 && i != 0 && i != 1 && i != 3 && !(8 <= i < 156) ==> data_bytes(
            bank,
            block,
        )[i] == 0,
{
    assert(command_bytes(cmd).subrange(1, 6) =~= cmd);
    assert(data_bytes(bank, block).subrange(8, 156) =~= block);
}

/// The block in a report is its bytes 8 to 155.
pub proof fn law_a_block_stands_behind_the_head(report: Seq<u8>, i: int)
    requires
        report.len() == 520,
        0 <= i < 148,
    ensures
        block_in(report).len() == 148,
        block_in(report)[i] == report[8 + i],
{
}

/// A stall, a missing reply and a foreign reply are transient; every other error
/// means that the handle is dead.
pub proof fn law_three_errors_are_transient(error: Error, fatal: bool)
    requires
        call_ensures(Error::is_fatal, (&error,), fatal),
    ensures
        fatal == error_is_fatal(error),
        fatal <==> !(error is IoStall || error is Timeout || error is Echo),
{
}

/// An error of the system is sorted by its number: access refused or not
/// permitted, a broken pipe, a timeout, no such device or file. Any other one, and
/// one without a number, is kept as it is.
pub proof fn law_system_errors_are_sorted_by_number(error: OsError, timed_out: i32, sorted: Error)
    requires
        call_ensures(Error::classify, (error, timed_out), sorted),
        timed_out != 13 && timed_out != 1 && timed_out != 32 && timed_out != 19 && timed_out != 2,
    ensures
        sorted is PermissionDenied <==> error.code == Some(13i32) || error.code == Some(1i32),
        sorted is IoStall <==> error.code == Some(32i32),
        sorted is Timeout <==> error.code == Some(timed_out),
        sorted is NoDevice <==> error.code == Some(19i32) || error.code == Some(2i32),
        sorted is Io ==> sorted == Error::Io(error),
        sorted !is Escalation && sorted !is Echo,
{
}

/// What is shown of an error says what it is, and names the bytes of a foreign
/// reply, the reason of a refusal and the system's own text.
pub proof fn law_errors_say_what_they_are(error: Error, text: String)
    requires
        call_ensures(Error::text, (&error,), text),
    ensures
        text@ == match error {
            Error::NoDevice => "no device found"@,
            Error::PermissionDenied => "permission denied on hidraw node"@,
            Error::IoStall => "device stalled"@,
            Error::Timeout => "device did not answer"@,
            Error::Echo { expected, got } => "bad reply echo: expected 0x"@ + crate::text::hex2(
                expected,
            ) + ", got 0x"@ + crate::text::hex2(got),
            Error::Escalation(reason) => "could not get access: "@ + reason@,
            Error::Io(e) => "i/o error: "@ + e.text@,
        },
        text@ == error_text(error),
{
}

/// A feature request has the length, the letter `H` and the number in its fields,
/// and a mouse charges in state 0x10 alone.
pub proof fn law_requests_and_states_are_the_kernels(
    nr: u8,
    len: usize,
    request: u64,
    status: Status,
    charging: bool,
)
    requires
        len < 0x4000,
        call_ensures(hidev_feature, (nr, len), request),
        call_ensures(Status::charging, (&status,), charging),
    ensures
        request % 256 == nr,
        request / 256 % 256 == 0x48,
        request / 0x1_0000 % 0x4000 == len,
        request / 0x4000_0000 == 3,
        charging <==> status.state == 0x10,
{
}

/// A block that is framed for a bank is the block that is found in the frame, and
/// the frame does not name another bank.
pub proof fn law_a_framed_block_is_found_again(
    bank: u8,
    block: [u8; crate::settings::BLOCK_LEN],
    frame: [u8; DATA_LEN],
    found: [u8; crate::settings::BLOCK_LEN],
    sent: &[u8],
    other: bool,
)
    requires
        call_ensures(data_frame, (bank, &block), frame),
        call_ensures(report_block, (&frame,), found),
        sent@ == frame@,
        call_ensures(names_other_bank, (sent, bank), other),
        1 <= bank <= 3,
    ensures
        found@ == block@,
        !other,
{
    assert(found@ =~= block@);
    law_three_opcodes_name_a_bank(frame@, bank);
}

/// The frames and the block that are built are those of the layout, and a report of
/// fewer than two bytes names no bank.
pub proof fn law_frames_are_built_by_their_layout(
    cmd: [u8; 5],
    command: [u8; CMD_LEN],
    report: [u8; DATA_LEN],
    found: [u8; crate::settings::BLOCK_LEN],
    short: &[u8],
    bank: u8,
    other: bool,
    i: int,
)
    requires
        call_ensures(command_frame, (cmd,), command),
        call_ensures(report_block, (&report,), found),
        call_ensures(names_other_bank, (short, bank), other),
    ensures
        command@[0] == 5,
        0 <= i < 5 ==> command@[1 + i] == cmd@[i],
        command@[6] == 0 && command@[7] == 0,
        0 <= i < 148 ==> found@[i] == report@[8 + i],
        short@.len() < 2 ==> !other,
        short@.len() >= 2 ==> (other <==> {
            ||| short@[1] == 0x11 && bank != 1
            ||| short@[1] == 0x21 && bank != 2
            ||| short@[1] == 0x31 && bank != 3
        }),
{
    if short@.len() >= 2 {
        law_three_opcodes_name_a_bank(short@, bank);
    }
    assert(i == 0 || i == 1 || i == 2 || i == 3 || i == 4 || !(0 <= i < 5));
}

} // verus!
