//! The retry policy of the control channel.
//!
//! Each operation is a walk through steps: a step says how long to wait and
//! then which feature report to send or to read, or what the operation came to.
//! Whoever owns the node performs the step and hands the outcome to the state
//! in it, which gives the next step.
use crate::protocol::{
    bank_opcode, command_frame, data_frame, names_other_bank, Error, Status, CMD_GET_MODE,
    CMD_GET_PSD, CMD_GET_STATUS, CMD_LEN, CMD_SET_DEBOUNCE, DATA_LEN,
};
use crate::settings::BLOCK_LEN;
use vstd::prelude::*;

verus! {

/// How often a transfer is tried.
pub const RETRIES: u8 = 3;

pub const RETRY_DELAY_MS: u64 = 200;

/// The device needs settling before its reply is readable.
pub const REPLY_DELAY_MS: u64 = 30;

pub const WRITE_SETTLE_MS: u64 = 50;

/// The pause before a command whose reply could not be used is sent again.
pub const RESEND_DELAY_MS: u64 = 50;

// ---------------------------------------------------------------------------
// sending a frame
// ---------------------------------------------------------------------------

/// A frame on its way: how often it has failed before, and how long the device
/// is given once it has taken it.
pub struct Sending {
    pub frame: Vec<u8>,
    pub settle_ms: u64,
    pub failures: u8,
}

pub enum SendStep {
    /// Wait, then send the state's frame.
    Send { pause_ms: u64, state: Sending },
    /// Wait, then be done.
    Done { pause_ms: u64, outcome: Result<(), Error> },
}

/// The step after an attempt to send: a failed one is repeated until the
/// retries are used up.
pub open spec fn after_send(state: Sending, outcome: Result<(), Error>) -> SendStep {
    match outcome {
        Ok(()) => SendStep::Done { pause_ms: state.settle_ms, outcome: Ok(()) },
        Err(e) => if state.failures + 1 < RETRIES {
            SendStep::Send {
                pause_ms: RETRY_DELAY_MS,
                state: Sending { failures: (state.failures + 1) as u8, ..state },
            }
        } else {
            SendStep::Done { pause_ms: RETRY_DELAY_MS, outcome: Err(e) }
        },
    }
}

impl Sending {
    /// The step after the frame was sent with the given outcome.
    pub fn sent(self, outcome: Result<(), Error>) -> (step: SendStep)
        ensures
            step == after_send(self, outcome),
    {
        match outcome {
            Ok(()) => SendStep::Done { pause_ms: self.settle_ms, outcome: Ok(()) },
            Err(e) => {
                if self.failures < RETRIES - 1 {
                    SendStep::Send {
                        pause_ms: RETRY_DELAY_MS,
                        state: Sending {
                            frame: self.frame,
                            settle_ms: self.settle_ms,
                            failures: self.failures + 1,
                        },
                    }
                } else {
                    SendStep::Done { pause_ms: RETRY_DELAY_MS, outcome: Err(e) }
                }
            },
        }
    }
}

// ---------------------------------------------------------------------------
// reading the data report
// ---------------------------------------------------------------------------

/// A data report that is waited for: how often the read has failed before.
pub struct ReadingData {
    pub failures: u8,
}

pub enum DataStep {
    /// Wait, then read the data report.
    Receive { pause_ms: u64, state: ReadingData },
    /// Wait, then be done.
    Done { pause_ms: u64, outcome: Result<[u8; DATA_LEN], Error> },
}

/// The step after an attempt to read the data report.
pub open spec fn after_data(state: ReadingData, outcome: Result<[u8; DATA_LEN], Error>) -> DataStep {
    match outcome {
        Ok(raw) => DataStep::Done { pause_ms: 0, outcome: Ok(raw) },
        Err(e) => if state.failures + 1 < RETRIES {
            DataStep::Receive {
                pause_ms: RETRY_DELAY_MS,
                state: ReadingData { failures: (state.failures + 1) as u8 },
            }
        } else {
            DataStep::Done { pause_ms: RETRY_DELAY_MS, outcome: Err(e) }
        },
    }
}

impl ReadingData {
    /// The step after the report was read with the given outcome.
    pub fn received(self, outcome: Result<[u8; DATA_LEN], Error>) -> (step: DataStep)
        ensures
            step == after_data(self, outcome),
    {
        match outcome {
            Ok(raw) => DataStep::Done { pause_ms: 0, outcome: Ok(raw) },
            Err(e) => {
                if self.failures < RETRIES - 1 {
                    DataStep::Receive {
                        pause_ms: RETRY_DELAY_MS,
                        state: ReadingData { failures: self.failures + 1 },
                    }
                } else {
                    DataStep::Done { pause_ms: RETRY_DELAY_MS, outcome: Err(e) }
                }
            },
        }
    }
}

// ---------------------------------------------------------------------------
// a command with a reply
// ---------------------------------------------------------------------------

/// A command on its way: how many rounds have failed before.
pub struct Asking {
    pub cmd: [u8; 5],
    pub rounds: u8,
}

/// A command that was taken, and its reply that is waited for: how often
/// reading it has failed in this round.
pub struct Answering {
    pub cmd: [u8; 5],
    pub rounds: u8,
    pub failures: u8,
}

pub enum CommandStep {
    /// Wait, then send the state's frame.
    Send { pause_ms: u64, state: Asking },
    /// Wait, then read the command report.
    Receive { pause_ms: u64, awaited: Answering },
    /// Wait, then be done.
    Done { pause_ms: u64, outcome: Result<[u8; CMD_LEN], Error> },
}

/// The step after a round that failed: the next round, or the error.
pub open spec fn after_round(cmd: [u8; 5], rounds: u8, pause_ms: u64, e: Error) -> CommandStep {
    if rounds + 1 < RETRIES {
        CommandStep::Send { pause_ms, state: Asking { cmd, rounds: (rounds + 1) as u8 } }
    } else {
        CommandStep::Done { pause_ms, outcome: Err(e) }
    }
}

/// The step after an attempt to send the command.
pub open spec fn after_ask(state: Asking, outcome: Result<(), Error>) -> CommandStep {
    match outcome {
        Ok(()) => CommandStep::Receive {
            pause_ms: REPLY_DELAY_MS,
            awaited: Answering { cmd: state.cmd, rounds: state.rounds, failures: 0 },
        },
        Err(e) => after_round(state.cmd, state.rounds, RETRY_DELAY_MS, e),
    }
}

/// The step after an attempt to read the reply: it is the reply if its byte 1
/// repeats the command's opcode; any other reply ends the round.
pub open spec fn after_answer(
    state: Answering,
    outcome: Result<[u8; CMD_LEN], Error>,
) -> CommandStep {
    match outcome {
        Ok(raw) => if raw@[1] == state.cmd@[0] {
            CommandStep::Done { pause_ms: 0, outcome: Ok(raw) }
        } else {
            after_round(
                state.cmd,
                state.rounds,
                RESEND_DELAY_MS,
                Error::Echo { expected: state.cmd@[0], got: raw@[1] },
            )
        },
        Err(e) => if state.failures + 1 < RETRIES {
            CommandStep::Receive {
                pause_ms: RETRY_DELAY_MS,
                awaited: Answering { failures: (state.failures + 1) as u8, ..state },
            }
        } else {
            after_round(state.cmd, state.rounds, (RETRY_DELAY_MS + RESEND_DELAY_MS) as u64, e)
        },
    }
}

fn round_failed(cmd: [u8; 5], rounds: u8, pause_ms: u64, e: Error) -> (step: CommandStep)
    ensures
        step == after_round(cmd, rounds, pause_ms, e),
{
    if rounds < RETRIES - 1 {
        CommandStep::Send { pause_ms, state: Asking { cmd, rounds: rounds + 1 } }
    } else {
        CommandStep::Done { pause_ms, outcome: Err(e) }
    }
}

impl Asking {
    /// The frame to send.
    pub fn frame(&self) -> (frame: [u8; CMD_LEN])
        ensures
            frame@ == crate::protocol::command_bytes(self.cmd@),
    {
        command_frame(self.cmd)
    }

    /// The step after the frame was sent with the given outcome.
    pub fn sent(self, outcome: Result<(), Error>) -> (step: CommandStep)
        ensures
            step == after_ask(self, outcome),
    {
        match outcome {
            Ok(()) => CommandStep::Receive {
                pause_ms: REPLY_DELAY_MS,
                awaited: Answering { cmd: self.cmd, rounds: self.rounds, failures: 0 },
            },
            Err(e) => round_failed(self.cmd, self.rounds, RETRY_DELAY_MS, e),
        }
    }
}

impl Answering {
    /// The step after the command report was read with the given outcome.
    pub fn received(self, outcome: Result<[u8; CMD_LEN], Error>) -> (step: CommandStep)
        ensures
            step == after_answer(self, outcome),
    {
        match outcome {
            Ok(raw) => {
                if raw[1] == self.cmd[0] {
                    CommandStep::Done { pause_ms: 0, outcome: Ok(raw) }
                } else {
                    round_failed(
                        self.cmd,
                        self.rounds,
                        RESEND_DELAY_MS,
                        Error::Echo { expected: self.cmd[0], got: raw[1] },
                    )
                }
            },
            Err(e) => {
                if self.failures < RETRIES - 1 {
                    CommandStep::Receive {
                        pause_ms: RETRY_DELAY_MS,
                        awaited: Answering {
                            cmd: self.cmd,
                            rounds: self.rounds,
                            failures: self.failures + 1,
                        },
                    }
                } else {
                    round_failed(self.cmd, self.rounds, RETRY_DELAY_MS + RESEND_DELAY_MS, e)
                }
            },
        }
    }
}

// ---------------------------------------------------------------------------
// reading a bank
// ---------------------------------------------------------------------------

/// A bank read whose command is on its way: how many rounds have failed before,
/// whether a report of another bank was turned away, and how often sending the
/// command has failed in this round.
pub struct RequestingBank {
    pub bank: u8,
    pub rounds: u8,
    pub reissued: bool,
    pub failures: u8,
}

/// A bank read whose data report is waited for.
pub struct ReadingBank {
    pub bank: u8,
    pub rounds: u8,
    pub reissued: bool,
    pub reading: ReadingData,
}

pub enum ReportStep {
    /// Wait, then send the state's frame.
    Send { pause_ms: u64, state: RequestingBank },
    /// Wait, then read the data report.
    Receive { pause_ms: u64, awaited: ReadingBank },
    /// Wait, then be done.
    Done { pause_ms: u64, outcome: Result<[u8; DATA_LEN], Error> },
}

/// The step after an attempt to send a bank's command.
pub open spec fn after_bank_request(
    state: RequestingBank,
    outcome: Result<(), Error>,
) -> ReportStep {
    match outcome {
        Ok(()) => ReportStep::Receive {
            pause_ms: REPLY_DELAY_MS,
            awaited: ReadingBank {
                bank: state.bank,
                rounds: state.rounds,
                reissued: state.reissued,
                reading: ReadingData { failures: 0 },
            },
        },
        Err(e) => if state.failures + 1 < RETRIES {
            ReportStep::Send {
                pause_ms: RETRY_DELAY_MS,
                state: RequestingBank { failures: (state.failures + 1) as u8, ..state },
            }
        } else {
            ReportStep::Done { pause_ms: RETRY_DELAY_MS, outcome: Err(e) }
        },
    }
}

/// The step after a round of a bank read that failed with `e`: the bank is
/// asked for again, or the read fails.
pub open spec fn after_bank_round(
    bank: u8,
    rounds: u8,
    reissued: bool,
    pause_ms: u64,
    e: Error,
) -> ReportStep {
    if rounds + 1 < RETRIES {
        ReportStep::Send {
            pause_ms,
            state: RequestingBank { bank, rounds: (rounds + 1) as u8, reissued, failures: 0 },
        }
    } else {
        ReportStep::Done { pause_ms, outcome: Err(e) }
    }
}

/// The step after an attempt to read a bank's data report. A report that names
/// another bank is not accepted the first time.
pub open spec fn after_bank_data(
    state: ReadingBank,
    outcome: Result<[u8; DATA_LEN], Error>,
) -> ReportStep {
    match after_data(state.reading, outcome) {
        DataStep::Receive { pause_ms, state: reading } => ReportStep::Receive {
            pause_ms,
            awaited: ReadingBank { reading, ..state },
        },
        DataStep::Done { pause_ms, outcome: read } => match read {
            Ok(raw) => if state.reissued || !crate::protocol::other_bank_named(raw@, state.bank) {
                ReportStep::Done { pause_ms, outcome: Ok(raw) }
            } else {
                after_bank_round(
                    state.bank,
                    state.rounds,
                    true,
                    RETRY_DELAY_MS,
                    Error::Echo {
                        expected: crate::protocol::opcode_of(state.bank),
                        got: raw@[1],
                    },
                )
            },
            Err(e) => after_bank_round(
                state.bank,
                state.rounds,
                state.reissued,
                (pause_ms + RETRY_DELAY_MS) as u64,
                e,
            ),
        },
    }
}

fn bank_round_failed(bank: u8, rounds: u8, reissued: bool, pause_ms: u64, e: Error) -> (step:
    ReportStep)
    ensures
        step == after_bank_round(bank, rounds, reissued, pause_ms, e),
{
    if rounds < RETRIES - 1 {
        ReportStep::Send {
            pause_ms,
            state: RequestingBank { bank, rounds: rounds + 1, reissued, failures: 0 },
        }
    } else {
        ReportStep::Done { pause_ms, outcome: Err(e) }
    }
}

impl RequestingBank {
    /// The frame to send: a bank read has no control-channel reply; the data
    /// channel answers instead.
    pub fn frame(&self) -> (frame: [u8; CMD_LEN])
        ensures
            frame@ == crate::protocol::command_bytes(
                seq![crate::protocol::opcode_of(self.bank), 0, 0, 0, 0],
            ),
    {
        let cmd = [bank_opcode(self.bank), 0, 0, 0, 0];
        proof {
            assert(cmd@ =~= seq![crate::protocol::opcode_of(self.bank), 0, 0, 0, 0]);
        }
        command_frame(cmd)
    }

    /// The step after the frame was sent with the given outcome.
    pub fn sent(self, outcome: Result<(), Error>) -> (step: ReportStep)
        ensures
            step == after_bank_request(self, outcome),
    {
        match outcome {
            Ok(()) => ReportStep::Receive {
                pause_ms: REPLY_DELAY_MS,
                awaited: ReadingBank {
                    bank: self.bank,
                    rounds: self.rounds,
                    reissued: self.reissued,
                    reading: ReadingData { failures: 0 },
                },
            },
            Err(e) => {
                if self.failures < RETRIES - 1 {
                    ReportStep::Send {
                        pause_ms: RETRY_DELAY_MS,
                        state: RequestingBank {
                            bank: self.bank,
                            rounds: self.rounds,
                            reissued: self.reissued,
                            failures: self.failures + 1,
                        },
                    }
                } else {
                    ReportStep::Done { pause_ms: RETRY_DELAY_MS, outcome: Err(e) }
                }
            },
        }
    }
}

impl ReadingBank {
    /// The step after the data report was read with the given outcome.
    pub fn received(self, outcome: Result<[u8; DATA_LEN], Error>) -> (step: ReportStep)
        ensures
            step == after_bank_data(self, outcome),
    {
        match self.reading.received(outcome) {
            DataStep::Receive { pause_ms, state } => ReportStep::Receive {
                pause_ms,
                awaited: ReadingBank {
                    bank: self.bank,
                    rounds: self.rounds,
                    reissued: self.reissued,
                    reading: state,
                },
            },
            DataStep::Done { pause_ms, outcome: read } => match read {
                Ok(raw) => {
                    if self.reissued || !names_other_bank(raw.as_slice(), self.bank) {
                        ReportStep::Done { pause_ms, outcome: Ok(raw) }
                    } else {
                        bank_round_failed(
                            self.bank,
                            self.rounds,
                            true,
                            RETRY_DELAY_MS,
                            Error::Echo { expected: bank_opcode(self.bank), got: raw[1] },
                        )
                    }
                },
                Err(e) => bank_round_failed(
                    self.bank,
                    self.rounds,
                    self.reissued,
                    pause_ms + RETRY_DELAY_MS,
                    e,
                ),
            },
        }
    }
}

// ---------------------------------------------------------------------------
// the operations
// ---------------------------------------------------------------------------

/// The bytes of a frame.
fn array_bytes<const N: usize>(frame: &[u8; N]) -> (bytes: Vec<u8>)
    ensures
        bytes@ == frame@,
{
    let mut bytes: Vec<u8> = Vec::new();
    let mut i: usize = 0;
    while i < N
        invariant
            i <= N,
            bytes@ == frame@.take(i as int),
        decreases N - i,
    {
        proof {
            assert(frame@.take(i as int + 1) =~= frame@.take(i as int).push(frame@[i as int]));
        }
        bytes.push(frame[i]);
        i += 1;
    }
    proof {
        assert(frame@.take(N as int) =~= frame@);
    }
    bytes
}

/// The first step of a command with a reply.
pub open spec fn asks(step: CommandStep, cmd: Seq<u8>) -> bool {
    step matches CommandStep::Send { pause_ms, state } && pause_ms == 0 && state.cmd@ == cmd
        && state.rounds == 0
}

/// The first step of sending a frame.
pub open spec fn sends(step: SendStep, frame: Seq<u8>, settle_ms: u64) -> bool {
    step matches SendStep::Send { pause_ms, state } && pause_ms == 0 && state.frame@ == frame
        && state.settle_ms == settle_ms && state.failures == 0
}

/// The first step of a bank read.
pub open spec fn first_bank_step(bank: u8) -> ReportStep {
    ReportStep::Send {
        pause_ms: 0,
        state: RequestingBank { bank, rounds: 0, reissued: false, failures: 0 },
    }
}

/// The operations of the control channel, as the steps that they start with.
pub struct Transport {}

impl Transport {
    /// Send a 5-byte command and read back its reply; see [`reply_data`].
    pub fn command(cmd: [u8; 5]) -> (step: CommandStep)
        ensures
            asks(step, cmd@),
    {
        CommandStep::Send { pause_ms: 0, state: Asking { cmd, rounds: 0 } }
    }

    pub fn command_no_reply(cmd: [u8; 5]) -> (step: SendStep)
        ensures
            sends(step, crate::protocol::command_bytes(cmd@), 0),
    {
        let bytes = command_frame(cmd);
        SendStep::Send {
            pause_ms: 0,
            state: Sending { frame: array_bytes(&bytes), settle_ms: 0, failures: 0 },
        }
    }

    /// The battery; see [`reply_status`].
    pub fn status() -> (step: CommandStep)
        ensures
            asks(step, seq![0x90u8, 0, 0, 0, 0]),
    {
        let cmd = [CMD_GET_STATUS, 0, 0, 0, 0];
        proof {
            assert(cmd@ =~= seq![0x90u8, 0, 0, 0, 0]);
        }
        Transport::command(cmd)
    }

    pub fn psd() -> (step: CommandStep)
        ensures
            asks(step, seq![0x01u8, 0, 0, 0, 0]),
    {
        let cmd = [CMD_GET_PSD, 0, 0, 0, 0];
        proof {
            assert(cmd@ =~= seq![0x01u8, 0, 0, 0, 0]);
        }
        Transport::command(cmd)
    }

    /// The mode; see [`reply_mode`].
    pub fn mode() -> (step: CommandStep)
        ensures
            asks(step, seq![0x02u8, 0, 0, 0, 0]),
    {
        let cmd = [CMD_GET_MODE, 0, 0, 0, 0];
        proof {
            assert(cmd@ =~= seq![0x02u8, 0, 0, 0, 0]);
        }
        Transport::command(cmd)
    }

    pub fn set_mode(mode: u8) -> (step: SendStep)
        ensures
            sends(step, crate::protocol::command_bytes(seq![0x02u8, mode, 0, 0, 0]), 0),
    {
        let cmd = [CMD_GET_MODE, mode, 0, 0, 0];
        proof {
            assert(cmd@ =~= seq![0x02u8, mode, 0, 0, 0]);
        }
        Transport::command_no_reply(cmd)
    }

    pub fn set_debounce(value: u8) -> (step: SendStep)
        ensures
            sends(step, crate::protocol::command_bytes(seq![0x1au8, value, 0, 0, 0]), 0),
    {
        let cmd = [CMD_SET_DEBOUNCE, value, 0, 0, 0];
        proof {
            assert(cmd@ =~= seq![0x1au8, value, 0, 0, 0]);
        }
        Transport::command_no_reply(cmd)
    }

    /// Read the whole data report of a bank, re-issuing once if the reply names
    /// another bank (see `names_other_bank`). A bank read has no
    /// control-channel reply; the data channel answers instead.
    pub fn read_report(bank: u8) -> (step: ReportStep)
        ensures
            step == first_bank_step(bank),
    {
        ReportStep::Send {
            pause_ms: 0,
            state: RequestingBank { bank, rounds: 0, reissued: false, failures: 0 },
        }
    }

    /// Read the settings block of a bank (1..3): the block in its data report
    /// (see `report_block`).
    pub fn read_block(bank: u8) -> (step: ReportStep)
        ensures
            step == first_bank_step(bank),
    {
        Transport::read_report(bank)
    }

    /// Write a settings block. Byte 3 (active/enabled level nibbles) is never
    /// touched here - the caller passes a block read back from the device.
    pub fn write_block(bank: u8, block: &[u8; BLOCK_LEN]) -> (step: SendStep)
        ensures
            sends(step, crate::protocol::data_bytes(bank, block@), WRITE_SETTLE_MS),
    {
        let bytes = data_frame(bank, block);
        SendStep::Send {
            pause_ms: 0,
            state: Sending { frame: array_bytes(&bytes), settle_ms: WRITE_SETTLE_MS, failures: 0 },
        }
    }
}

/// The data `d0..d3` of a reply to a command.
pub fn reply_data(raw: &[u8; CMD_LEN]) -> (data: [u8; 4])
    ensures
        data@ == raw@.subrange(2, 6),
{
    let data = [raw[2], raw[3], raw[4], raw[5]];
    proof {
        assert(data@ =~= raw@.subrange(2, 6));
    }
    data
}

/// The mode in the data of a reply.
pub fn reply_mode(data: &[u8; 4]) -> (mode: u8)
    ensures
        mode == data@[0],
{
    data[0]
}

/// The status in the data of a reply.
pub fn reply_status(data: &[u8; 4]) -> (status: Status)
    ensures
        status.state == data@[0],
        status.percent == data@[1],
{
    Status { state: data[0], percent: data[1] }
}

// ---------------------------------------------------------------------------
// whole operations
// ---------------------------------------------------------------------------

/// What sending comes to, given the outcomes of the attempts in order; `None`
/// if it needs more of them.
pub open spec fn send_result(step: SendStep, outcomes: Seq<Result<(), Error>>) -> Option<
    Result<(), Error>,
>
    decreases outcomes.len(),
{
    match step {
        SendStep::Done { outcome, .. } => Some(outcome),
        SendStep::Send { state, .. } => if outcomes.len() == 0 {
            None
        } else {
            send_result(after_send(state, outcomes[0]), outcomes.skip(1))
        },
    }
}

/// What a command comes to, given the outcomes of the sends and of the reads.
pub open spec fn command_result(
    step: CommandStep,
    sends: Seq<Result<(), Error>>,
    reads: Seq<Result<[u8; CMD_LEN], Error>>,
) -> Option<Result<[u8; CMD_LEN], Error>>
    decreases sends.len() + reads.len(),
{
    match step {
        CommandStep::Done { outcome, .. } => Some(outcome),
        CommandStep::Send { state, .. } => if sends.len() == 0 {
            None
        } else {
            command_result(after_ask(state, sends[0]), sends.skip(1), reads)
        },
        CommandStep::Receive { awaited: state, .. } => if reads.len() == 0 {
            None
        } else {
            command_result(after_answer(state, reads[0]), sends, reads.skip(1))
        },
    }
}

/// What a bank read comes to, given the outcomes of the sends and of the reads.
pub open spec fn report_result(
    step: ReportStep,
    sends: Seq<Result<(), Error>>,
    reads: Seq<Result<[u8; DATA_LEN], Error>>,
) -> Option<Result<[u8; DATA_LEN], Error>>
    decreases sends.len() + reads.len(),
{
    match step {
        ReportStep::Done { outcome, .. } => Some(outcome),
        ReportStep::Send { state, .. } => if sends.len() == 0 {
            None
        } else {
            report_result(after_bank_request(state, sends[0]), sends.skip(1), reads)
        },
        ReportStep::Receive { awaited: state, .. } => if reads.len() == 0 {
            None
        } else {
            report_result(after_bank_data(state, reads[0]), sends, reads.skip(1))
        },
    }
}

/// A frame is sent three times at most: it succeeds with the first attempt that
/// does, and fails with the error of the third.
pub proof fn law_a_frame_is_sent_three_times_at_most(
    step: SendStep,
    frame: Seq<u8>,
    settle_ms: u64,
    outcomes: Seq<Result<(), Error>>,
)
    requires
        sends(step, frame, settle_ms),
        outcomes.len() >= 3,
    ensures
        send_result(step, outcomes) == Some(
            if outcomes[0] is Ok || outcomes[1] is Ok || outcomes[2] is Ok {
                Ok(())
            } else {
                outcomes[2]
            },
        ),
{
    reveal_with_fuel(send_result, 4);
    assert(outcomes.skip(1)[0] == outcomes[1]);
    assert(outcomes.skip(1).skip(1)[0] == outcomes[2]);
}

/// How many sends a command can still need.
pub open spec fn sends_left(step: CommandStep) -> int {
    match step {
        CommandStep::Send { state, .. } => RETRIES - state.rounds,
        CommandStep::Receive { awaited: state, .. } => RETRIES - state.rounds - 1,
        CommandStep::Done { .. } => 0,
    }
}

/// How many reads a command can still need.
pub open spec fn reads_left(step: CommandStep) -> int {
    match step {
        CommandStep::Send { state, .. } => RETRIES * (RETRIES - state.rounds),
        CommandStep::Receive { awaited: state, .. } => RETRIES * (RETRIES - state.rounds - 1) + RETRIES
            - state.failures,
        CommandStep::Done { .. } => 0,
    }
}

/// The command that a step is about, and its retries within the policy.
pub open spec fn is_step_of(step: CommandStep, cmd: Seq<u8>) -> bool {
    match step {
        CommandStep::Send { state, .. } => state.cmd@ == cmd && state.rounds < RETRIES,
        CommandStep::Receive { awaited: state, .. } => state.cmd@ == cmd && state.rounds < RETRIES
            && state.failures < RETRIES,
        CommandStep::Done { outcome, .. } => outcome matches Ok(raw) ==> raw@[1] == cmd[0],
    }
}

/// From any step of a command on: it ends within the sends and reads that are
/// left, and a reply that it gives back repeats the command's opcode.
pub proof fn law_a_command_ends_with_its_own_reply(
    step: CommandStep,
    cmd: Seq<u8>,
    sends: Seq<Result<(), Error>>,
    reads: Seq<Result<[u8; CMD_LEN], Error>>,
)
    requires
        is_step_of(step, cmd),
        sends.len() >= sends_left(step),
        reads.len() >= reads_left(step),
    ensures
        command_result(step, sends, reads) matches Some(outcome) && (outcome matches Ok(raw)
            ==> raw@[1] == cmd[0]),
    decreases sends.len() + reads.len(),
{
    match step {
        CommandStep::Done { .. } => {},
        CommandStep::Send { state, .. } => {
            law_a_command_ends_with_its_own_reply(
                after_ask(state, sends[0]),
                cmd,
                sends.skip(1),
                reads,
            );
        },
        CommandStep::Receive { awaited: state, .. } => {
            law_a_command_ends_with_its_own_reply(
                after_answer(state, reads[0]),
                cmd,
                sends,
                reads.skip(1),
            );
        },
    }
}

/// A command takes three sends and nine reads at most, and succeeds only with a
/// reply that repeats its opcode. A reply that does so at once is the answer;
/// a reply that does not makes the command be sent again.
pub proof fn law_a_command_is_bounded(
    step: CommandStep,
    cmd: Seq<u8>,
    sends: Seq<Result<(), Error>>,
    reads: Seq<Result<[u8; CMD_LEN], Error>>,
)
    requires
        asks(step, cmd),
        sends.len() >= 3,
        reads.len() >= 9,
    ensures
        command_result(step, sends, reads) matches Some(outcome) && (outcome matches Ok(raw)
            ==> raw@[1] == cmd[0]),
        sends[0] is Ok && (reads[0] matches Ok(raw) && raw@[1] == cmd[0]) ==> command_result(
            step,
            sends,
            reads,
        ) == Some(reads[0]),
        sends[0] is Ok && sends[1] is Ok && (reads[0] matches Ok(raw) && raw@[1] != cmd[0]) && (
        reads[1] matches Ok(raw) && raw@[1] == cmd[0]) ==> command_result(step, sends, reads)
            == Some(reads[1]),
{
    law_a_command_ends_with_its_own_reply(step, cmd, sends, reads);
    reveal_with_fuel(command_result, 5);
    assert(sends.skip(1)[0] == sends[1]);
    assert(reads.skip(1)[0] == reads[1]);
}

/// How many sends a bank read can still need.
pub open spec fn bank_sends_left(step: ReportStep) -> int {
    match step {
        ReportStep::Send { state, .. } => RETRIES * (RETRIES - state.rounds) - state.failures,
        ReportStep::Receive { awaited: state, .. } => RETRIES * (RETRIES - state.rounds - 1),
        ReportStep::Done { .. } => 0,
    }
}

/// How many reads a bank read can still need.
pub open spec fn bank_reads_left(step: ReportStep) -> int {
    match step {
        ReportStep::Send { state, .. } => RETRIES * (RETRIES - state.rounds),
        ReportStep::Receive { awaited: state, .. } => RETRIES * (RETRIES - state.rounds)
            - state.reading.failures,
        ReportStep::Done { .. } => 0,
    }
}

/// A step of a read of a bank, with its retries within the policy.
pub open spec fn is_bank_step(step: ReportStep, bank: u8) -> bool {
    match step {
        ReportStep::Send { state, .. } => state.bank == bank && state.rounds < RETRIES
            && state.failures < RETRIES,
        ReportStep::Receive { awaited: state, .. } => state.bank == bank && state.rounds < RETRIES
            && state.reading.failures < RETRIES,
        ReportStep::Done { .. } => true,
    }
}

/// From any step of a bank read on: it ends within the sends and reads that are
/// left, and a report that it gives back is one that was read.
pub proof fn law_a_bank_read_ends_with_a_report_it_read(
    step: ReportStep,
    bank: u8,
    sends: Seq<Result<(), Error>>,
    reads: Seq<Result<[u8; DATA_LEN], Error>>,
)
    requires
        is_bank_step(step, bank),
        step !is Done,
        sends.len() >= bank_sends_left(step),
        reads.len() >= bank_reads_left(step),
    ensures
        report_result(step, sends, reads) matches Some(outcome) && (outcome is Ok
            ==> reads.contains(outcome)),
    decreases sends.len() + reads.len(),
{
    reveal_with_fuel(report_result, 2);
    match step {
        ReportStep::Done { .. } => {},
        ReportStep::Send { state, .. } => {
            let next = after_bank_request(state, sends[0]);
            if next !is Done {
                law_a_bank_read_ends_with_a_report_it_read(next, bank, sends.skip(1), reads);
            }
        },
        ReportStep::Receive { awaited: state, .. } => {
            let next = after_bank_data(state, reads[0]);
            let rest = reads.skip(1);
            if next !is Done {
                law_a_bank_read_ends_with_a_report_it_read(next, bank, sends, rest);
                let outcome = report_result(next, sends, rest)->0;
                if outcome is Ok {
                    let i = choose|i: int| 0 <= i < rest.len() && rest[i] == outcome;
                    assert(reads[i + 1] == outcome);
                }
            } else {
                assert(reads[0] is Ok ==> next == (ReportStep::Done {
                    pause_ms: 0,
                    outcome: reads[0],
                }) || next->outcome is Err);
            }
        },
    }
}

/// A bank read takes nine sends and nine reads at most. Where every transfer
/// succeeds, its report is the first one read, unless that one names another
/// bank: then the bank is asked for once more and the second report stands,
/// whatever it names.
pub proof fn law_a_foreign_report_is_asked_for_once_more(
    bank: u8,
    sends: Seq<Result<(), Error>>,
    reads: Seq<Result<[u8; DATA_LEN], Error>>,
)
    requires
        sends.len() >= 9,
        reads.len() >= 9,
    ensures
        report_result(first_bank_step(bank), sends, reads) matches Some(outcome) && (outcome is Ok
            ==> reads.contains(outcome)),
        sends[0] is Ok && sends[1] is Ok && reads[0] is Ok && reads[1] is Ok ==> report_result(
            first_bank_step(bank),
            sends,
            reads,
        ) == Some(
            if crate::protocol::other_bank_named(reads[0]->Ok_0@, bank) {
                reads[1]
            } else {
                reads[0]
            },
        ),
{
    law_a_bank_read_ends_with_a_report_it_read(first_bank_step(bank), bank, sends, reads);
    reveal_with_fuel(report_result, 5);
    assert(sends.skip(1)[0] == sends[1]);
    assert(reads.skip(1)[0] == reads[1]);
}

// ---------------------------------------------------------------------------
// what is sent, and how long is waited
// ---------------------------------------------------------------------------

/// What each operation sends first: the commands with their opcodes and arguments,
/// the request for a bank, and the block to its bank, which is given 50 ms to
/// settle.
pub proof fn law_operations_send_their_frames(
    value: u8,
    bank: u8,
    block: [u8; BLOCK_LEN],
    status: CommandStep,
    psd: CommandStep,
    mode: CommandStep,
    set_mode: SendStep,
    set_debounce: SendStep,
    write: SendStep,
    report: ReportStep,
    read: ReportStep,
)
    requires
        call_ensures(Transport::status, (), status),
        call_ensures(Transport::psd, (), psd),
        call_ensures(Transport::mode, (), mode),
        call_ensures(Transport::set_mode, (value,), set_mode),
        call_ensures(Transport::set_debounce, (value,), set_debounce),
        call_ensures(Transport::write_block, (bank, &block), write),
        call_ensures(Transport::read_report, (bank,), report),
        call_ensures(Transport::read_block, (bank,), read),
    ensures
        status matches CommandStep::Send { pause_ms, state } && pause_ms == 0 && state.cmd@ == seq![
            0x90u8,
            0,
            0,
            0,
            0,
        ] && state.rounds == 0,
        psd matches CommandStep::Send { pause_ms, state } && pause_ms == 0 && state.cmd@ == seq![
            0x01u8,
            0,
            0,
            0,
            0,
        ] && state.rounds == 0,
        mode matches CommandStep::Send { pause_ms, state } && pause_ms == 0 && state.cmd@ == seq![
            0x02u8,
            0,
            0,
            0,
            0,
        ] && state.rounds == 0,
        set_mode matches SendStep::Send { pause_ms, state } && pause_ms == 0 && state.frame@
            == seq![5u8, 0x02, value, 0, 0, 0, 0, 0] && state.settle_ms == 0 && state.failures == 0,
        set_debounce matches SendStep::Send { pause_ms, state } && pause_ms == 0 && state.frame@
            == seq![5u8, 0x1a, value, 0, 0, 0, 0, 0] && state.settle_ms == 0 && state.failures == 0,
        write matches SendStep::Send { pause_ms, state } && pause_ms == 0 && state.frame@
            == crate::protocol::data_bytes(bank, block@) && state.settle_ms == 50 && state.failures
            == 0,
        report matches ReportStep::Send { pause_ms, state } && pause_ms == 0 && state.bank == bank
            && state.rounds == 0 && !state.reissued && state.failures == 0,
        read == report,
{
    assert(crate::protocol::command_bytes(seq![0x02u8, value, 0, 0, 0]) =~= seq![
        5u8,
        0x02,
        value,
        0,
        0,
        0,
        0,
        0,
    ]);
    assert(crate::protocol::command_bytes(seq![0x1au8, value, 0, 0, 0]) =~= seq![
        5u8,
        0x1a,
        value,
        0,
        0,
        0,
        0,
        0,
    ]);
}

/// A frame that was taken is given its time to settle; one that failed is sent
/// again as it is, 200 ms later, until it has failed three times.
pub proof fn law_a_failed_frame_is_sent_again(state: Sending, e: Error)
    ensures
        after_send(state, Ok(())) == (SendStep::Done {
            pause_ms: state.settle_ms,
            outcome: Ok(()),
        }),
        state.failures < 2 ==> (after_send(state, Err(e)) matches SendStep::Send {
            pause_ms,
            state: next,
        } && pause_ms == 200 && next.frame == state.frame && next.settle_ms == state.settle_ms
            && next.failures == state.failures + 1),
        state.failures >= 2 ==> after_send(state, Err(e)) == (SendStep::Done {
            pause_ms: 200,
            outcome: Err(e),
        }),
{
}

/// A command that was taken is given 30 ms before its reply is read. A reply with
/// the command's opcode in byte 1 is the answer; another one makes the command be
/// sent again after 50 ms. A read that failed is repeated after 200 ms, and after
/// three failures the command is sent again 250 ms later. A command that could not
/// be sent is sent again after 200 ms. After three rounds the last error stands.
pub proof fn law_a_command_waits_and_is_repeated(
    asking: Asking,
    answering: Answering,
    raw: [u8; CMD_LEN],
    e: Error,
)
    requires
        asking.rounds < 3,
        answering.rounds < 3,
        answering.failures < 3,
    ensures
        after_ask(asking, Ok(())) == (CommandStep::Receive {
            pause_ms: 30,
            awaited: Answering { cmd: asking.cmd, rounds: asking.rounds, failures: 0 },
        }),
        after_ask(asking, Err(e)) == (if asking.rounds < 2 {
            CommandStep::Send {
                pause_ms: 200,
                state: Asking { cmd: asking.cmd, rounds: (asking.rounds + 1) as u8 },
            }
        } else {
            CommandStep::Done { pause_ms: 200, outcome: Err(e) }
        }),
        raw@[1] == answering.cmd@[0] ==> after_answer(answering, Ok(raw)) == (CommandStep::Done {
            pause_ms: 0,
            outcome: Ok(raw),
        }),
        raw@[1] != answering.cmd@[0] ==> after_answer(answering, Ok(raw)) == (
        if answering.rounds < 2 {
            CommandStep::Send {
                pause_ms: 50,
                state: Asking { cmd: answering.cmd, rounds: (answering.rounds + 1) as u8 },
            }
        } else {
            CommandStep::Done {
                pause_ms: 50,
                outcome: Err(Error::Echo { expected: answering.cmd@[0], got: raw@[1] }),
            }
        }),
        after_answer(answering, Err(e)) == (if answering.failures < 2 {
            CommandStep::Receive {
                pause_ms: 200,
                awaited: Answering { failures: (answering.failures + 1) as u8, ..answering },
            }
        } else if answering.rounds < 2 {
            CommandStep::Send {
                pause_ms: 250,
                state: Asking { cmd: answering.cmd, rounds: (answering.rounds + 1) as u8 },
            }
        } else {
            CommandStep::Done { pause_ms: 250, outcome: Err(e) }
        }),
{
}

/// The request for a bank carries its opcode. It is sent again 200 ms after a
/// failure, and the read fails with the third; once it is taken, 30 ms pass before
/// the report is read.
pub proof fn law_a_bank_is_asked_for_by_its_opcode(
    state: RequestingBank,
    frame: [u8; CMD_LEN],
    e: Error,
)
    requires
        call_ensures(RequestingBank::frame, (&state,), frame),
    ensures
        frame@ == seq![5u8, (state.bank % 16 * 16 + 1) as u8, 0, 0, 0, 0, 0, 0],
        after_bank_request(state, Ok(())) == (ReportStep::Receive {
            pause_ms: 30,
            awaited: ReadingBank {
                bank: state.bank,
                rounds: state.rounds,
                reissued: state.reissued,
                reading: ReadingData { failures: 0 },
            },
        }),
        after_bank_request(state, Err(e)) == (if state.failures < 2 {
            ReportStep::Send {
                pause_ms: 200,
                state: RequestingBank { failures: (state.failures + 1) as u8, ..state },
            }
        } else {
            ReportStep::Done { pause_ms: 200, outcome: Err(e) }
        }),
{
    assert(frame@ =~= seq![5u8, (state.bank % 16 * 16 + 1) as u8, 0, 0, 0, 0, 0, 0]);
}

/// A report that names another bank in byte 1 is turned away the first time and the
/// bank asked for again after 200 ms; any other report, and any report after that,
/// is taken. A read that failed is repeated after 200 ms, and after three failures
/// the bank is asked for again 400 ms later. After three rounds the last error
/// stands.
pub proof fn law_a_report_is_checked_once(state: ReadingBank, raw: [u8; DATA_LEN], e: Error)
    requires
        1 <= state.bank <= 2,
        state.rounds < 3,
        state.reading.failures < 3,
    ensures
        ({
            let foreign = raw@[1] == 0x31 || raw@[1] == 0x11 && state.bank != 1 || raw@[1] == 0x21
                && state.bank != 2;
            let own: u8 = if state.bank == 1 {
                0x11
            } else {
                0x21
            };
            &&& state.reissued || !foreign ==> after_bank_data(state, Ok(raw)) == (
            ReportStep::Done { pause_ms: 0, outcome: Ok(raw) })
            &&& !state.reissued && foreign ==> after_bank_data(state, Ok(raw)) == (
            if state.rounds < 2 {
                ReportStep::Send {
                    pause_ms: 200,
                    state: RequestingBank {
                        bank: state.bank,
                        rounds: (state.rounds + 1) as u8,
                        reissued: true,
                        failures: 0,
                    },
                }
            } else {
                ReportStep::Done {
                    pause_ms: 200,
                    outcome: Err(Error::Echo { expected: own, got: raw@[1] }),
                }
            })
            &&& after_bank_data(state, Err(e)) == (if state.reading.failures < 2 {
                ReportStep::Receive {
                    pause_ms: 200,
                    awaited: ReadingBank {
                        reading: ReadingData { failures: (state.reading.failures + 1) as u8 },
                        ..state
                    },
                }
            } else if state.rounds < 2 {
                ReportStep::Send {
                    pause_ms: 400,
                    state: RequestingBank {
                        bank: state.bank,
                        rounds: (state.rounds + 1) as u8,
                        reissued: state.reissued,
                        failures: 0,
                    },
                }
            } else {
                ReportStep::Done { pause_ms: 400, outcome: Err(e) }
            })
        }),
{
    crate::protocol::law_three_opcodes_name_a_bank(raw@, state.bank);
}

/// A read of the data report alone is repeated 200 ms after a failure, three times
/// in all.
pub proof fn law_a_data_report_is_read_again(
    state: ReadingData,
    raw: [u8; DATA_LEN],
    e: Error,
)
    ensures
        after_data(state, Ok(raw)) == (DataStep::Done { pause_ms: 0, outcome: Ok(raw) }),
        after_data(state, Err(e)) == (if state.failures < 2 {
            DataStep::Receive {
                pause_ms: 200,
                state: ReadingData { failures: (state.failures + 1) as u8 },
            }
        } else {
            DataStep::Done { pause_ms: 200, outcome: Err(e) }
        }),
{
}

/// The data of a reply are its bytes 2 to 5; the mode is the first of them, and a
/// status the first two.
pub proof fn law_a_reply_holds_its_data(
    raw: [u8; CMD_LEN],
    data: [u8; 4],
    mode: u8,
    status: Status,
)
    requires
        call_ensures(reply_data, (&raw,), data),
        call_ensures(reply_mode, (&data,), mode),
        call_ensures(reply_status, (&data,), status),
    ensures
        data@[0] == raw@[2] && data@[1] == raw@[3] && data@[2] == raw@[4] && data@[3] == raw@[5],
        mode == raw@[2],
        status.state == raw@[2],
        status.percent == raw@[3],
{
}

/// Every operation goes on as the laws above say, whatever comes of its transfers.
pub proof fn law_transfers_are_followed_up(
    sending: Sending,
    reading: ReadingData,
    asking: Asking,
    answering: Answering,
    requesting: RequestingBank,
    awaiting: ReadingBank,
    sent: Result<(), Error>,
    reply: Result<[u8; CMD_LEN], Error>,
    report: Result<[u8; DATA_LEN], Error>,
    after_sending: SendStep,
    after_reading: DataStep,
    after_asking: CommandStep,
    after_answering: CommandStep,
    after_requesting: ReportStep,
    after_awaiting: ReportStep,
)
    requires
        call_ensures(Sending::sent, (sending, sent), after_sending),
        call_ensures(ReadingData::received, (reading, report), after_reading),
        call_ensures(Asking::sent, (asking, sent), after_asking),
        call_ensures(Answering::received, (answering, reply), after_answering),
        call_ensures(RequestingBank::sent, (requesting, sent), after_requesting),
        call_ensures(ReadingBank::received, (awaiting, report), after_awaiting),
    ensures
        after_sending == after_send(sending, sent),
        after_reading == after_data(reading, report),
        after_asking == after_ask(asking, sent),
        after_answering == after_answer(answering, reply),
        after_requesting == after_bank_request(requesting, sent),
        after_awaiting == after_bank_data(awaiting, report),
{
}

/// A command is carried by its frame and sent as that frame, with or without a
/// reply.
pub proof fn law_a_command_is_carried_by_its_frame(
    cmd: [u8; 5],
    asking: Asking,
    frame: [u8; CMD_LEN],
    asked: CommandStep,
    sent: SendStep,
)
    requires
        call_ensures(Asking::frame, (&asking,), frame),
        call_ensures(Transport::command, (cmd,), asked),
        call_ensures(Transport::command_no_reply, (cmd,), sent),
    ensures
        frame@.len() == 8,
        frame@[0] == 5,
        frame@.subrange(1, 6) == asking.cmd@,
        frame@[6] == 0 && frame@[7] == 0,
        asked matches CommandStep::Send { pause_ms, state } && pause_ms == 0 && state.cmd@ == cmd@
            && state.rounds == 0,
        sent matches SendStep::Send { pause_ms, state } && pause_ms == 0 && state.settle_ms == 0
            && state.failures == 0 && state.frame@.len() == 8 && state.frame@[0] == 5
            && state.frame@.subrange(1, 6) == cmd@ && state.frame@[6] == 0 && state.frame@[7] == 0,
{
    assert(crate::protocol::command_bytes(asking.cmd@).subrange(1, 6) =~= asking.cmd@);
    assert(crate::protocol::command_bytes(cmd@).subrange(1, 6) =~= cmd@);
}

} // verus!
