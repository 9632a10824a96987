use igm5000::protocol::{bank_opcode, report_block, Error, CMD_LEN, DATA_LEN};
use igm5000::transport::{
    reply_data, reply_mode, reply_status, CommandStep, DataStep, ReadingData, ReportStep, SendStep, Transport,
    REPLY_DELAY_MS, RESEND_DELAY_MS, RETRIES, RETRY_DELAY_MS, WRITE_SETTLE_MS,
};

/// Runs a command on scripted outcomes; gives its result, the frames that were
/// sent, the number of reads and the time it waited.
fn run_command(
    mut step: CommandStep,
    sends: Vec<Result<(), Error>>,
    reads: Vec<Result<[u8; CMD_LEN], Error>>,
) -> (Result<[u8; CMD_LEN], Error>, Vec<[u8; CMD_LEN]>, usize, u64) {
    let mut sends = sends.into_iter();
    let mut reads = reads.into_iter();
    let (mut frames, mut count, mut waited) = (Vec::new(), 0, 0);
    loop {
        step = match step {
            CommandStep::Send { pause_ms, state } => {
                waited += pause_ms;
                frames.push(state.frame());
                state.sent(sends.next().unwrap())
            }
            CommandStep::Receive { pause_ms, awaited } => {
                waited += pause_ms;
                count += 1;
                awaited.received(reads.next().unwrap())
            }
            CommandStep::Done { pause_ms, outcome } => {
                return (outcome, frames, count, waited + pause_ms)
            }
        };
    }
}

fn run_send(mut step: SendStep, outcomes: Vec<Result<(), Error>>) -> (Result<(), Error>, u64) {
    let mut outcomes = outcomes.into_iter();
    let mut waited = 0;
    loop {
        step = match step {
            SendStep::Send { pause_ms, state } => {
                waited += pause_ms;
                state.sent(outcomes.next().unwrap())
            }
            SendStep::Done { pause_ms, outcome } => return (outcome, waited + pause_ms),
        };
    }
}

fn run_report(
    mut step: ReportStep,
    sends: Vec<Result<(), Error>>,
    reads: Vec<Result<[u8; DATA_LEN], Error>>,
) -> (Result<[u8; DATA_LEN], Error>, usize, usize, u64) {
    let mut sends = sends.into_iter();
    let mut reads = reads.into_iter();
    let (mut sent, mut read, mut waited) = (0, 0, 0);
    loop {
        step = match step {
            ReportStep::Send { pause_ms, state } => {
                waited += pause_ms;
                sent += 1;
                assert_eq!(state.frame()[..2], [5, bank_opcode(state.bank)]);
                state.sent(sends.next().unwrap())
            }
            ReportStep::Receive { pause_ms, awaited } => {
                waited += pause_ms;
                read += 1;
                awaited.received(reads.next().unwrap())
            }
            ReportStep::Done { pause_ms, outcome } => {
                return (outcome, sent, read, waited + pause_ms)
            }
        };
    }
}

fn reply(opcode: u8, d0: u8, d1: u8) -> [u8; CMD_LEN] {
    [5, opcode, d0, d1, 3, 4, 0, 0]
}

fn report(byte: u8) -> [u8; DATA_LEN] {
    let mut raw = [0u8; DATA_LEN];
    raw[0] = 8;
    raw[1] = byte;
    raw[8] = 0x77;
    raw
}

#[test]
fn the_pauses_are_the_protocols() {
    assert_eq!(RETRIES, 3);
    assert_eq!(RETRY_DELAY_MS, 200);
    assert_eq!(REPLY_DELAY_MS, 30);
    assert_eq!(WRITE_SETTLE_MS, 50);
    assert_eq!(RESEND_DELAY_MS, 50);
}

#[test]
fn a_reply_that_echoes_the_command_is_taken() {
    let (outcome, frames, reads, waited) = run_command(
        Transport::status(),
        vec![Ok(())],
        vec![Ok(reply(0x90, 0x11, 92))],
    );
    let data = reply_data(&outcome.unwrap());
    assert_eq!(data, [0x11, 92, 3, 4]);
    let status = reply_status(&data);
    assert!(!status.charging());
    assert_eq!(status.percent, 92);
    assert_eq!(frames, [[5, 0x90, 0, 0, 0, 0, 0, 0]]);
    assert_eq!(reads, 1);
    assert_eq!(waited, 30);
}

#[test]
fn the_mode_is_the_first_byte_of_the_data() {
    let (outcome, frames, _, _) = run_command(
        Transport::mode(),
        vec![Ok(())],
        vec![Ok(reply(0x02, 3, 1))],
    );
    assert_eq!(reply_mode(&reply_data(&outcome.unwrap())), 3);
    assert_eq!(frames, [[5, 0x02, 0, 0, 0, 0, 0, 0]]);
}

#[test]
fn a_foreign_reply_makes_the_command_be_sent_again() {
    let (outcome, frames, reads, waited) = run_command(
        Transport::psd(),
        vec![Ok(()), Ok(())],
        vec![Ok(reply(0x02, 0, 0)), Ok(reply(0x01, b'A', b'B'))],
    );
    assert_eq!(reply_data(&outcome.unwrap())[..2], [b'A', b'B']);
    assert_eq!(frames.len(), 2);
    assert_eq!(reads, 2);
    assert_eq!(waited, 30 + 50 + 30);
}

#[test]
fn a_command_gives_up_after_three_rounds() {
    let (outcome, frames, reads, waited) = run_command(
        Transport::mode(),
        vec![Ok(()), Ok(()), Ok(())],
        vec![
            Ok(reply(0x90, 0, 0)),
            Ok(reply(0x91, 0, 0)),
            Ok(reply(0x92, 0, 0)),
        ],
    );
    assert_eq!(
        outcome,
        Err(Error::Echo {
            expected: 0x02,
            got: 0x92
        })
    );
    assert_eq!((frames.len(), reads), (3, 3));
    assert_eq!(waited, 3 * (30 + 50));

    // Nine reads at most, three for each time that the command was sent.
    let stalls: Vec<_> = (0..9).map(|_| Err(Error::IoStall)).collect();
    let (outcome, frames, reads, waited) = run_command(
        Transport::command([1, 2, 3, 4, 5]),
        vec![Ok(()), Ok(()), Ok(())],
        stalls,
    );
    assert_eq!(outcome, Err(Error::IoStall));
    assert_eq!(frames, [[5, 1, 2, 3, 4, 5, 0, 0]; 3]);
    assert_eq!(reads, 9);
    assert_eq!(waited, 3 * (30 + 3 * 200 + 50));
}

#[test]
fn a_failed_send_is_repeated() {
    let (outcome, frames, reads, waited) = run_command(
        Transport::mode(),
        vec![Err(Error::IoStall), Err(Error::Timeout), Err(Error::NoDevice)],
        vec![],
    );
    assert_eq!(outcome, Err(Error::NoDevice));
    assert_eq!((frames.len(), reads, waited), (3, 0, 600));

    let (outcome, waited) = run_send(
        Transport::command_no_reply([0x1a, 4, 0, 0, 0]),
        vec![Err(Error::IoStall), Ok(())],
    );
    assert_eq!((outcome, waited), (Ok(()), 200));
}

#[test]
fn settings_are_sent_without_waiting_for_a_reply() {
    match Transport::set_mode(3) {
        SendStep::Send { pause_ms, state } => {
            assert_eq!(pause_ms, 0);
            assert_eq!(state.frame, [5, 2, 3, 0, 0, 0, 0, 0]);
        }
        SendStep::Done { .. } => panic!("nothing was sent"),
    }
    match Transport::set_debounce(9) {
        SendStep::Send { state, .. } => assert_eq!(state.frame, [5, 0x1a, 9, 0, 0, 0, 0, 0]),
        SendStep::Done { .. } => panic!("nothing was sent"),
    }
    let (outcome, waited) = run_send(Transport::set_mode(1), vec![Ok(())]);
    assert_eq!((outcome, waited), (Ok(()), 0));
}

#[test]
fn a_written_block_is_given_time_to_settle() {
    let block = [0x42u8; 148];
    match Transport::write_block(2, &block) {
        SendStep::Send { state, .. } => {
            assert_eq!(state.frame.len(), DATA_LEN);
            assert_eq!(state.frame[..4], [8, 0x21, 0, 0x92]);
            assert_eq!(state.frame[8..156], block);
        }
        SendStep::Done { .. } => panic!("nothing was sent"),
    }
    let (outcome, waited) = run_send(
        Transport::write_block(2, &block),
        vec![Err(Error::IoStall), Ok(())],
    );
    assert_eq!((outcome, waited), (Ok(()), 250));
    let (outcome, waited) = run_send(
        Transport::write_block(2, &block),
        vec![Err(Error::IoStall), Err(Error::IoStall), Err(Error::Timeout)],
    );
    assert_eq!((outcome, waited), (Err(Error::Timeout), 600));
}

#[test]
fn a_foreign_report_is_asked_for_once_more() {
    let other = bank_opcode(1);
    let (outcome, sent, read, waited) = run_report(
        Transport::read_report(2),
        vec![Ok(()), Ok(())],
        vec![Ok(report(other)), Ok(report(bank_opcode(2)))],
    );
    assert_eq!(outcome.unwrap()[1], bank_opcode(2));
    assert_eq!((sent, read, waited), (2, 2, 30 + 200 + 30));

    // The second one stands, whatever it names.
    let (outcome, sent, read, _) = run_report(
        Transport::read_report(2),
        vec![Ok(()), Ok(())],
        vec![Ok(report(other)), Ok(report(other))],
    );
    assert_eq!(outcome.unwrap()[1], other);
    assert_eq!((sent, read), (2, 2));
}

#[test]
fn a_block_is_read_from_its_report() {
    let (outcome, sent, read, waited) =
        run_report(Transport::read_block(1), vec![Ok(())], vec![Ok(report(0))]);
    assert_eq!(report_block(&outcome.unwrap())[0], 0x77);
    assert_eq!((sent, read, waited), (1, 1, 30));
}

#[test]
fn a_bank_read_gives_up_after_three_rounds() {
    let stalls: Vec<_> = (0..9).map(|_| Err(Error::Timeout)).collect();
    let (outcome, sent, read, waited) = run_report(
        Transport::read_report(1),
        vec![Ok(()), Ok(()), Ok(())],
        stalls,
    );
    assert_eq!(outcome, Err(Error::Timeout));
    assert_eq!((sent, read), (3, 9));
    assert_eq!(waited, 3 * (30 + 3 * 200 + 200));

    // A command that cannot be sent ends the read at once.
    let (outcome, sent, read, waited) = run_report(
        Transport::read_report(1),
        vec![Err(Error::IoStall), Err(Error::IoStall), Err(Error::NoDevice)],
        vec![],
    );
    assert_eq!(outcome, Err(Error::NoDevice));
    assert_eq!((sent, read, waited), (3, 0, 600));
}

#[test]
fn a_foreign_report_in_the_last_round_is_an_error() {
    let (outcome, sent, read, _) = run_report(
        Transport::read_report(2),
        vec![Ok(()), Ok(()), Ok(())],
        vec![
            Err(Error::Timeout),
            Err(Error::Timeout),
            Err(Error::Timeout),
            Err(Error::Timeout),
            Err(Error::Timeout),
            Err(Error::Timeout),
            Ok(report(bank_opcode(3))),
        ],
    );
    assert_eq!(
        outcome,
        Err(Error::Echo {
            expected: bank_opcode(2),
            got: bank_opcode(3)
        })
    );
    assert_eq!((sent, read), (3, 7));
}

#[test]
fn the_data_report_is_read_three_times_at_most() {
    let mut state = ReadingData { failures: 0 };
    for failures in 1..3 {
        match state.received(Err(Error::IoStall)) {
            DataStep::Receive {
                pause_ms,
                state: next,
            } => {
                assert_eq!(pause_ms, 200);
                assert_eq!(next.failures, failures);
                state = next;
            }
            DataStep::Done { .. } => panic!("gave up early"),
        }
    }
    match state.received(Err(Error::IoStall)) {
        DataStep::Done { pause_ms, outcome } => {
            assert_eq!(pause_ms, 200);
            assert_eq!(outcome, Err(Error::IoStall));
        }
        DataStep::Receive { .. } => panic!("did not give up"),
    }
}
