//! What holds of every session, whatever the device answers.
use crate::protocol::{Error, Status};
use crate::session::{Found, Job, Link, Moved, Purpose, Reader, Reply, Request, Session, Stage};
use crate::settings::BLOCK_LEN;
use crate::worker::{Command, EventView};
use vstd::prelude::*;

verus! {

/// What makes a session go on.
pub enum Cause {
    Poll,
    Command(Command),
    Reply(Reply),
}

/// Whether a session can go on by `cause`: between commands by the poll or the
/// next command, else by the reply to its request.
pub open spec fn admits(s: Session, cause: Cause) -> bool {
    match cause {
        Cause::Poll => s.stage is Idle,
        Cause::Command(command) => s.stage is Idle && (command is FactoryReset ==> s.generation
            < u64::MAX),
        Cause::Reply(reply) => crate::session::expects(s.stage, reply),
    }
}

/// One step of a session.
pub open spec fn next(s: Session, cause: Cause) -> Moved {
    match cause {
        Cause::Poll => crate::session::polled(s),
        Cause::Command(command) => crate::session::begun(s, command),
        Cause::Reply(reply) => crate::session::advanced(s, reply),
    }
}

/// The session after a series of steps.
pub open spec fn after(s: Session, causes: Seq<Cause>) -> Session
    decreases causes.len(),
{
    if causes.len() == 0 {
        s
    } else {
        next(after(s, causes.drop_last()), causes.last()).session
    }
}

/// Whether a session can go through a series of steps.
pub open spec fn admits_all(s: Session, causes: Seq<Cause>) -> bool
    decreases causes.len(),
{
    causes.len() > 0 ==> admits_all(s, causes.drop_last()) && admits(
        after(s, causes.drop_last()),
        causes.last(),
    )
}

// ---------------------------------------------------------------------------
// the invariant
// ---------------------------------------------------------------------------

/// A step keeps a session well formed.
pub proof fn law_a_step_keeps_the_session_well_formed(s: Session, cause: Cause)
    requires
        crate::session::well_formed(s),
        admits(s, cause),
    ensures
        crate::session::well_formed(next(s, cause).session),
        next(s, cause).request is Finished <==> next(s, cause).session.stage is Idle,
{
    match cause {
        Cause::Poll => {},
        Cause::Command(command) => {
            if let Command::ApplyBlock { block, .. } = command {
                crate::settings::lemma_block_of_bytes(crate::worker::committed(block@));
            }
        },
        Cause::Reply(reply) => {
            crate::session::lemma_advanced(s, reply);
        },
    }
}

/// Every session of the device thread is well formed, whatever it was told and
/// whatever the device answered.
pub proof fn law_every_session_is_well_formed(s: Session, causes: Seq<Cause>)
    requires
        crate::session::is_new(s),
        admits_all(s, causes),
    ensures
        crate::session::well_formed(after(s, causes)),
    decreases causes.len(),
{
    if causes.len() > 0 {
        law_every_session_is_well_formed(s, causes.drop_last());
        law_a_step_keeps_the_session_well_formed(after(s, causes.drop_last()), causes.last());
    }
}

/// Whether a request is one to the device.
pub open spec fn is_device_request(request: Request) -> bool {
    match request {
        Request::ReadPsd | Request::ReadMode | Request::ReadStatus => true,
        Request::ReadBlock { .. } | Request::ReadReport { .. } => true,
        Request::WriteBlock { .. } => true,
        Request::SetMode { .. } | Request::SetDebounce { .. } => true,
        _ => false,
    }
}

/// The stages in which no request goes to the device.
pub open spec fn is_away(stage: Stage) -> bool {
    stage is Idle || stage is Finding || stage is Opening || stage is Granting || stage is Reopening
}

// ---------------------------------------------------------------------------
// a command ends
// ---------------------------------------------------------------------------

pub open spec fn purpose_work(purpose: Purpose) -> nat {
    match purpose {
        Purpose::FactoryReset { .. } => 2,
        _ => 0,
    }
}

pub open spec fn reader_work(reader: Reader) -> nat {
    match reader {
        Reader::Poll => 0,
        Reader::Reload { .. } => 0,
        Reader::ReadBack { purpose, .. } => 3 + purpose_work(purpose),
        Reader::FactoryReset { .. } => 8,
    }
}

pub open spec fn job_work(job: Job) -> nat {
    match job {
        Job::Poll => 3,
        Job::Refresh => 3,
        Job::Reload => 5,
        Job::Apply { .. } => 6,
        Job::SetMode { .. } => 2,
        Job::SetDebounce { .. } => 1,
        Job::Backup { .. } => 2,
        Job::Restore { .. } => 7,
        Job::FactoryReset { .. } => 12,
    }
}

/// How many replies a stage can still need.
pub open spec fn work_left(stage: Stage) -> nat {
    match stage {
        Stage::Idle => 0,
        Stage::Finding { job } => 8 + job_work(job),
        Stage::Opening { found } => 7 + job_work(found.job),
        Stage::Granting { found } => 6 + job_work(found.job),
        Stage::Reopening { found } => 5 + job_work(found.job),
        Stage::Identifying { found } => 4 + job_work(found.job),
        Stage::AskingMode { found, .. } => 3 + job_work(found.job),
        Stage::ProbingPrimary { found, .. } => 2 + job_work(found.job),
        Stage::ProbingOther { found, .. } => 1 + job_work(found.job),
        Stage::Polling => 3,
        Stage::Refreshing => 3,
        Stage::ReloadingPsd => 5,
        Stage::ReloadingMode => 4,
        Stage::ReloadingStatus { .. } => 3,
        Stage::Reading { reader } => 2 + reader_work(reader),
        Stage::ReadingOther { reader, .. } => 1 + reader_work(reader),
        Stage::Writing { purpose, .. } => 6 + purpose_work(purpose),
        Stage::SwitchingAway { purpose, .. } => 3 + purpose_work(purpose),
        Stage::Settling { purpose, .. } => 2 + purpose_work(purpose),
        Stage::SwitchingBack { purpose, .. } => 1 + purpose_work(purpose),
        Stage::SettingMode { .. } => 2,
        Stage::CheckingMode { .. } => 1,
        Stage::SettingDebounce { .. } => 1,
        Stage::BackupReading { .. } => 2,
        Stage::BackupSaving { .. } => 1,
        Stage::RestoreLoading { .. } => 7,
        Stage::ResetReading { .. } => 12,
        Stage::ResetSaving { .. } => 11,
    }
}

// ---------------------------------------------------------------------------
// the polkit prompt
// ---------------------------------------------------------------------------

/// How often a series of steps asks polkit for access.
pub open spec fn prompts(s: Session, causes: Seq<Cause>) -> nat
    decreases causes.len(),
{
    if causes.len() == 0 {
        0
    } else {
        let before = after(s, causes.drop_last());
        prompts(s, causes.drop_last()) + if next(before, causes.last()).request is GrantAccess {
            1nat
        } else {
            0nat
        }
    }
}

/// Polkit is asked for access at most once per run, however often opening the
/// node is refused.
pub proof fn law_polkit_prompts_once(s: Session, causes: Seq<Cause>)
    requires
        crate::session::is_new(s),
        admits_all(s, causes),
    ensures
        prompts(s, causes) <= 1,
        prompts(s, causes) == 1 <==> after(s, causes).access_requested,
    decreases causes.len(),
{
    if causes.len() > 0 {
        law_polkit_prompts_once(s, causes.drop_last());
        let before = after(s, causes.drop_last());
        lemma_prompt_step(before, causes.last());
    }
}

proof fn lemma_prompt_step(s: Session, cause: Cause)
    requires
        admits(s, cause),
    ensures
        next(s, cause).request is GrantAccess ==> !s.access_requested,
        next(s, cause).session.access_requested == (s.access_requested || next(
            s,
            cause,
        ).request is GrantAccess),
{
}

// ---------------------------------------------------------------------------
// writes
// ---------------------------------------------------------------------------

/// Every block that is written to the device carries the commit marker, without
/// which the device would not make it live.
pub proof fn law_every_write_is_a_profile_save(s: Session, cause: Cause)
    requires
        crate::session::well_formed(s),
        admits(s, cause),
    ensures
        next(s, cause).request matches Request::WriteBlock { block, .. }
            ==> crate::session::is_committed(block),
{
    law_a_step_keeps_the_session_well_formed(s, cause);
    if let Stage::SwitchingAway { block, .. } = next(s, cause).session.stage {
        crate::settings::lemma_block_of_bytes(crate::worker::with_other_level(block@));
    }
}

/// The block that switches away selects another level of the same profile and
/// changes nothing else, and the block of the profile is what is written next.
pub proof fn law_the_mouse_is_switched_away_and_back(
    s: Session,
    block: [u8; BLOCK_LEN],
    purpose: Purpose,
)
    requires
        s.stage == (Stage::Settling { block, purpose }),
        block@[3] % 16 >= 2,
    ensures
        ({
            let away = crate::worker::with_other_level(block@);
            &&& crate::settings::level_count(away) == crate::settings::level_count(block@)
            &&& 1 <= crate::settings::level_number(away) <= crate::settings::level_count(away)
            &&& crate::settings::level_number(block@) >= 1 ==> crate::settings::level_number(away)
                != crate::settings::level_number(block@)
            &&& forall|i: int| 0 <= i < BLOCK_LEN && i != 3 ==> #[trigger] away[i] == block@[i]
        }),
        crate::session::advanced(s, Reply::Paused).request == (Request::WriteBlock {
            bank: s.bank,
            block,
        }),
{
}

/// A written block counts as accepted only if the device gave its exact bytes
/// back: otherwise the block is published as not verified and the command ends
/// without a success.
pub proof fn law_success_takes_the_exact_bytes(
    s: Session,
    block: [u8; BLOCK_LEN],
    purpose: Purpose,
    got: [u8; BLOCK_LEN],
)
    requires
        s.stage == (Stage::Reading { reader: Reader::ReadBack { block, purpose } }),
    ensures
        ({
            let m = crate::session::advanced(s, Reply::Block(Ok(got)));
            let last = m.session.last_block;
            &&& m.events.len() >= 2
            &&& m.events[1] == (EventView::Block {
                block: got@,
                generation: s.generation,
                verified: got@ == block@,
            })
            &&& last == Some(got)
            &&& got@ != block@ ==> {
                &&& m.request == (Request::Finished { running: true })
                &&& forall|i: int| 0 <= i < m.events.len() ==> !(#[trigger] m.events[i] is Note)
                &&& purpose !is Edit ==> m.events.last() is Error
            }
        }),
{
}

/// The factory profile is written over the bytes that were just read, so what is
/// not part of the profile survives a reset, and it takes the next generation.
pub proof fn law_a_reset_writes_the_factory_profile(
    s: Session,
    backup_path: String,
    got: [u8; BLOCK_LEN],
)
    requires
        s.stage == (Stage::Reading { reader: Reader::FactoryReset { backup_path } }),
        s.generation < u64::MAX,
    ensures
        ({
            let m = crate::session::advanced(s, Reply::Block(Ok(got)));
            &&& m.session.generation == s.generation + 1
            &&& m.request matches Request::WriteBlock { bank, block } && bank == s.bank && block@
                == crate::worker::committed(crate::settings::factory_bytes(got@))
        }),
{
    crate::settings::lemma_block_of_bytes(
        crate::worker::committed(crate::settings::factory_bytes(got@)),
    );
}

// ---------------------------------------------------------------------------
// a reset can be undone
// ---------------------------------------------------------------------------

/// The job that a session is connecting for.
pub open spec fn waiting_job(stage: Stage) -> Option<Job> {
    match stage {
        Stage::Finding { job } => Some(job),
        Stage::Opening { found } | Stage::Granting { found } | Stage::Reopening { found }
        | Stage::Identifying { found } => Some(found.job),
        Stage::AskingMode { found, .. } => Some(found.job),
        Stage::ProbingPrimary { found, .. } | Stage::ProbingOther { found, .. } => Some(found.job),
        _ => None,
    }
}

/// A factory reset that has not saved the current state yet.
pub open spec fn unsaved(stage: Stage, path: String) -> bool {
    ||| waiting_job(stage) == Some(Job::FactoryReset { backup_path: path })
    ||| stage == (Stage::ResetReading { backup_path: path })
    ||| stage == (Stage::ResetSaving { backup_path: path })
}

pub open spec fn as_causes(replies: Seq<Reply>) -> Seq<Cause> {
    replies.map_values(|reply: Reply| Cause::Reply(reply))
}

/// A session that has just been told to reset.
pub open spec fn reset_begun(s: Session, path: String) -> Moved {
    crate::session::begun(s, Command::FactoryReset { backup_path: path })
}

/// The session of a reset after the replies to its requests.
pub open spec fn reset_session(s: Session, path: String, replies: Seq<Reply>) -> Session {
    after(reset_begun(s, path).session, as_causes(replies))
}

/// What a reset asks for once it has had the replies to its earlier requests.
pub open spec fn reset_request(s: Session, path: String, replies: Seq<Reply>) -> Request {
    if replies.len() == 0 {
        reset_begun(s, path).request
    } else {
        crate::session::advanced(
            reset_session(s, path, replies.drop_last()),
            replies.last(),
        ).request
    }
}

/// Whether the reply at `i` is that the state of a bank was saved: the report of
/// the bank was asked for and read, it was to be saved under the path of the
/// reset as it was read, and that succeeded.
pub open spec fn saved_at(
    s: Session,
    path: String,
    replies: Seq<Reply>,
    bank: u8,
    i: int,
) -> bool {
    &&& reset_request(s, path, replies.take(i - 1)) == (Request::ReadReport { bank })
    &&& replies[i - 1] matches Reply::Report(Ok(data)) && reset_request(s, path, replies.take(i))
        == (Request::SaveFile { path, data })
    &&& replies[i] matches Reply::Saved(Ok(_))
}

/// Whether a reset has saved the state of a bank.
pub open spec fn state_saved(s: Session, path: String, replies: Seq<Reply>, bank: u8) -> bool {
    exists|i: int| 0 < i < replies.len() && #[trigger] saved_at(s, path, replies, bank, i)
}

/// What a reply to an unsaved reset brings: it stays unsaved, ends, or the reply
/// is that the state was saved. The bank whose report is asked for stays the bank
/// of the session.
spec fn stays_unsaved(s: Session, path: String, reply: Reply) -> bool {
    let m = crate::session::advanced(s, reply);
    &&& m.session.stage is Idle || unsaved(m.session.stage, path) || s.stage is ResetSaving && (
    reply matches Reply::Saved(Ok(_))) && m.session.stage is Reading
    &&& m.session.stage is ResetReading ==> m.request == (Request::ReadReport {
        bank: m.session.bank,
    })
    &&& m.session.stage is ResetSaving ==> s.stage is ResetReading && m.session.bank_confirmed && (
    reply matches Reply::Report(Ok(data)) && m.request == (Request::SaveFile { path, data }))
    &&& waiting_job(s.stage) is None ==> m.session.bank == s.bank && waiting_job(
        m.session.stage,
    ) is None && m.session.stage !is ResetReading
    &&& s.stage is ResetSaving ==> m.session.link == s.link && m.session.bank_confirmed
        == s.bank_confirmed
    &&& m.request !is WriteBlock
}

proof fn lemma_unsaved_connecting(s: Session, path: String, reply: Reply)
    requires
        waiting_job(s.stage) == Some(Job::FactoryReset { backup_path: path }),
        crate::session::expects(s.stage, reply),
    ensures
        stays_unsaved(s, path, reply),
{
}

proof fn lemma_unsaved_step(s: Session, path: String, reply: Reply)
    requires
        unsaved(s.stage, path),
        crate::session::expects(s.stage, reply),
    ensures
        stays_unsaved(s, path, reply),
{
    if waiting_job(s.stage) is Some {
        lemma_unsaved_connecting(s, path, reply);
    }
}

/// The stages of a reset once the current state has been saved.
spec fn is_written_stage(stage: Stage) -> bool {
    stage is Reading || stage is Writing || stage is SwitchingAway || stage is Settling || stage
        is SwitchingBack || stage is SettingMode || stage is CheckingMode
}

/// Where a reset can stand after its replies.
spec fn reset_stands(s: Session, path: String, replies: Seq<Reply>) -> bool {
    let now = reset_session(s, path, replies);
    let request = reset_request(s, path, replies);
    &&& crate::session::well_formed(now)
    &&& s.link is Some ==> now.bank == s.bank && waiting_job(now.stage) is None
    &&& {
        ||| now.stage is Idle
        ||| waiting_job(now.stage) == Some(Job::FactoryReset { backup_path: path })
        ||| now.stage == (Stage::ResetReading { backup_path: path }) && request == (
        Request::ReadReport { bank: now.bank })
        ||| now.stage == (Stage::ResetSaving { backup_path: path }) && now.bank_confirmed
            && replies.len() > 0 && (replies.last() matches Reply::Report(Ok(data)) && request == (
        Request::SaveFile { path, data })) && reset_request(s, path, replies.drop_last()) == (
        Request::ReadReport { bank: now.bank })
        ||| now.link is Some && now.bank_confirmed && is_written_stage(now.stage) && state_saved(
            s,
            path,
            replies,
            now.bank,
        )
    }
}

/// What has been saved stays saved.
proof fn lemma_saved_before(s: Session, path: String, replies: Seq<Reply>, bank: u8)
    requires
        replies.len() > 0,
        state_saved(s, path, replies.drop_last(), bank),
    ensures
        state_saved(s, path, replies, bank),
{
    let fewer = replies.drop_last();
    let i = choose|i: int|
        0 < i < fewer.len() && #[trigger] saved_at(s, path, fewer, bank, i);
    assert(replies.take(i - 1) =~= fewer.take(i - 1));
    assert(replies.take(i) =~= fewer.take(i));
    assert(saved_at(s, path, replies, bank, i));
}

/// The step that a reset takes by its last reply.
proof fn lemma_reset_last(s: Session, path: String, replies: Seq<Reply>)
    requires
        replies.len() > 0,
        admits_all(reset_begun(s, path).session, as_causes(replies)),
    ensures
        ({
            let before = reset_session(s, path, replies.drop_last());
            let m = crate::session::advanced(before, replies.last());
            &&& crate::session::expects(before.stage, replies.last())
            &&& reset_session(s, path, replies) == m.session
            &&& reset_request(s, path, replies) == m.request
        }),
{
    let causes = as_causes(replies);
    assert(causes.drop_last() =~= as_causes(replies.drop_last()));
    assert(causes.last() == Cause::Reply(replies.last()));
}

/// A saved reset stays with its bank.
proof fn lemma_saved_step(s: Session, reply: Reply)
    requires
        crate::session::well_formed(s),
        crate::session::expects(s.stage, reply),
        s.link is Some,
        s.bank_confirmed,
        is_written_stage(s.stage),
    ensures
        ({
            let m = crate::session::advanced(s, reply);
            &&& crate::session::well_formed(m.session)
            &&& m.session.bank == s.bank
            &&& m.session.stage is Idle || m.session.link is Some
            &&& m.session.bank_confirmed
            &&& m.session.stage is Idle || is_written_stage(m.session.stage)
            &&& m.request matches Request::WriteBlock { bank, .. } ==> bank == s.bank
        }),
{
    law_a_step_keeps_the_session_well_formed(s, Cause::Reply(reply));
    lemma_goes_on(s, reply);
    law_a_confirmed_bank_stays(s, Cause::Reply(reply));
    law_a_lost_link_is_announced(s, reply);
}

/// One more reply to a reset that is connecting.
proof fn lemma_reset_connecting(s: Session, path: String, replies: Seq<Reply>)
    requires
        replies.len() > 0,
        reset_stands(s, path, replies.drop_last()),
        waiting_job(reset_session(s, path, replies.drop_last()).stage) == Some(
            Job::FactoryReset { backup_path: path },
        ),
        admits_all(reset_begun(s, path).session, as_causes(replies)),
    ensures
        reset_stands(s, path, replies),
        reset_request(s, path, replies) !is WriteBlock,
{
    let before = reset_session(s, path, replies.drop_last());
    lemma_reset_last(s, path, replies);
    law_a_step_keeps_the_session_well_formed(before, Cause::Reply(replies.last()));
    lemma_unsaved_step(before, path, replies.last());
}

/// The reply to the request for the report.
proof fn lemma_reset_reading(s: Session, path: String, replies: Seq<Reply>)
    requires
        replies.len() > 0,
        reset_stands(s, path, replies.drop_last()),
        reset_session(s, path, replies.drop_last()).stage == (Stage::ResetReading {
            backup_path: path,
        }),
        admits_all(reset_begun(s, path).session, as_causes(replies)),
    ensures
        reset_stands(s, path, replies),
        reset_request(s, path, replies) !is WriteBlock,
{
    let before = reset_session(s, path, replies.drop_last());
    lemma_reset_last(s, path, replies);
    law_a_step_keeps_the_session_well_formed(before, Cause::Reply(replies.last()));
    lemma_unsaved_step(before, path, replies.last());
    assert(reset_request(s, path, replies.drop_last()) == (Request::ReadReport {
        bank: before.bank,
    }));
}

/// The reply to the request to save the report.
proof fn lemma_reset_saving(s: Session, path: String, replies: Seq<Reply>)
    requires
        replies.len() > 0,
        reset_stands(s, path, replies.drop_last()),
        reset_session(s, path, replies.drop_last()).stage == (Stage::ResetSaving {
            backup_path: path,
        }),
        admits_all(reset_begun(s, path).session, as_causes(replies)),
    ensures
        reset_stands(s, path, replies),
        reset_request(s, path, replies) !is WriteBlock,
{
    let before = reset_session(s, path, replies.drop_last());
    lemma_reset_last(s, path, replies);
    law_a_step_keeps_the_session_well_formed(before, Cause::Reply(replies.last()));
    lemma_unsaved_step(before, path, replies.last());
    if replies.last() matches Reply::Saved(Ok(_)) {
        let i = replies.len() - 1;
        let fewer = replies.drop_last();
        assert(replies.take(i) =~= fewer);
        assert(replies.take(i - 1) =~= fewer.drop_last());
        assert(replies[i - 1] == fewer.last());
        assert(saved_at(s, path, replies, before.bank, i));
    }
}

/// One more reply to a reset.
proof fn lemma_reset_step(s: Session, path: String, replies: Seq<Reply>)
    requires
        replies.len() > 0,
        reset_stands(s, path, replies.drop_last()),
        admits_all(reset_begun(s, path).session, as_causes(replies)),
    ensures
        reset_stands(s, path, replies),
        reset_request(s, path, replies) matches Request::WriteBlock { bank, .. } ==> state_saved(
            s,
            path,
            replies,
            bank,
        ) && (s.link is Some ==> bank == s.bank),
{
    let before = reset_session(s, path, replies.drop_last());
    lemma_reset_last(s, path, replies);
    if waiting_job(before.stage) == Some(Job::FactoryReset { backup_path: path }) {
        lemma_reset_connecting(s, path, replies);
    } else if before.stage == (Stage::ResetReading { backup_path: path }) {
        lemma_reset_reading(s, path, replies);
    } else if before.stage == (Stage::ResetSaving { backup_path: path }) {
        lemma_reset_saving(s, path, replies);
    } else {
        lemma_saved_before(s, path, replies, before.bank);
        lemma_saved_step(before, replies.last());
    }
}

proof fn lemma_reset_stands(s: Session, path: String, replies: Seq<Reply>)
    requires
        s.stage is Idle,
        s.generation < u64::MAX,
        admits_all(reset_begun(s, path).session, as_causes(replies)),
    ensures
        reset_stands(s, path, replies),
    decreases replies.len(),
{
    if replies.len() > 0 {
        assert(as_causes(replies).drop_last() =~= as_causes(replies.drop_last()));
        lemma_reset_stands(s, path, replies.drop_last());
        lemma_reset_step(s, path, replies);
    } else {
        law_a_step_keeps_the_session_well_formed(
            s,
            Cause::Command(Command::FactoryReset { backup_path: path }),
        );
    }
}

/// A reset has to be undoable: whatever a factory reset writes to the device goes
/// to a bank whose report has been read and saved before, which is the bank of
/// the session where the link was open.
pub proof fn law_a_reset_is_saved_before_it_is_written(
    s: Session,
    path: String,
    replies: Seq<Reply>,
)
    requires
        s.stage is Idle,
        s.generation < u64::MAX,
        admits_all(reset_begun(s, path).session, as_causes(replies)),
        reset_request(s, path, replies) is WriteBlock,
    ensures
        reset_request(s, path, replies) matches Request::WriteBlock { bank, .. } && state_saved(
            s,
            path,
            replies,
            bank,
        ) && (s.link is Some ==> bank == s.bank),
{
    if replies.len() > 0 {
        assert(as_causes(replies).drop_last() =~= as_causes(replies.drop_last()));
        lemma_reset_stands(s, path, replies.drop_last());
        lemma_reset_step(s, path, replies);
    }
}

/// What a reset saves is what the device reported, under the path it was given.
pub proof fn law_a_reset_saves_what_was_read(s: Session, path: String, reply: Reply)
    requires
        s.stage == (Stage::ResetReading { backup_path: path }),
        crate::session::expects(s.stage, reply),
    ensures
        match reply {
            Reply::Report(Ok(data)) => crate::session::advanced(s, reply).request == (
            Request::SaveFile { path, data }),
            _ => crate::session::advanced(s, reply).request is Finished,
        },
{
}

// ---------------------------------------------------------------------------
// the link
// ---------------------------------------------------------------------------

/// The error in a reply.
pub open spec fn error_in(reply: Reply) -> Option<Error> {
    match reply {
        Reply::Node(Err(e)) => Some(e),
        Reply::Done(Err(e)) => Some(e),
        Reply::Psd(Err(e)) => Some(e),
        Reply::Mode(Err(e)) => Some(e),
        Reply::Status(Err(e)) => Some(e),
        Reply::Block(Err(e)) => Some(e),
        Reply::Report(Err(e)) => Some(e),
        _ => None,
    }
}

/// Only a fatal error makes a session give up its link: a transfer that was not
/// acknowledged, a missing reply or one to something else leaves it open.
pub proof fn law_transient_errors_keep_the_link(s: Session, cause: Cause)
    requires
        crate::session::well_formed(s),
        admits(s, cause),
        s.link is Some,
        next(s, cause).session.link is None,
    ensures
        ({
            &&& cause is Reply
            &&& match s.stage {
                Stage::ReadingOther { first, .. } => crate::protocol::error_is_fatal(first),
                _ => error_in(cause->Reply_0) matches Some(e) && crate::protocol::error_is_fatal(e),
            }
        }),
{
}

/// A bank that a read has confirmed stays the bank of the open link.
pub proof fn law_a_confirmed_bank_stays(s: Session, cause: Cause)
    requires
        crate::session::well_formed(s),
        admits(s, cause),
        s.link is Some,
        s.bank_confirmed,
        s.stage !is ReadingOther,
    ensures
        next(s, cause).session.bank == s.bank,
        next(s, cause).session.bank_confirmed,
        next(s, cause).session.stage !is ReadingOther,
{
}

// ---------------------------------------------------------------------------
// what is published
// ---------------------------------------------------------------------------

/// Whether the end of the connection is among the events.
pub open spec fn announces_disconnection(events: Seq<EventView>) -> bool
    decreases events.len(),
{
    events.len() > 0 && (events.last() is Disconnected || announces_disconnection(
        events.drop_last(),
    ))
}

/// Whether every block among the events carries the given generation.
pub open spec fn blocks_carry(events: Seq<EventView>, generation: u64) -> bool
    decreases events.len(),
{
    events.len() > 0 ==> (events.last() matches EventView::Block { generation: own, .. } ==> own
        == generation) && blocks_carry(events.drop_last(), generation)
}

/// Whether the consumer was last told that the session is busy.
pub open spec fn told_busy(before: bool, events: Seq<EventView>) -> bool
    decreases events.len(),
{
    if events.len() == 0 {
        before
    } else {
        match events.last() {
            EventView::Busy { busy, .. } => busy,
            _ => told_busy(before, events.drop_last()),
        }
    }
}

/// The stages in which the consumer is shown that the session is busy.
pub open spec fn is_busy(stage: Stage) -> bool {
    match stage {
        Stage::Reading { reader } => reader is ReadBack || reader is FactoryReset,
        Stage::ReadingOther { reader, .. } => reader is ReadBack || reader is FactoryReset,
        Stage::Writing { .. } => true,
        Stage::BackupReading { .. } | Stage::BackupSaving { .. } => true,
        Stage::ResetReading { .. } | Stage::ResetSaving { .. } => true,
        _ => false,
    }
}

broadcast proof fn lemma_announces_push(events: Seq<EventView>, event: EventView)
    ensures
        #[trigger] announces_disconnection(events.push(event)) == (event is Disconnected
            || announces_disconnection(events)),
{
    assert(events.push(event).drop_last() =~= events);
}

broadcast proof fn lemma_carry_push(events: Seq<EventView>, event: EventView, generation: u64)
    ensures
        #[trigger] blocks_carry(events.push(event), generation) == ((event matches
            EventView::Block { generation: own, .. } ==> own == generation) && blocks_carry(
            events,
            generation,
        )),
{
    assert(events.push(event).drop_last() =~= events);
}

broadcast proof fn lemma_busy_push(before: bool, events: Seq<EventView>, event: EventView)
    ensures
        #[trigger] told_busy(before, events.push(event)) == match event {
            EventView::Busy { busy, .. } => busy,
            _ => told_busy(before, events),
        },
{
    assert(events.push(event).drop_last() =~= events);
}

broadcast group group_events {
    lemma_announces_push,
    lemma_carry_push,
    lemma_busy_push,
}

/// What is published agrees with the session that publishes it, where `busy` is
/// what the consumer was told last.
pub open spec fn is_consistent(busy: bool, m: Moved) -> bool {
    &&& announces_disconnection(m.events) ==> m.session.link is None && m.request is Finished
    &&& m.session.link is None && m.session.stage is Idle ==> announces_disconnection(m.events)
    &&& blocks_carry(m.events, m.session.generation)
    &&& told_busy(busy, m.events) == is_busy(m.session.stage)
    &&& is_device_request(m.request) ==> !is_away(m.session.stage)
    &&& m.request matches Request::WriteBlock { bank, .. } ==> bank == m.session.bank
}

/// The events of a session that goes on with an open link.
pub open spec fn is_quiet(busy: bool, s: Session, ev: Seq<EventView>) -> bool {
    &&& s.link is Some
    &&& !announces_disconnection(ev)
    &&& blocks_carry(ev, s.generation)
    &&& told_busy(busy, ev) == false
}

proof fn lemma_job_started(s: Session, ev: Seq<EventView>, job: Job)
    requires
        is_quiet(false, s, ev),
    ensures
        is_consistent(false, crate::session::job_started(s, ev, job)),
        work_left(crate::session::job_started(s, ev, job).session.stage) == job_work(job),
        crate::session::job_started(s, ev, job).session.generation == s.generation,
        crate::session::job_started(s, ev, job).request !is Finished,
        crate::session::job_started(s, ev, job).session.link is Some,
{
    broadcast use group_events;

}

proof fn lemma_accepted(busy: bool, s: Session, ev: Seq<EventView>, purpose: Purpose)
    requires
        is_quiet(busy, s, ev),
    ensures
        is_consistent(busy, crate::session::accepted(s, ev, purpose)),
        work_left(crate::session::accepted(s, ev, purpose).session.stage) <= purpose_work(purpose),
        crate::session::accepted(s, ev, purpose).session.generation == s.generation,
        crate::session::accepted(s, ev, purpose).session.link is Some,
{
    broadcast use group_events;

}

proof fn lemma_read_back(
    s: Session,
    block: [u8; BLOCK_LEN],
    purpose: Purpose,
    got: [u8; BLOCK_LEN],
)
    requires
        s.link is Some,
    ensures
        is_consistent(true, crate::session::read_back(s, block, purpose, got)),
        work_left(crate::session::read_back(s, block, purpose, got).session.stage) <= 3
            + purpose_work(purpose),
        crate::session::read_back(s, block, purpose, got).session.generation == s.generation,
        crate::session::read_back(s, block, purpose, got).session.link is Some,
{
    broadcast use group_events;

    let ev = seq![crate::session::not_busy()].push(
        EventView::Block {
            block: got@,
            generation: s.generation,
            verified: got@ == block@,
        },
    );
    let known = Session { last_block: Some(got), ..s };
    assert(is_quiet(true, known, ev));
    lemma_accepted(true, known, ev, purpose);
}

proof fn lemma_profile_read(s: Session, reader: Reader, got: [u8; BLOCK_LEN])
    requires
        s.link is Some,
        crate::session::reader_fits(s, reader),
    ensures
        ({
            let m = crate::session::profile_read(s, reader, got);
            &&& is_consistent(reader is ReadBack || reader is FactoryReset, m)
            &&& work_left(m.session.stage) <= reader_work(reader)
            &&& m.session.generation == s.generation || m.session.generation == s.generation + 1
                && m.request is WriteBlock
            &&& m.session.link is Some
        }),
{
    broadcast use group_events;

    if let Reader::ReadBack { block, purpose } = reader {
        lemma_read_back(s, block, purpose, got);
    }
}

proof fn lemma_profile_not_read(s: Session, reader: Reader, e: Error)
    requires
        s.link is Some,
    ensures
        ({
            let m = crate::session::profile_not_read(s, reader, e);
            &&& is_consistent(reader is ReadBack || reader is FactoryReset, m)
            &&& m.session.stage is Idle
            &&& m.request is Finished
            &&& m.session.generation == s.generation
        }),
{
    broadcast use group_events;

}

/// What every reply brings: consistent events, less work, and a generation that
/// only a write can have counted on.
pub open spec fn goes_on(s: Session, m: Moved) -> bool {
    &&& is_consistent(is_busy(s.stage), m)
    &&& work_left(m.session.stage) < work_left(s.stage)
    &&& m.session.generation == s.generation || m.session.generation == s.generation + 1
        && m.request is WriteBlock
}

proof fn lemma_connected(
    s: Session,
    found: Found,
    psd: [u8; 4],
    mode: u8,
    bank: u8,
    probe: Option<[u8; BLOCK_LEN]>,
)
    ensures
        ({
            let m = crate::session::connected(s, found, psd, mode, bank, probe);
            &&& is_consistent(false, m)
            &&& work_left(m.session.stage) == job_work(found.job)
            &&& m.session.generation == s.generation
        }),
{
    broadcast use group_events;

    let open = Session {
        link: Some(Link { path: found.path, pid: found.pid }),
        psd,
        bank,
        bank_confirmed: probe is Some,
        last_block: probe,
        ..s
    };
    let hello = seq![
        EventView::Connected { path: found.path@, pid: found.pid, psd: psd@, mode, bank },
    ].push(EventView::Mode(mode));
    assert(is_quiet(false, open, hello));
    match probe {
        Some(block) => {
            let ev = hello.push(
                EventView::Block { block: block@, generation: s.generation, verified: true },
            );
            assert(is_quiet(false, open, ev));
            lemma_job_started(open, ev, found.job);
        },
        None => {
            lemma_job_started(open, hello, found.job);
        },
    }
}

proof fn lemma_connecting_goes_on(s: Session, reply: Reply)
    requires
        waiting_job(s.stage) is Some,
        s.link is None,
        crate::session::expects(s.stage, reply),
    ensures
        goes_on(s, crate::session::advanced(s, reply)),
{
    broadcast use group_events;

    match (s.stage, reply) {
        (Stage::ProbingPrimary { found, psd, mode }, Reply::Block(Ok(block))) => {
            lemma_connected(
                s,
                found,
                psd,
                mode,
                crate::session::primary_bank(found.pid),
                Some(block),
            );
        },
        (Stage::ProbingOther { found, psd, mode }, Reply::Block(Ok(block))) => {
            lemma_connected(
                s,
                found,
                psd,
                mode,
                crate::session::other_bank(crate::session::primary_bank(found.pid)),
                Some(block),
            );
        },
        (Stage::ProbingOther { found, psd, mode }, Reply::Block(Err(_))) => {
            lemma_connected(s, found, psd, mode, crate::session::primary_bank(found.pid), None);
        },
        _ => {},
    }
}

proof fn lemma_reading_goes_on(s: Session, reply: Reply)
    requires
        s.stage is Polling || s.stage is Refreshing || s.stage is ReloadingPsd || s.stage
            is ReloadingMode || s.stage is ReloadingStatus || s.stage is Reading || s.stage is ReadingOther,
        crate::session::well_formed(s),
        crate::session::expects(s.stage, reply),
    ensures
        goes_on(s, crate::session::advanced(s, reply)),
{
    broadcast use group_events;

    match (s.stage, reply) {
        (Stage::Reading { reader }, Reply::Block(Ok(block))) => {
            lemma_profile_read(Session { bank_confirmed: true, ..s }, reader, block);
        },
        (Stage::Reading { reader }, Reply::Block(Err(e))) => {
            lemma_profile_not_read(s, reader, e);
        },
        (Stage::ReadingOther { reader, .. }, Reply::Block(Ok(block))) => {
            lemma_profile_read(
                Session { bank: crate::session::other_bank(s.bank), bank_confirmed: true, ..s },
                reader,
                block,
            );
        },
        (Stage::ReadingOther { reader, first }, Reply::Block(Err(_))) => {
            lemma_profile_not_read(s, reader, first);
        },
        _ => {},
    }
}

proof fn lemma_writing_goes_on(s: Session, reply: Reply)
    requires
        s.stage is Writing || s.stage is SwitchingAway || s.stage is Settling || s.stage
            is SwitchingBack,
        crate::session::well_formed(s),
        crate::session::expects(s.stage, reply),
    ensures
        goes_on(s, crate::session::advanced(s, reply)),
{
    broadcast use group_events;

    match (s.stage, reply) {
        (Stage::SwitchingAway { purpose, .. }, Reply::Done(Err(_))) => {
            lemma_accepted(false, s, Seq::empty(), purpose);
        },
        (Stage::SwitchingBack { purpose, .. }, Reply::Done(Ok(()))) => {
            lemma_accepted(false, s, Seq::empty(), purpose);
        },
        (Stage::SwitchingBack { purpose, .. }, Reply::Done(Err(_))) => {
            lemma_accepted(
                false,
                s,
                seq![
                    EventView::Error(
                        "the mouse did not take the active level back; press its DPI button to re-select it"@,
                    ),
                ],
                purpose,
            );
        },
        _ => {},
    }
}

proof fn lemma_setting_goes_on(s: Session, reply: Reply)
    requires
        s.stage is SettingMode || s.stage is CheckingMode || s.stage is SettingDebounce,
        crate::session::well_formed(s),
        crate::session::expects(s.stage, reply),
    ensures
        goes_on(s, crate::session::advanced(s, reply)),
{
    broadcast use group_events;

}

proof fn lemma_file_goes_on(s: Session, reply: Reply)
    requires
        s.stage is BackupReading || s.stage is BackupSaving || s.stage is RestoreLoading || s.stage
            is ResetReading || s.stage is ResetSaving,
        crate::session::well_formed(s),
        crate::session::expects(s.stage, reply),
    ensures
        goes_on(s, crate::session::advanced(s, reply)),
{
    broadcast use group_events;

}

proof fn lemma_goes_on(s: Session, reply: Reply)
    requires
        crate::session::well_formed(s),
        crate::session::expects(s.stage, reply),
    ensures
        goes_on(s, crate::session::advanced(s, reply)),
{
    if waiting_job(s.stage) is Some {
        lemma_connecting_goes_on(s, reply);
    } else if s.stage is Polling || s.stage is Refreshing || s.stage is ReloadingPsd || s.stage
        is ReloadingMode || s.stage is ReloadingStatus || s.stage is Reading || s.stage is ReadingOther {
        lemma_reading_goes_on(s, reply);
    } else if s.stage is Writing || s.stage is SwitchingAway || s.stage is Settling || s.stage
        is SwitchingBack {
        lemma_writing_goes_on(s, reply);
    } else if s.stage is SettingMode || s.stage is CheckingMode || s.stage is SettingDebounce {
        lemma_setting_goes_on(s, reply);
    } else {
        lemma_file_goes_on(s, reply);
    }
}

/// A link is given up exactly when that is announced, and then the command ends.
/// A command that ends without a link has announced that there is none.
pub proof fn law_a_lost_link_is_announced(s: Session, reply: Reply)
    requires
        crate::session::well_formed(s),
        crate::session::expects(s.stage, reply),
    ensures
        ({
            let m = crate::session::advanced(s, reply);
            announces_disconnection(m.events) <==> m.session.link is None && m.request is Finished
        }),
        s.link is Some && crate::session::advanced(s, reply).session.link is None
            ==> crate::session::advanced(s, reply).request is Finished,
{
    lemma_goes_on(s, reply);
    crate::session::lemma_advanced(s, reply);
}

/// Every block that is published carries the generation of the session.
pub proof fn law_blocks_carry_the_generation(s: Session, reply: Reply, i: int)
    requires
        crate::session::well_formed(s),
        crate::session::expects(s.stage, reply),
        0 <= i < crate::session::advanced(s, reply).events.len(),
    ensures
        crate::session::advanced(s, reply).events[i] matches EventView::Block { generation, .. }
            ==> generation == crate::session::advanced(s, reply).session.generation,
{
    lemma_goes_on(s, reply);
    lemma_carried(
        crate::session::advanced(s, reply).events,
        crate::session::advanced(s, reply).session.generation,
        i,
    );
}

proof fn lemma_carried(events: Seq<EventView>, generation: u64, i: int)
    requires
        blocks_carry(events, generation),
        0 <= i < events.len(),
    ensures
        events[i] matches EventView::Block { generation: own, .. } ==> own == generation,
    decreases events.len(),
{
    if i < events.len() - 1 {
        lemma_carried(events.drop_last(), generation, i);
    }
}

/// The generation changes only by an edit, which brings its own before anything
/// can fail, or by a reset, which takes the next one when it writes.
pub proof fn law_the_generation_comes_from_the_edits(s: Session, cause: Cause)
    requires
        crate::session::well_formed(s),
        admits(s, cause),
    ensures
        match cause {
            Cause::Poll => next(s, cause).session.generation == s.generation,
            Cause::Command(Command::ApplyBlock { generation, .. }) => next(
                s,
                cause,
            ).session.generation == generation,
            Cause::Command(_) => next(s, cause).session.generation == s.generation,
            Cause::Reply(_) => next(s, cause).session.generation == s.generation || next(
                s,
                cause,
            ).session.generation == s.generation + 1 && next(s, cause).request is WriteBlock,
        },
{
    if let Cause::Reply(reply) = cause {
        lemma_goes_on(s, reply);
    }
}

/// What the consumer was last told of being busy is always so; in particular it
/// has been lifted whenever a command has ended.
pub proof fn law_busy_is_lifted_when_a_command_ends(s: Session, cause: Cause)
    requires
        crate::session::well_formed(s),
        admits(s, cause),
    ensures
        told_busy(is_busy(s.stage), next(s, cause).events) == is_busy(next(s, cause).session.stage),
        next(s, cause).request is Finished ==> !told_busy(
            is_busy(s.stage),
            next(s, cause).events,
        ),
{
    law_a_step_keeps_the_session_well_formed(s, cause);
    match cause {
        Cause::Poll => lemma_taken(s, Job::Poll),
        Cause::Command(command) => lemma_begun(s, command),
        Cause::Reply(reply) => lemma_goes_on(s, reply),
    }
}

proof fn lemma_taken(s: Session, job: Job)
    ensures
        told_busy(false, crate::session::job_taken(s, job).events) == is_busy(
            crate::session::job_taken(s, job).session.stage,
        ),
        is_device_request(crate::session::job_taken(s, job).request) ==> !is_away(
            crate::session::job_taken(s, job).session.stage,
        ),
        work_left(crate::session::job_taken(s, job).session.stage) <= 8 + job_work(job),
{
    if s.link is Some {
        lemma_job_started(s, Seq::empty(), job);
    }
}

proof fn lemma_begun(s: Session, command: Command)
    requires
        s.stage is Idle,
    ensures
        told_busy(false, crate::session::begun(s, command).events) == is_busy(
            crate::session::begun(s, command).session.stage,
        ),
        is_device_request(crate::session::begun(s, command).request) ==> !is_away(
            crate::session::begun(s, command).session.stage,
        ),
        work_left(crate::session::begun(s, command).session.stage) <= 20,
{
    match command {
        Command::Refresh => lemma_taken(s, Job::Refresh),
        Command::Reload => lemma_taken(s, Job::Reload),
        Command::ApplyBlock { block, generation } => lemma_taken(
            Session { generation, ..s },
            Job::Apply { block },
        ),
        Command::SetMode(mode) => lemma_taken(s, Job::SetMode { mode }),
        Command::SetDebounce(value) => lemma_taken(s, Job::SetDebounce { value }),
        Command::Backup { path } => lemma_taken(s, Job::Backup { path }),
        Command::Restore { path } => lemma_taken(s, Job::Restore { path }),
        Command::FactoryReset { backup_path } => lemma_taken(
            s,
            Job::FactoryReset { backup_path },
        ),
        Command::Shutdown => {},
    }
}

/// Every reply brings a command closer to its end, and a command needs twenty
/// replies at most.
pub proof fn law_a_command_ends(s: Session, cause: Cause)
    requires
        crate::session::well_formed(s),
        admits(s, cause),
    ensures
        match cause {
            Cause::Reply(_) => work_left(next(s, cause).session.stage) < work_left(s.stage),
            _ => work_left(next(s, cause).session.stage) <= 20,
        },
{
    match cause {
        Cause::Poll => lemma_taken(s, Job::Poll),
        Cause::Command(command) => lemma_begun(s, command),
        Cause::Reply(reply) => lemma_goes_on(s, reply),
    }
}

/// A new link is announced with what was found, and the block that was read on
/// the way is handed over at once.
pub proof fn law_a_new_link_hands_its_block_over(s: Session, reply: Reply)
    requires
        crate::session::well_formed(s),
        crate::session::expects(s.stage, reply),
        s.link is None,
        crate::session::advanced(s, reply).session.link is Some,
    ensures
        ({
            let m = crate::session::advanced(s, reply);
            &&& m.events.len() >= 2
            &&& m.events[0] matches EventView::Connected { path, pid, psd, bank, .. } && path
                == m.session.link->0.path@ && pid == m.session.link->0.pid && psd == m.session.psd@
                && bank == m.session.bank
            &&& m.events[1] is Mode
            &&& m.session.bank_confirmed <==> m.session.last_block is Some
            &&& m.session.last_block matches Some(block) ==> m.events.len() >= 3 && m.events[2]
                == (EventView::Block { block: block@, generation: s.generation, verified: true })
        }),
{
    assert(s.stage is ProbingPrimary || s.stage is ProbingOther);
}

/// The device is only talked to while its node is open.
pub proof fn law_the_device_is_asked_through_an_open_node(s: Session, cause: Cause)
    requires
        crate::session::well_formed(s),
        admits(s, cause),
        is_device_request(next(s, cause).request),
    ensures
        crate::session::holds_node(next(s, cause).session),
{
    law_a_step_keeps_the_session_well_formed(s, cause);
    match cause {
        Cause::Poll => lemma_taken(s, Job::Poll),
        Cause::Command(command) => lemma_begun(s, command),
        Cause::Reply(reply) => lemma_goes_on(s, reply),
    }
}

/// A refresh publishes the status, and the block only where none has been loaded
/// yet: with a loaded block the status ends it, without one the block is read
/// and published.
pub proof fn law_a_refresh_publishes_a_block_only_before_the_first(
    s: Session,
    status: Status,
    got: [u8; BLOCK_LEN],
)
    requires
        s.stage is Refreshing,
    ensures
        ({
            let m = crate::session::advanced(s, Reply::Status(Ok(status)));
            let read = crate::session::advanced(m.session, Reply::Block(Ok(got)));
            &&& m.events == seq![crate::session::status_event(s, status)]
            &&& s.last_block is Some ==> m.request == (Request::Finished { running: true })
                && m.session.last_block == s.last_block
            &&& s.last_block is None ==> {
                &&& m.request == (Request::ReadBlock { bank: s.bank })
                &&& read.request == (Request::Finished { running: true })
                &&& read.session.last_block == Some(got)
                &&& read.events == seq![
                    EventView::Block { block: got@, generation: s.generation, verified: true },
                ]
            }
        }),
{
}

/// A poll publishes the block exactly when it is not the last one known.
pub proof fn law_a_poll_publishes_changes_only(s: Session, got: [u8; BLOCK_LEN])
    requires
        s.stage == (Stage::Reading { reader: Reader::Poll }),
    ensures
        ({
            let m = crate::session::advanced(s, Reply::Block(Ok(got)));
            let known = s.last_block matches Some(last) && last@ == got@;
            &&& known ==> m.events.len() == 0 && m.session.last_block == s.last_block
            &&& !known ==> m.session.last_block == Some(got) && m.events == seq![
                EventView::Block { block: got@, generation: s.generation, verified: true },
            ]
        }),
{
}

} // verus!
