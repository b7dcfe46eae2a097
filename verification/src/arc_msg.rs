//! The request/response exchange with a chip's firmware controller.
//!
//! An exchange uses three words of the local bus: a command register, which carries the
//! request to the firmware and its status back; an argument register, which carries the two
//! argument words one way and the result the other; and a doorbell, which is zero while no
//! exchange is under way.
//!
//! The exchange is a state machine. `ArcStage::action` says which bus access a stage asks
//! for, and `ArcStage::advance` takes the word that the access read (anything, after a
//! write) to the next stage. The machine itself touches no hardware; `arc_msg` runs it
//! against a transport. Nothing is ever sent twice.

use vstd::prelude::*;
use crate::access::{axi_read32, axi_write32, refused, word_read_by, word_written_by};
use crate::address::AxiAddress;
use crate::chip_interface::ChipInterface;
use crate::error::{ArcMsgError, AxiError, LuwenError, PciError, PlatformError};

verus! {

/// What the sender does once the doorbell is rung.
#[derive(Clone, Copy, Debug, PartialEq, Eq, Structural)]
pub enum WaitPolicy {
    /// Poll for the firmware's response.
    Wait,
    /// Return at once; for requests, such as a reset, that the firmware may not outlive.
    NoWait,
}

/// One request to the firmware.
#[derive(Clone, Copy, Debug, PartialEq, Eq, Structural)]
pub struct ArcMsg {
    pub opcode: u8,
    pub arg0: u16,
    pub arg1: u16,
    pub wait: WaitPolicy,
}

/// How an exchange ended well.
#[derive(Clone, Copy, Debug, PartialEq, Eq, Structural)]
pub enum ArcMsgOk {
    /// The firmware answered: its return code and the result it left.
    Reply { rc: u32, arg: u32 },
    /// The request was sent and no answer was waited for.
    OkNoWait,
}

/// Where on the local bus the three words of the exchange are.
#[derive(Clone, Copy, Debug, PartialEq, Eq, Structural)]
pub struct Mailbox {
    pub command: AxiAddress,
    pub argument: AxiAddress,
    pub doorbell: AxiAddress,
}

/// Marks a command word as a request that the firmware has not answered.
pub const REQUEST_TAG: u32 = 0xaa00;

/// What the sender writes to the doorbell to ring it.
pub const DOORBELL_RING: u32 = 1;

/// What the doorbell holds while no exchange is under way.
pub const DOORBELL_IDLE: u32 = 0;

/// The command word that carries `opcode` to the firmware.
pub open spec fn request_word(opcode: u8) -> u32 {
    (REQUEST_TAG + opcode) as u32
}

/// The argument word for `msg`: `arg0` in the lower half, `arg1` in the upper.
pub open spec fn argument_word(msg: ArcMsg) -> u32 {
    (msg.arg0 + msg.arg1 * 0x1_0000) as u32
}

/// Whether `status`, read from the command register, is the firmware's response to
/// `opcode`: its lower half holds the opcode alone, without the request tag.
pub open spec fn response_posted(status: u32, opcode: u8) -> bool {
    status % 0x1_0000 == opcode
}

/// The return code in a response: its upper half.
pub open spec fn response_code(status: u32) -> u16 {
    (status / 0x1_0000) as u16
}

/// How an exchange ended.
pub type ArcOutcome = Result<ArcMsgOk, ArcMsgError>;

/// How an exchange ends once the firmware has answered with `code` and left `arg`.
pub open spec fn answered(code: u16, arg: u32) -> ArcOutcome {
    if code == 0 {
        Ok(ArcMsgOk::Reply { rc: 0, arg })
    } else {
        Err(ArcMsgError::Rejected { code })
    }
}

/// Where an exchange stands.
#[derive(Clone, Copy, Debug, PartialEq, Eq)]
pub enum ArcStage {
    /// Nothing sent yet; the doorbell is to be read, to see that no exchange is under way.
    Start,
    /// The argument word is to be written.
    WriteArgument,
    /// The command word is to be written.
    WriteCommand,
    /// The doorbell is to be rung.
    RingDoorbell,
    /// The command register is to be polled, at most `remaining` more times.
    Poll { remaining: u32 },
    /// The firmware answered with `code`; its result is to be read.
    ReadResult { code: u16 },
    /// The answer is complete; the doorbell is to be cleared.
    ClearDoorbell { code: u16, arg: u32 },
    /// The exchange is over.
    Done(ArcOutcome),
}

/// The bus access that a stage asks for.
#[derive(Clone, Copy, Debug, PartialEq, Eq)]
pub enum ArcAction {
    Read(AxiAddress),
    Write(AxiAddress, u32),
    /// No access: the exchange is over, with this outcome.
    Finish(ArcOutcome),
}

impl ArcStage {
    /// The bus access that this stage asks for.
    pub open spec fn spec_action(self, mailbox: Mailbox, msg: ArcMsg) -> ArcAction {
        match self {
            ArcStage::Start => ArcAction::Read(mailbox.doorbell),
            ArcStage::WriteArgument => ArcAction::Write(mailbox.argument, argument_word(msg)),
            ArcStage::WriteCommand => ArcAction::Write(mailbox.command, request_word(msg.opcode)),
            ArcStage::RingDoorbell => ArcAction::Write(mailbox.doorbell, DOORBELL_RING),
            ArcStage::Poll { .. } => ArcAction::Read(mailbox.command),
            ArcStage::ReadResult { .. } => ArcAction::Read(mailbox.argument),
            ArcStage::ClearDoorbell { .. } => ArcAction::Write(mailbox.doorbell, DOORBELL_IDLE),
            ArcStage::Done(outcome) => ArcAction::Finish(outcome),
        }
    }

    /// The stage that follows this one once its access is done. `value` is the word that a
    /// read returned; after a write it plays no part.
    pub open spec fn spec_advance(self, msg: ArcMsg, max_polls: u32, value: u32) -> ArcStage {
        match self {
            ArcStage::Start => if value == DOORBELL_IDLE {
                ArcStage::WriteArgument
            } else {
                ArcStage::Done(Err(ArcMsgError::Busy))
            },
            ArcStage::WriteArgument => ArcStage::WriteCommand,
            ArcStage::WriteCommand => ArcStage::RingDoorbell,
            ArcStage::RingDoorbell => if msg.wait is NoWait {
                ArcStage::Done(Ok(ArcMsgOk::OkNoWait))
            } else if max_polls == 0 {
                ArcStage::Done(Err(ArcMsgError::Timeout { polls: 0 }))
            } else {
                ArcStage::Poll { remaining: max_polls }
            },
            ArcStage::Poll { remaining } => if response_posted(value, msg.opcode) {
                ArcStage::ReadResult { code: response_code(value) }
            } else if remaining <= 1 {
                ArcStage::Done(Err(ArcMsgError::Timeout { polls: max_polls }))
            } else {
                ArcStage::Poll { remaining: (remaining - 1) as u32 }
            },
            ArcStage::ReadResult { code } => ArcStage::ClearDoorbell { code, arg: value },
            ArcStage::ClearDoorbell { code, arg } => ArcStage::Done(answered(code, arg)),
            ArcStage::Done(outcome) => ArcStage::Done(outcome),
        }
    }

    /// Whether an exchange of `msg` with at most `max_polls` polls can stand here. Polling,
    /// and all that follows a response, is for a message that waits and has polls to spend;
    /// a timeout reports all the polls that were allowed; a rejection carries a code other
    /// than zero, and a reply the code zero.
    pub open spec fn reachable(self, msg: ArcMsg, max_polls: u32) -> bool {
        match self {
            ArcStage::Poll { remaining } => msg.wait is Wait && 1 <= remaining <= max_polls,
            ArcStage::ReadResult { .. } => msg.wait is Wait && max_polls >= 1,
            ArcStage::ClearDoorbell { .. } => msg.wait is Wait && max_polls >= 1,
            ArcStage::Done(Ok(ArcMsgOk::OkNoWait)) => msg.wait is NoWait,
            ArcStage::Done(Ok(ArcMsgOk::Reply { rc, .. })) => msg.wait is Wait && max_polls >= 1
                && rc == 0,
            ArcStage::Done(Err(ArcMsgError::Timeout { polls })) => msg.wait is Wait && polls
                == max_polls,
            ArcStage::Done(Err(ArcMsgError::Rejected { code })) => msg.wait is Wait && max_polls
                >= 1 && code != 0,
            _ => true,
        }
    }

    /// The most bus accesses that an exchange standing here can still make.
    pub open spec fn accesses_left(self, max_polls: u32) -> nat {
        match self {
            ArcStage::Start => (max_polls + 6) as nat,
            ArcStage::WriteArgument => (max_polls + 5) as nat,
            ArcStage::WriteCommand => (max_polls + 4) as nat,
            ArcStage::RingDoorbell => (max_polls + 3) as nat,
            ArcStage::Poll { remaining } => (remaining + 2) as nat,
            ArcStage::ReadResult { .. } => 2,
            ArcStage::ClearDoorbell { .. } => 1,
            ArcStage::Done(_) => 0,
        }
    }

    /// The bus access that this stage asks for.
    pub fn action(&self, mailbox: &Mailbox, msg: &ArcMsg) -> (a: ArcAction)
        ensures
            a == self.spec_action(*mailbox, *msg),
            a is Finish <==> *self is Done,
    {
        match *self {
            ArcStage::Start => ArcAction::Read(mailbox.doorbell),
            ArcStage::WriteArgument => ArcAction::Write(
                mailbox.argument,
                msg.arg0 as u32 + msg.arg1 as u32 * 0x1_0000,
            ),
            ArcStage::WriteCommand => ArcAction::Write(
                mailbox.command,
                REQUEST_TAG + msg.opcode as u32,
            ),
            ArcStage::RingDoorbell => ArcAction::Write(mailbox.doorbell, DOORBELL_RING),
            ArcStage::Poll { .. } => ArcAction::Read(mailbox.command),
            ArcStage::ReadResult { .. } => ArcAction::Read(mailbox.argument),
            ArcStage::ClearDoorbell { .. } => ArcAction::Write(mailbox.doorbell, DOORBELL_IDLE),
            ArcStage::Done(outcome) => ArcAction::Finish(outcome),
        }
    }

    /// Takes the exchange to its next stage once the access of this one is done. `value` is
    /// the word that a read returned; after a write it plays no part.
    pub fn advance(self, msg: &ArcMsg, max_polls: u32, value: u32) -> (next: ArcStage)
        ensures
            next == self.spec_advance(*msg, max_polls, value),
            self.reachable(*msg, max_polls) ==> next.reachable(*msg, max_polls),
            self.reachable(*msg, max_polls) && !(self is Done) ==> next.accesses_left(max_polls)
                < self.accesses_left(max_polls),
    {
        match self {
            ArcStage::Start => if value == DOORBELL_IDLE {
                ArcStage::WriteArgument
            } else {
                ArcStage::Done(Err(ArcMsgError::Busy))
            },
            ArcStage::WriteArgument => ArcStage::WriteCommand,
            ArcStage::WriteCommand => ArcStage::RingDoorbell,
            ArcStage::RingDoorbell => match msg.wait {
                WaitPolicy::NoWait => ArcStage::Done(Ok(ArcMsgOk::OkNoWait)),
                WaitPolicy::Wait => if max_polls == 0 {
                    ArcStage::Done(Err(ArcMsgError::Timeout { polls: 0 }))
                } else {
                    ArcStage::Poll { remaining: max_polls }
                },
            },
            ArcStage::Poll { remaining } => if value % 0x1_0000 == msg.opcode as u32 {
                ArcStage::ReadResult { code: (value / 0x1_0000) as u16 }
            } else if remaining <= 1 {
                ArcStage::Done(Err(ArcMsgError::Timeout { polls: max_polls }))
            } else {
                ArcStage::Poll { remaining: remaining - 1 }
            },
            ArcStage::ReadResult { code } => ArcStage::ClearDoorbell { code, arg: value },
            ArcStage::ClearDoorbell { code, arg } => if code == 0 {
                ArcStage::Done(Ok(ArcMsgOk::Reply { rc: 0, arg }))
            } else {
                ArcStage::Done(Err(ArcMsgError::Rejected { code }))
            },
            ArcStage::Done(outcome) => ArcStage::Done(outcome),
        }
    }
}

/// The stage reached from `stage` when the accesses, in order, read the words of `values`
/// (a write takes its place in `values` too, with any word).
pub open spec fn run(stage: ArcStage, msg: ArcMsg, max_polls: u32, values: Seq<u32>) -> ArcStage
    decreases values.len(),
{
    if values.len() == 0 {
        stage
    } else {
        run(stage.spec_advance(msg, max_polls, values[0]), msg, max_polls, values.drop_first())
    }
}

/// An exchange that is over stays over, with the outcome it had.
pub proof fn lemma_done_stays(outcome: ArcOutcome, msg: ArcMsg, max_polls: u32, values: Seq<u32>)
    ensures
        run(ArcStage::Done(outcome), msg, max_polls, values) == ArcStage::Done(outcome),
    decreases values.len(),
{
    if values.len() > 0 {
        lemma_done_stays(outcome, msg, max_polls, values.drop_first());
    }
}

/// Whatever the bus returns, an exchange stays among the stages that its message allows: one
/// sent without waiting never polls, never reads a result and never ends in a reply, a
/// timeout or a rejection.
pub proof fn lemma_run_reachable(stage: ArcStage, msg: ArcMsg, max_polls: u32, values: Seq<u32>)
    requires
        stage.reachable(msg, max_polls),
    ensures
        run(stage, msg, max_polls, values).reachable(msg, max_polls),
        msg.wait is NoWait ==> !(run(stage, msg, max_polls, values) is Poll) && !(run(
            stage,
            msg,
            max_polls,
            values,
        ) is ReadResult),
    decreases values.len(),
{
    if values.len() > 0 {
        lemma_run_reachable(
            stage.spec_advance(msg, max_polls, values[0]),
            msg,
            max_polls,
            values.drop_first(),
        );
    }
}

/// Whatever the bus returns, an exchange is over after as many accesses as its stage has
/// left: from the start, after at most `max_polls + 6`.
pub proof fn lemma_exchange_ends(stage: ArcStage, msg: ArcMsg, max_polls: u32, values: Seq<u32>)
    requires
        stage.reachable(msg, max_polls),
        values.len() >= stage.accesses_left(max_polls),
    ensures
        run(stage, msg, max_polls, values) is Done,
    decreases values.len(),
{
    if stage is Done {
        lemma_done_stays(stage->Done_0, msg, max_polls, values);
    } else {
        lemma_exchange_ends(
            stage.spec_advance(msg, max_polls, values[0]),
            msg,
            max_polls,
            values.drop_first(),
        );
    }
}

/// Polls that never see a response end in a timeout once they are used up.
proof fn lemma_silent_polls(remaining: u32, msg: ArcMsg, max_polls: u32, values: Seq<u32>)
    requires
        1 <= remaining,
        values.len() >= remaining,
        forall|i: int| 0 <= i < remaining ==> !response_posted(#[trigger] values[i], msg.opcode),
    ensures
        run(ArcStage::Poll { remaining }, msg, max_polls, values) == ArcStage::Done(
            Err(ArcMsgError::Timeout { polls: max_polls }),
        ),
    decreases remaining,
{
    let rest = values.drop_first();
    if remaining == 1 {
        lemma_done_stays(Err(ArcMsgError::Timeout { polls: max_polls }), msg, max_polls, rest);
    } else {
        assert forall|i: int| 0 <= i < remaining - 1 implies !response_posted(
            #[trigger] rest[i],
            msg.opcode,
        ) by {
            assert(rest[i] == values[i + 1]);
        }
        lemma_silent_polls((remaining - 1) as u32, msg, max_polls, rest);
    }
}

/// The accesses of an exchange before its first poll: the doorbell read, which finds it
/// idle, and the three writes.
pub open spec fn opening(values: Seq<u32>) -> bool {
    values.len() >= 4 && values[0] == DOORBELL_IDLE
}

/// An exchange with a mailbox in which no response ever appears ends in a timeout after
/// `max_polls` polls.
pub proof fn lemma_silent_mailbox_times_out(msg: ArcMsg, max_polls: u32, values: Seq<u32>)
    requires
        msg.wait is Wait,
        opening(values),
        values.len() >= 4 + max_polls,
        forall|i: int| 4 <= i < 4 + max_polls ==> !response_posted(#[trigger] values[i], msg.opcode),
    ensures
        run(ArcStage::Start, msg, max_polls, values) == ArcStage::Done(
            Err(ArcMsgError::Timeout { polls: max_polls }),
        ),
{
    let rung = values.drop_first().drop_first().drop_first();
    let polled = rung.drop_first();
    reveal_with_fuel(run, 5);
    assert(run(ArcStage::Start, msg, max_polls, values) == run(
        ArcStage::RingDoorbell.spec_advance(msg, max_polls, rung[0]),
        msg,
        max_polls,
        polled,
    ));
    if max_polls == 0 {
        lemma_done_stays(Err(ArcMsgError::Timeout { polls: 0 }), msg, max_polls, polled);
    } else {
        assert forall|i: int| 0 <= i < max_polls implies !response_posted(
            #[trigger] polled[i],
            msg.opcode,
        ) by {
            assert(polled[i] == values[i + 4]);
        }
        lemma_silent_polls(max_polls, msg, max_polls, polled);
    }
}

/// An exchange sent without waiting is over once the doorbell is rung: four accesses, none
/// of them a poll.
pub proof fn lemma_no_wait_ends_at_doorbell(msg: ArcMsg, max_polls: u32, values: Seq<u32>)
    requires
        msg.wait is NoWait,
        opening(values),
    ensures
        run(ArcStage::Start, msg, max_polls, values.subrange(0, 1)) == ArcStage::WriteArgument,
        run(ArcStage::Start, msg, max_polls, values.subrange(0, 2)) == ArcStage::WriteCommand,
        run(ArcStage::Start, msg, max_polls, values.subrange(0, 3)) == ArcStage::RingDoorbell,
        run(ArcStage::Start, msg, max_polls, values.subrange(0, 4)) == ArcStage::Done(
            Ok(ArcMsgOk::OkNoWait),
        ),
        run(ArcStage::Start, msg, max_polls, values) == ArcStage::Done(Ok(ArcMsgOk::OkNoWait)),
{
    lemma_run_split(ArcStage::Start, msg, max_polls, values, 4);
    reveal_with_fuel(run, 5);
    let one = values.subrange(0, 1);
    let two = values.subrange(0, 2);
    let three = values.subrange(0, 3);
    let four = values.subrange(0, 4);
    assert(one[0] == values[0] && two[0] == values[0] && three[0] == values[0] && four[0]
        == values[0]);
    assert(one.drop_first().len() == 0);
    assert(two.drop_first().drop_first().len() == 0);
    assert(three.drop_first().drop_first().drop_first().len() == 0);
    assert(four.drop_first().drop_first().drop_first().drop_first().len() == 0);
    lemma_done_stays(Ok(ArcMsgOk::OkNoWait), msg, max_polls, values.subrange(4, values.len() as int));
}

/// Running over `values` is running over its first `n` and then over the rest.
pub proof fn lemma_run_split(stage: ArcStage, msg: ArcMsg, max_polls: u32, values: Seq<u32>, n: int)
    requires
        0 <= n <= values.len(),
    ensures
        run(stage, msg, max_polls, values) == run(
            run(stage, msg, max_polls, values.subrange(0, n)),
            msg,
            max_polls,
            values.subrange(n, values.len() as int),
        ),
    decreases n,
{
    if n == 0 {
        assert(values.subrange(0, values.len() as int) =~= values);
    } else {
        let next = stage.spec_advance(msg, max_polls, values[0]);
        let rest = values.drop_first();
        lemma_run_split(next, msg, max_polls, rest, n - 1);
        assert(rest.subrange(0, n - 1) =~= values.subrange(0, n).drop_first());
        assert(rest.subrange(n - 1, rest.len() as int) =~= values.subrange(n, values.len() as int));
        assert(values.subrange(0, n)[0] == values[0]);
    }
}

impl Mailbox {
    /// The first of the command, argument and doorbell registers that does not lie on a
    /// word boundary, as the error that reports it.
    pub open spec fn refusal(self) -> Option<AxiError> {
        if self.command.addr % 4 != 0 {
            Some(AxiError::Unaligned { offset: self.command.addr as u64 })
        } else if self.argument.addr % 4 != 0 {
            Some(AxiError::Unaligned { offset: self.argument.addr as u64 })
        } else if self.doorbell.addr % 4 != 0 {
            Some(AxiError::Unaligned { offset: self.doorbell.addr as u64 })
        } else {
            None
        }
    }

    /// Checks that the three registers lie on word boundaries, so that each can be read and
    /// written in one transfer: an exchange with the firmware needs each of its accesses to
    /// be of one piece.
    pub fn validate(&self) -> (r: Result<(), AxiError>)
        ensures
            r is Ok <==> self.refusal() is None,
            r matches Err(e) ==> self.refusal() == Some(e),
    {
        if self.command.addr % 4 != 0 {
            Err(AxiError::Unaligned { offset: self.command.addr as u64 })
        } else if self.argument.addr % 4 != 0 {
            Err(AxiError::Unaligned { offset: self.argument.addr as u64 })
        } else if self.doorbell.addr % 4 != 0 {
            Err(AxiError::Unaligned { offset: self.doorbell.addr as u64 })
        } else {
            Ok(())
        }
    }
}

/// Whether `r` is the result of an exchange of `msg` in which the accesses read `values`:
/// the outcome that the machine reaches over them, or the failure of the transport before
/// the machine was over.
pub open spec fn exchange_result(
    msg: ArcMsg,
    max_polls: u32,
    values: Seq<u32>,
    r: Result<ArcMsgOk, LuwenError>,
) -> bool {
    let end = run(ArcStage::Start, msg, max_polls, values);
    match r {
        Ok(ok) => end == ArcStage::Done(Ok(ok)),
        Err(LuwenError::PlatformError(PlatformError::ArcMsgError(e))) => end == ArcStage::Done(
            Err(e),
        ),
        Err(LuwenError::PciError(_)) => !(end is Done),
        Err(_) => false,
    }
}

/// Whether `r` is a result that an exchange of `msg` with at most `max_polls` polls can
/// have at all: an outcome that the machine can reach for this message, or the failure of
/// the transport.
pub open spec fn possible_result(msg: ArcMsg, max_polls: u32, r: Result<ArcMsgOk, LuwenError>) -> bool {
    match r {
        Ok(ok) => ArcStage::Done(Ok(ok)).reachable(msg, max_polls),
        Err(LuwenError::PlatformError(PlatformError::ArcMsgError(e))) => ArcStage::Done(
            Err(e),
        ).reachable(msg, max_polls),
        Err(LuwenError::PciError(_)) => true,
        Err(_) => false,
    }
}

/// Running over `values` and then one more access is advancing once from where `values`
/// led.
proof fn lemma_run_push(stage: ArcStage, msg: ArcMsg, max_polls: u32, values: Seq<u32>, value: u32)
    ensures
        run(stage, msg, max_polls, values.push(value)) == run(
            stage,
            msg,
            max_polls,
            values,
        ).spec_advance(msg, max_polls, value),
{
    let longer = values.push(value);
    lemma_run_split(stage, msg, max_polls, longer, values.len() as int);
    assert(longer.subrange(0, values.len() as int) =~= values);
    let last = longer.subrange(values.len() as int, longer.len() as int);
    assert(last.len() == 1 && last[0] == value);
    assert(last.drop_first().len() == 0);
    reveal_with_fuel(run, 2);
}

/// Whether `chip` made the access `action` and `value` is what came of it: the word was
/// read from the register, as `axi_read32` reads it, or the word was written to the
/// register, as `axi_write32` writes it. After a write `value` plays no part.
pub open spec fn access_made<T: ChipInterface>(chip: &T, action: ArcAction, value: u32) -> bool {
    match action {
        ArcAction::Read(at) => word_read_by(chip, at.addr, Ok(value)),
        ArcAction::Write(at, word) => exists|done: Result<(), LuwenError>|
            done is Ok && #[trigger] word_written_by(chip, at.addr, word, done),
        ArcAction::Finish(_) => false,
    }
}

/// Whether `chip` failed the access `action` with `failure`: that is what reading the
/// register, or writing the word to it, gave.
pub open spec fn access_failed<T: ChipInterface>(chip: &T, action: ArcAction, failure: PciError) -> bool {
    match action {
        ArcAction::Read(at) => word_read_by(chip, at.addr, Err(LuwenError::PciError(failure))),
        ArcAction::Write(at, word) => word_written_by(
            chip,
            at.addr,
            word,
            Err(LuwenError::PciError(failure)),
        ),
        ArcAction::Finish(_) => false,
    }
}

/// Whether the accesses of an exchange that stands at `stage` were made on `chip` and
/// `values` is what came of them, in order: each is the access that the stage reached so
/// far asks for, at the register that `spec_action` names for it.
pub open spec fn exchanged<T: ChipInterface>(
    chip: &T,
    mailbox: Mailbox,
    msg: ArcMsg,
    max_polls: u32,
    stage: ArcStage,
    values: Seq<u32>,
) -> bool
    decreases values.len(),
{
    values.len() == 0 || (access_made(chip, stage.spec_action(mailbox, msg), values[0])
        && exchanged(
        chip,
        mailbox,
        msg,
        max_polls,
        stage.spec_advance(msg, max_polls, values[0]),
        values.drop_first(),
    ))
}

/// Accesses that were made still were when one more joins them that was made at the stage
/// the exchange has come to.
proof fn lemma_exchanged_push<T: ChipInterface>(
    chip: &T,
    mailbox: Mailbox,
    msg: ArcMsg,
    max_polls: u32,
    stage: ArcStage,
    values: Seq<u32>,
    value: u32,
)
    requires
        exchanged(chip, mailbox, msg, max_polls, stage, values),
        access_made(chip, run(stage, msg, max_polls, values).spec_action(mailbox, msg), value),
    ensures
        exchanged(chip, mailbox, msg, max_polls, stage, values.push(value)),
    decreases values.len(),
{
    let longer = values.push(value);
    if values.len() == 0 {
        assert(longer[0] == value);
        assert(longer.drop_first().len() == 0);
        reveal_with_fuel(exchanged, 2);
    } else {
        assert(longer[0] == values[0]);
        assert(longer.drop_first() =~= values.drop_first().push(value));
        lemma_exchanged_push(
            chip,
            mailbox,
            msg,
            max_polls,
            stage.spec_advance(msg, max_polls, values[0]),
            values.drop_first(),
            value,
        );
    }
}

/// Whether `r` is what an exchange of `msg` with `chip` through `mailbox` gave, with
/// `values` as the words that its accesses read: every access was made on the transport, at
/// the register that the stage reached so far names; `r` is the outcome that the machine
/// reaches over the values; and a failure of the transport is the one that the access gave
/// at which the exchange stopped.
pub open spec fn exchange_with<T: ChipInterface>(
    chip: &T,
    mailbox: Mailbox,
    msg: ArcMsg,
    max_polls: u32,
    values: Seq<u32>,
    r: Result<ArcMsgOk, LuwenError>,
) -> bool {
    &&& exchange_result(msg, max_polls, values, r)
    &&& exchanged(chip, mailbox, msg, max_polls, ArcStage::Start, values)
    &&& r matches Err(LuwenError::PciError(e)) ==> access_failed(
        chip,
        run(ArcStage::Start, msg, max_polls, values).spec_action(mailbox, msg),
        e,
    )
}

/// Sends `msg` to the firmware behind `mailbox` and, unless the message says not to wait,
/// polls up to `max_polls` times for the response.
///
/// The machine of this module is run against `chip` until it is over or the transport
/// fails: each access that a stage asks for is made on `chip`, once, and the word read is
/// what takes the machine on. So the result is the machine's outcome over the words that
/// the bus returned. A transport failure ends the exchange where it stands: the mailbox may
/// be half written, and the chip's liveness has to be established again before it is used.
/// At most `max_polls + 6` accesses are made.
///
/// Each access of the exchange is of one register, in one transfer. A register that does
/// not lie on a word boundary could only be read or written as two words, one after the
/// other, and the firmware could change or see it between the two; so a mailbox with such
/// a register is refused before anything is sent.
pub fn arc_msg<T: ChipInterface>(chip: &T, mailbox: &Mailbox, msg: &ArcMsg, max_polls: u32) -> (r:
    Result<ArcMsgOk, LuwenError>)
    ensures
        mailbox.refusal() matches Some(e) ==> r == Err::<ArcMsgOk, LuwenError>(refused(e)),
        mailbox.refusal() is None ==> possible_result(*msg, max_polls, r),
        mailbox.refusal() is None ==> exists|values: Seq<u32>|
            values.len() <= max_polls + 6 && #[trigger] exchange_with(
                chip,
                *mailbox,
                *msg,
                max_polls,
                values,
                r,
            ),
{
    match mailbox.validate() {
        Ok(()) => {},
        Err(e) => {
            return Err(LuwenError::from(e));
        },
    }
    let mut stage = ArcStage::Start;
    let ghost mut values: Seq<u32> = Seq::empty();
    loop
        invariant
            mailbox.refusal() is None,
            stage.reachable(*msg, max_polls),
            stage == run(ArcStage::Start, *msg, max_polls, values),
            exchanged(chip, *mailbox, *msg, max_polls, ArcStage::Start, values),
            values.len() + stage.accesses_left(max_polls) <= max_polls + 6,
        decreases stage.accesses_left(max_polls),
    {
        match stage.action(mailbox, msg) {
            ArcAction::Finish(outcome) => {
                let r = match outcome {
                    Ok(ok) => Ok(ok),
                    Err(e) => Err(LuwenError::from(e)),
                };
                assert(exchange_with(chip, *mailbox, *msg, max_polls, values, r));
                return r;
            },
            ArcAction::Read(at) => {
                let read = axi_read32(chip, at.addr);
                match read {
                    Ok(value) => {
                        proof {
                            assert(access_made(chip, stage.spec_action(*mailbox, *msg), value));
                            lemma_run_push(ArcStage::Start, *msg, max_polls, values, value);
                            lemma_exchanged_push(
                                chip,
                                *mailbox,
                                *msg,
                                max_polls,
                                ArcStage::Start,
                                values,
                                value,
                            );
                            values = values.push(value);
                        }
                        stage = stage.advance(msg, max_polls, value);
                    },
                    Err(e) => {
                        assert(exchange_with(chip, *mailbox, *msg, max_polls, values, Err(e)));
                        return Err(e);
                    },
                }
            },
            ArcAction::Write(at, value) => {
                let written = axi_write32(chip, at.addr, value);
                match written {
                    Ok(_) => {
                        proof {
                            assert(word_written_by(chip, at.addr, value, written));
                            assert(access_made(chip, stage.spec_action(*mailbox, *msg), 0));
                            lemma_run_push(ArcStage::Start, *msg, max_polls, values, 0);
                            lemma_exchanged_push(
                                chip,
                                *mailbox,
                                *msg,
                                max_polls,
                                ArcStage::Start,
                                values,
                                0,
                            );
                            values = values.push(0);
                        }
                        stage = stage.advance(msg, max_polls, 0);
                    },
                    Err(e) => {
                        assert(exchange_with(chip, *mailbox, *msg, max_polls, values, Err(e)));
                        return Err(e);
                    },
                }
            },
        }
    }
}

} // verus!
