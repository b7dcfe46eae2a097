use std::cell::{Cell, RefCell};
use std::collections::HashMap;

use ttchip::address::{AxiAddress, EthAddr};
use ttchip::arc_msg::{
    arc_msg, ArcAction, ArcMsg, ArcMsgOk, ArcStage, Mailbox, WaitPolicy, DOORBELL_IDLE,
    DOORBELL_RING, REQUEST_TAG,
};
use ttchip::chip_interface::{ChipInterface, DeviceInfo};
use ttchip::error::{
    ArcMsgError, AxiError, LuwenError, PciError, PlatformError, TransportFailure,
};

const COMMAND: u32 = 0x1ff3_0074;
const ARGUMENT: u32 = 0x1ff3_006c;
const DOORBELL: u32 = 0x1ff3_0100;

fn mailbox() -> Mailbox {
    Mailbox {
        command: AxiAddress { addr: COMMAND },
        argument: AxiAddress { addr: ARGUMENT },
        doorbell: AxiAddress { addr: DOORBELL },
    }
}

#[derive(Clone, Copy, Debug, PartialEq, Eq)]
enum Access {
    Read(u32),
    Write(u32, u32),
}

/// How the firmware behind the registers behaves once the doorbell rings.
#[derive(Clone, Copy)]
enum Firmware {
    /// Posts its response at the poll of this number, counting from one.
    Answers { at_poll: u32, code: u16, result: u32 },
    /// Never posts anything.
    Silent,
}

/// Three registers with a firmware behind them.
struct Chip {
    registers: RefCell<HashMap<u32, u32>>,
    firmware: Firmware,
    polls: Cell<u32>,
    log: RefCell<Vec<Access>>,
    fail_at: Option<usize>,
}

impl Chip {
    fn new(firmware: Firmware) -> Chip {
        Chip {
            registers: RefCell::new(HashMap::new()),
            firmware,
            polls: Cell::new(0),
            log: RefCell::new(Vec::new()),
            fail_at: None,
        }
    }

    fn failing_at(firmware: Firmware, access: usize) -> Chip {
        let mut chip = Chip::new(firmware);
        chip.fail_at = Some(access);
        chip
    }

    fn register(&self, addr: u32) -> u32 {
        self.registers.borrow().get(&addr).copied().unwrap_or(0)
    }

    fn set(&self, addr: u32, value: u32) {
        self.registers.borrow_mut().insert(addr, value);
    }

    fn log(&self) -> Vec<Access> {
        self.log.borrow().clone()
    }

    fn polls(&self) -> usize {
        self.log().iter().skip(4).filter(|a| **a == Access::Read(COMMAND)).count()
    }

    fn fails(&self, addr: u32) -> Result<(), PciError> {
        if self.fail_at == Some(self.log.borrow().len()) {
            return Err(PciError {
                failure: TransportFailure::LinkDown,
                addr: u64::from(addr),
                code: -19,
            });
        }
        Ok(())
    }
}

fn no_noc(addr: u64) -> Result<(), PciError> {
    Err(PciError { failure: TransportFailure::LinkDown, addr, code: 0 })
}

impl ChipInterface for Chip {
    fn get_device_info(&self) -> Option<DeviceInfo> {
        None
    }

    fn axi_read(&self, addr: u32, data: &mut [u8]) -> Result<(), PciError> {
        assert_eq!((addr % 4, data.len()), (0, 4));
        self.fails(addr)?;
        if addr == COMMAND && self.register(DOORBELL) == DOORBELL_RING {
            self.polls.set(self.polls.get() + 1);
            if let Firmware::Answers { at_poll, code, result } = self.firmware {
                if self.polls.get() == at_poll {
                    let opcode = self.register(COMMAND) & 0xff;
                    self.set(COMMAND, (u32::from(code) << 16) | opcode);
                    self.set(ARGUMENT, result);
                }
            }
        }
        self.log.borrow_mut().push(Access::Read(addr));
        data.copy_from_slice(&self.register(addr).to_le_bytes());
        Ok(())
    }

    fn axi_write(&self, addr: u32, data: &[u8]) -> Result<(), PciError> {
        assert_eq!((addr % 4, data.len()), (0, 4));
        self.fails(addr)?;
        let value = u32::from_le_bytes([data[0], data[1], data[2], data[3]]);
        self.log.borrow_mut().push(Access::Write(addr, value));
        self.set(addr, value);
        Ok(())
    }

    fn noc_read(&self, _: u8, _: u8, _: u8, addr: u64, _: &mut [u8]) -> Result<(), PciError> {
        no_noc(addr)
    }

    fn noc_write(&self, _: u8, _: u8, _: u8, addr: u64, _: &[u8]) -> Result<(), PciError> {
        no_noc(addr)
    }

    fn noc_broadcast(&self, _: u8, addr: u64, _: &[u8]) -> Result<(), PciError> {
        no_noc(addr)
    }

    fn eth_noc_read(
        &self,
        _: EthAddr,
        _: u8,
        _: u8,
        _: u8,
        addr: u64,
        _: &mut [u8],
    ) -> Result<(), PciError> {
        no_noc(addr)
    }

    fn eth_noc_write(
        &self,
        _: EthAddr,
        _: u8,
        _: u8,
        _: u8,
        addr: u64,
        _: &[u8],
    ) -> Result<(), PciError> {
        no_noc(addr)
    }

    fn eth_noc_broadcast(&self, _: EthAddr, _: u8, addr: u64, _: &[u8]) -> Result<(), PciError> {
        no_noc(addr)
    }
}

fn waiting(opcode: u8, arg0: u16, arg1: u16) -> ArcMsg {
    ArcMsg { opcode, arg0, arg1, wait: WaitPolicy::Wait }
}

fn protocol(e: ArcMsgError) -> Result<ArcMsgOk, LuwenError> {
    Err(LuwenError::PlatformError(PlatformError::ArcMsgError(e)))
}

#[test]
fn answered_request_returns_code_and_result() {
    let chip = Chip::new(Firmware::Answers { at_poll: 3, code: 0, result: 0xcafe_f00d });
    let r = arc_msg(&chip, &mailbox(), &waiting(0x90, 106, 0), 100);
    assert_eq!(r, Ok(ArcMsgOk::Reply { rc: 0, arg: 0xcafe_f00d }));
    assert_eq!(
        chip.log(),
        vec![
            Access::Read(DOORBELL),
            Access::Write(ARGUMENT, 106),
            Access::Write(COMMAND, 0xaa90),
            Access::Write(DOORBELL, 1),
            Access::Read(COMMAND),
            Access::Read(COMMAND),
            Access::Read(COMMAND),
            Access::Read(ARGUMENT),
            Access::Write(DOORBELL, 0),
        ]
    );
    assert_eq!(chip.register(DOORBELL), DOORBELL_IDLE);
}

#[test]
fn arguments_share_one_word() {
    let chip = Chip::new(Firmware::Answers { at_poll: 1, code: 0, result: 0 });
    arc_msg(&chip, &mailbox(), &waiting(0x11, 0x1234, 0xabcd), 5).unwrap();
    assert_eq!(chip.log()[1], Access::Write(ARGUMENT, 0xabcd_1234));
    assert_eq!(chip.log()[2], Access::Write(COMMAND, REQUEST_TAG | 0x11));
}

#[test]
fn rejection_carries_the_code_and_still_clears_the_doorbell() {
    let chip = Chip::new(Firmware::Answers { at_poll: 1, code: 0xfffe, result: 9 });
    let r = arc_msg(&chip, &mailbox(), &waiting(0x42, 0, 0), 100);
    assert_eq!(r, protocol(ArcMsgError::Rejected { code: 0xfffe }));
    assert_eq!(chip.register(DOORBELL), DOORBELL_IDLE);
    assert_eq!(chip.polls(), 1);
}

#[test]
fn silent_mailbox_times_out_within_the_bound() {
    let chip = Chip::new(Firmware::Silent);
    let r = arc_msg(&chip, &mailbox(), &waiting(0x90, 0, 0), 25);
    assert_eq!(r, protocol(ArcMsgError::Timeout { polls: 25 }));
    assert_eq!(chip.polls(), 25);
    assert_eq!(chip.log().len(), 29);
}

#[test]
fn answer_at_the_last_poll_is_still_an_answer() {
    let chip = Chip::new(Firmware::Answers { at_poll: 25, code: 0, result: 1 });
    let r = arc_msg(&chip, &mailbox(), &waiting(0x90, 0, 0), 25);
    assert_eq!(r, Ok(ArcMsgOk::Reply { rc: 0, arg: 1 }));
    let chip = Chip::new(Firmware::Answers { at_poll: 26, code: 0, result: 1 });
    let r = arc_msg(&chip, &mailbox(), &waiting(0x90, 0, 0), 25);
    assert_eq!(r, protocol(ArcMsgError::Timeout { polls: 25 }));
}

#[test]
fn no_polls_allowed_is_a_timeout_without_polling() {
    let chip = Chip::new(Firmware::Answers { at_poll: 1, code: 0, result: 1 });
    let r = arc_msg(&chip, &mailbox(), &waiting(0x90, 0, 0), 0);
    assert_eq!(r, protocol(ArcMsgError::Timeout { polls: 0 }));
    assert_eq!(chip.polls(), 0);
    assert_eq!(chip.log().len(), 4);
}

#[test]
fn no_wait_returns_at_once_and_never_polls() {
    let chip = Chip::new(Firmware::Answers { at_poll: 1, code: 0, result: 1 });
    let msg = ArcMsg { opcode: 0x55, arg0: 1, arg1: 2, wait: WaitPolicy::NoWait };
    assert_eq!(arc_msg(&chip, &mailbox(), &msg, 1000), Ok(ArcMsgOk::OkNoWait));
    assert_eq!(
        chip.log(),
        vec![
            Access::Read(DOORBELL),
            Access::Write(ARGUMENT, 0x0002_0001),
            Access::Write(COMMAND, 0xaa55),
            Access::Write(DOORBELL, DOORBELL_RING),
        ]
    );
    assert_eq!(chip.polls(), 0);
}

#[test]
fn raised_doorbell_means_busy_and_nothing_is_written() {
    let chip = Chip::new(Firmware::Silent);
    chip.set(DOORBELL, DOORBELL_RING);
    let r = arc_msg(&chip, &mailbox(), &waiting(0x90, 1, 2), 10);
    assert_eq!(r, protocol(ArcMsgError::Busy));
    assert_eq!(chip.log(), vec![Access::Read(DOORBELL)]);
}

#[test]
fn exchange_is_not_repeated_after_a_timeout() {
    let chip = Chip::new(Firmware::Silent);
    let first = arc_msg(&chip, &mailbox(), &waiting(0x90, 0, 0), 3);
    assert_eq!(first, protocol(ArcMsgError::Timeout { polls: 3 }));
    let writes = chip.log().iter().filter(|a| matches!(a, Access::Write(..))).count();
    assert_eq!(writes, 3);
    let second = arc_msg(&chip, &mailbox(), &waiting(0x90, 0, 0), 3);
    assert_eq!(second, protocol(ArcMsgError::Busy));
}

#[test]
fn transport_failure_ends_the_exchange_where_it_stands() {
    for access in 0..9usize {
        let chip =
            Chip::failing_at(Firmware::Answers { at_poll: 3, code: 0, result: 7 }, access);
        let r = arc_msg(&chip, &mailbox(), &waiting(0x90, 0, 0), 100);
        match r {
            Err(LuwenError::PciError(e)) => {
                assert_eq!(e.failure, TransportFailure::LinkDown);
                assert_eq!(e.code, -19);
            }
            other => panic!("access {}: {:?}", access, other),
        }
        assert_eq!(chip.log().len(), access);
    }
    let chip = Chip::failing_at(Firmware::Answers { at_poll: 3, code: 0, result: 7 }, 9);
    assert_eq!(
        arc_msg(&chip, &mailbox(), &waiting(0x90, 0, 0), 100),
        Ok(ArcMsgOk::Reply { rc: 0, arg: 7 })
    );
}

#[test]
fn unaligned_mailbox_is_refused_before_any_access() {
    let chip = Chip::new(Firmware::Silent);
    let refused = |addr: u32| {
        Err(LuwenError::PlatformError(PlatformError::AxiError(AxiError::Unaligned {
            offset: u64::from(addr),
        })))
    };
    let mut bad = mailbox();
    bad.doorbell = AxiAddress { addr: DOORBELL + 2 };
    assert_eq!(arc_msg(&chip, &bad, &waiting(1, 0, 0), 1), refused(DOORBELL + 2));
    assert_eq!(bad.validate(), Err(AxiError::Unaligned { offset: u64::from(DOORBELL + 2) }));
    bad.argument = AxiAddress { addr: ARGUMENT + 1 };
    assert_eq!(arc_msg(&chip, &bad, &waiting(1, 0, 0), 1), refused(ARGUMENT + 1));
    bad.command = AxiAddress { addr: COMMAND + 3 };
    assert_eq!(arc_msg(&chip, &bad, &waiting(1, 0, 0), 1), refused(COMMAND + 3));
    assert_eq!(chip.log(), vec![]);
    assert_eq!(mailbox().validate(), Ok(()));
}

#[test]
fn stages_ask_for_their_access() {
    let m = mailbox();
    let msg = waiting(0x90, 106, 2);
    assert_eq!(ArcStage::Start.action(&m, &msg), ArcAction::Read(m.doorbell));
    assert_eq!(
        ArcStage::WriteArgument.action(&m, &msg),
        ArcAction::Write(m.argument, 0x0002_006a)
    );
    assert_eq!(ArcStage::WriteCommand.action(&m, &msg), ArcAction::Write(m.command, 0xaa90));
    assert_eq!(ArcStage::RingDoorbell.action(&m, &msg), ArcAction::Write(m.doorbell, 1));
    assert_eq!(ArcStage::Poll { remaining: 4 }.action(&m, &msg), ArcAction::Read(m.command));
    assert_eq!(ArcStage::ReadResult { code: 0 }.action(&m, &msg), ArcAction::Read(m.argument));
    assert_eq!(
        ArcStage::ClearDoorbell { code: 0, arg: 5 }.action(&m, &msg),
        ArcAction::Write(m.doorbell, 0)
    );
    assert_eq!(
        ArcStage::Done(Err(ArcMsgError::Busy)).action(&m, &msg),
        ArcAction::Finish(Err(ArcMsgError::Busy))
    );
}

#[test]
fn stages_follow_one_another() {
    let msg = waiting(0x90, 0, 0);
    assert_eq!(ArcStage::Start.advance(&msg, 3, 0), ArcStage::WriteArgument);
    assert_eq!(ArcStage::Start.advance(&msg, 3, 1), ArcStage::Done(Err(ArcMsgError::Busy)));
    assert_eq!(ArcStage::WriteArgument.advance(&msg, 3, 99), ArcStage::WriteCommand);
    assert_eq!(ArcStage::WriteCommand.advance(&msg, 3, 99), ArcStage::RingDoorbell);
    assert_eq!(ArcStage::RingDoorbell.advance(&msg, 3, 99), ArcStage::Poll { remaining: 3 });
    assert_eq!(
        ArcStage::Poll { remaining: 3 }.advance(&msg, 3, 0xaa90),
        ArcStage::Poll { remaining: 2 }
    );
    assert_eq!(
        ArcStage::Poll { remaining: 1 }.advance(&msg, 3, 0xaa90),
        ArcStage::Done(Err(ArcMsgError::Timeout { polls: 3 }))
    );
    assert_eq!(
        ArcStage::Poll { remaining: 2 }.advance(&msg, 3, 0x0007_0090),
        ArcStage::ReadResult { code: 7 }
    );
    assert_eq!(
        ArcStage::Poll { remaining: 2 }.advance(&msg, 3, 0xffff_ffff),
        ArcStage::Poll { remaining: 1 }
    );
    assert_eq!(
        ArcStage::ReadResult { code: 7 }.advance(&msg, 3, 0x1234),
        ArcStage::ClearDoorbell { code: 7, arg: 0x1234 }
    );
    assert_eq!(
        ArcStage::ClearDoorbell { code: 7, arg: 0x1234 }.advance(&msg, 3, 0),
        ArcStage::Done(Err(ArcMsgError::Rejected { code: 7 }))
    );
    assert_eq!(
        ArcStage::ClearDoorbell { code: 0, arg: 0x1234 }.advance(&msg, 3, 0),
        ArcStage::Done(Ok(ArcMsgOk::Reply { rc: 0, arg: 0x1234 }))
    );
    let over = ArcStage::Done(Ok(ArcMsgOk::OkNoWait));
    assert_eq!(over.advance(&msg, 3, 5), over);
}

#[test]
fn ringing_without_waiting_ends_the_exchange() {
    let msg = ArcMsg { opcode: 1, arg0: 0, arg1: 0, wait: WaitPolicy::NoWait };
    assert_eq!(
        ArcStage::RingDoorbell.advance(&msg, 50, 0),
        ArcStage::Done(Ok(ArcMsgOk::OkNoWait))
    );
    assert_eq!(
        ArcStage::RingDoorbell.advance(&waiting(1, 0, 0), 0, 0),
        ArcStage::Done(Err(ArcMsgError::Timeout { polls: 0 }))
    );
}
