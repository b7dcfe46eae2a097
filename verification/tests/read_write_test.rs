use std::cell::RefCell;

use ttchip::access::{axi_read32, axi_read_block, axi_write32, axi_write_block};
use ttchip::address::EthAddr;
use ttchip::chip_interface::{ChipInterface, DeviceInfo};
use ttchip::error::{AxiError, LuwenError, PciError, PlatformError, TransportFailure};

/// A transfer that reached the transport.
#[derive(Clone, Debug, PartialEq, Eq)]
enum Transfer {
    Read { addr: u32, len: usize },
    Write { addr: u32, len: usize },
}

/// A bus backed by memory that, like the hardware, takes whole aligned words only.
struct WordBus {
    base: u32,
    mem: RefCell<Vec<u8>>,
    log: RefCell<Vec<Transfer>>,
    fail_from: Option<usize>,
}

impl WordBus {
    fn new(base: u32, len: usize) -> WordBus {
        WordBus { base, mem: RefCell::new(vec![0; len]), log: RefCell::new(Vec::new()), fail_from: None }
    }

    fn failing_from(base: u32, len: usize, transfer: usize) -> WordBus {
        let mut bus = WordBus::new(base, len);
        bus.fail_from = Some(transfer);
        bus
    }

    fn check(&self, addr: u32, len: usize) -> Result<usize, PciError> {
        assert_eq!(addr % 4, 0, "transfer does not start on a word");
        assert_eq!(len % 4, 0, "transfer is not a whole number of words");
        assert!(len > 0, "empty transfer");
        if let Some(limit) = self.fail_from {
            if self.log.borrow().len() >= limit {
                return Err(PciError {
                    failure: TransportFailure::BusTimeout,
                    addr: u64::from(addr),
                    code: -110,
                });
            }
        }
        let at = (addr - self.base) as usize;
        assert!(at + len <= self.mem.borrow().len(), "transfer leaves the memory");
        Ok(at)
    }

    fn transfers(&self) -> Vec<Transfer> {
        self.log.borrow().clone()
    }

    fn bytes(&self, addr: u32, len: usize) -> Vec<u8> {
        let at = (addr - self.base) as usize;
        self.mem.borrow()[at..at + len].to_vec()
    }
}

fn unsupported(addr: u64) -> Result<(), PciError> {
    Err(PciError { failure: TransportFailure::LinkDown, addr, code: 0 })
}

impl ChipInterface for WordBus {
    fn get_device_info(&self) -> Option<DeviceInfo> {
        None
    }

    fn axi_read(&self, addr: u32, data: &mut [u8]) -> Result<(), PciError> {
        let at = self.check(addr, data.len())?;
        self.log.borrow_mut().push(Transfer::Read { addr, len: data.len() });
        data.copy_from_slice(&self.mem.borrow()[at..at + data.len()]);
        Ok(())
    }

    fn axi_write(&self, addr: u32, data: &[u8]) -> Result<(), PciError> {
        let at = self.check(addr, data.len())?;
        self.log.borrow_mut().push(Transfer::Write { addr, len: data.len() });
        self.mem.borrow_mut()[at..at + data.len()].copy_from_slice(data);
        Ok(())
    }

    fn noc_read(&self, _: u8, _: u8, _: u8, addr: u64, _: &mut [u8]) -> Result<(), PciError> {
        unsupported(addr)
    }

    fn noc_write(&self, _: u8, _: u8, _: u8, addr: u64, _: &[u8]) -> Result<(), PciError> {
        unsupported(addr)
    }

    fn noc_broadcast(&self, _: u8, addr: u64, _: &[u8]) -> Result<(), PciError> {
        unsupported(addr)
    }

    fn eth_noc_read(
        &self,
        _: EthAddr,
        _: u8,
        _: u8,
        _: u8,
        addr: u64,
        _: &mut [u8],
    ) -> Result<(), PciError> {
        unsupported(addr)
    }

    fn eth_noc_write(
        &self,
        _: EthAddr,
        _: u8,
        _: u8,
        _: u8,
        addr: u64,
        _: &[u8],
    ) -> Result<(), PciError> {
        unsupported(addr)
    }

    fn eth_noc_broadcast(&self, _: EthAddr, _: u8, addr: u64, _: &[u8]) -> Result<(), PciError> {
        unsupported(addr)
    }
}

struct TestFixture {
    raw_device: WordBus,
    aligned_addr: u32,
}

impl TestFixture {
    fn setup() -> Option<Self> {
        Some(TestFixture { raw_device: WordBus::new(0x1ff3_0000, 2048), aligned_addr: 0x1ff3_0100 })
    }
}

fn reset_test_area(fixture: &mut TestFixture, pattern: u32) {
    axi_write32(&fixture.raw_device, fixture.aligned_addr, pattern).unwrap();
    axi_write32(&fixture.raw_device, fixture.aligned_addr + 4, pattern).unwrap();
}

#[test]
fn wormhole_test_aligned_register_access() {
    let fixture = TestFixture::setup().expect("Hardware should be available");

    axi_write32(&fixture.raw_device, fixture.aligned_addr, 0x0000_faca).unwrap();
    let readback = axi_read32(&fixture.raw_device, fixture.aligned_addr).unwrap();
    assert_eq!(readback, 0x0000_faca, "Aligned read/write of 0xfaca failed, got 0x{:x}", readback);

    axi_write32(&fixture.raw_device, fixture.aligned_addr, 0xcdcd_cdcd).unwrap();
    let readback = axi_read32(&fixture.raw_device, fixture.aligned_addr).unwrap();
    assert_eq!(
        readback, 0xcdcd_cdcd,
        "Aligned read/write of 0xcdcdcdcd failed, got 0x{:x}",
        readback
    );

    axi_write32(&fixture.raw_device, fixture.aligned_addr + 4, 0xcdcd_cdcd).unwrap();
    let readback = axi_read32(&fixture.raw_device, fixture.aligned_addr + 4).unwrap();
    assert_eq!(
        readback, 0xcdcd_cdcd,
        "Aligned read/write at next word boundary failed, got 0x{:x}",
        readback
    );
}

#[test]
fn wormhole_test_unaligned_register_access() {
    let mut fixture = TestFixture::setup().expect("Hardware should be available");

    reset_test_area(&mut fixture, 0xcdcd_cdcd);

    axi_write32(&fixture.raw_device, fixture.aligned_addr + 1, 0xdead).unwrap();

    let readback = axi_read32(&fixture.raw_device, fixture.aligned_addr).unwrap();
    assert_eq!(
        readback, 0xdeadcd,
        "Unaligned write +1 effect on current word failed, got 0x{:x}",
        readback
    );

    let readback = axi_read32(&fixture.raw_device, fixture.aligned_addr + 4).unwrap();
    assert_eq!(
        readback, 0xcdcdcd00,
        "Unaligned write +1 effect on next word failed, got 0x{:x}",
        readback
    );

    reset_test_area(&mut fixture, 0xcdcd_cdcd);

    axi_write32(&fixture.raw_device, fixture.aligned_addr + 3, 0xc0ffe).unwrap();

    let readback = axi_read32(&fixture.raw_device, fixture.aligned_addr).unwrap();
    assert_eq!(
        readback, 0xfecdcdcd,
        "Unaligned write +3 effect on current word failed, got 0x{:x}",
        readback
    );

    let readback = axi_read32(&fixture.raw_device, fixture.aligned_addr + 4).unwrap();
    assert_eq!(
        readback, 0xcd000c0f,
        "Unaligned write +3 effect on next word failed, got 0x{:x}",
        readback
    );
}

#[test]
fn wormhole_test_sequential_pattern_reads() {
    let fixture = TestFixture::setup().expect("Hardware should be available");

    axi_write32(&fixture.raw_device, fixture.aligned_addr, 0x01234567).unwrap();
    let readback = axi_read32(&fixture.raw_device, fixture.aligned_addr).unwrap();
    assert_eq!(readback, 0x01234567, "Sequential pattern write/read failed, got 0x{:x}", readback);

    axi_write32(&fixture.raw_device, fixture.aligned_addr + 4, 0xabcdef).unwrap();
    let readback = axi_read32(&fixture.raw_device, fixture.aligned_addr + 4).unwrap();
    assert_eq!(
        readback, 0xabcdef,
        "Sequential pattern write/read at next word failed, got 0x{:x}",
        readback
    );

    let readback = axi_read32(&fixture.raw_device, fixture.aligned_addr + 1).unwrap();
    assert_eq!(
        readback, 0xef012345,
        "Unaligned read +1 with sequential pattern failed, got 0x{:x}",
        readback
    );

    let readback = axi_read32(&fixture.raw_device, fixture.aligned_addr + 3).unwrap();
    assert_eq!(
        readback, 0xabcdef01,
        "Unaligned read +3 with sequential pattern failed, got 0x{:x}",
        readback
    );
}

#[test]
fn wormhole_test_aligned_block_operations() {
    let fixture = TestFixture::setup().expect("Hardware should be available");

    let mut write_buffer = Vec::new();
    write_buffer.extend(0xcdcd_cdcdu32.to_le_bytes());
    write_buffer.extend(0xcdcd_cdcdu32.to_le_bytes());

    axi_write_block(&fixture.raw_device, fixture.aligned_addr, &write_buffer).unwrap();

    let mut readback_buffer = vec![0u8; write_buffer.len()];
    axi_read_block(&fixture.raw_device, fixture.aligned_addr, &mut readback_buffer).unwrap();

    assert_eq!(write_buffer, readback_buffer, "Aligned block write/read failed");
}

#[test]
fn wormhole_test_unaligned_block_operations() {
    let fixture = TestFixture::setup().expect("Hardware should be available");

    let mut reset_buffer = Vec::new();
    reset_buffer.extend(0xcdcd_cdcdu32.to_le_bytes());
    reset_buffer.extend(0xcdcd_cdcdu32.to_le_bytes());

    axi_write_block(&fixture.raw_device, fixture.aligned_addr, &reset_buffer).unwrap();

    let write_buffer = vec![0xad, 0xde];
    axi_write_block(&fixture.raw_device, fixture.aligned_addr + 1, &write_buffer).unwrap();

    let mut readback_buffer = vec![0u8; 4];
    axi_read_block(&fixture.raw_device, fixture.aligned_addr, &mut readback_buffer).unwrap();

    assert_eq!(
        [0xcd, 0xad, 0xde, 0xcd],
        readback_buffer.as_slice(),
        "Unaligned block write with offset +1 failed"
    );

    axi_write_block(&fixture.raw_device, fixture.aligned_addr, &reset_buffer).unwrap();

    let write_buffer = vec![0xad, 0xde];
    axi_write_block(&fixture.raw_device, fixture.aligned_addr + 3, &write_buffer).unwrap();

    let mut readback_buffer = vec![0u8; 7];
    axi_read_block(&fixture.raw_device, fixture.aligned_addr, &mut readback_buffer).unwrap();

    assert_eq!(
        [0xcd, 0xcd, 0xcd, 0xad, 0xde, 0xcd, 0xcd],
        readback_buffer.as_slice(),
        "Unaligned block write with offset +3 failed"
    );
}

#[test]
fn wormhole_test_sequential_pattern_block_operations() {
    let fixture = TestFixture::setup().expect("Hardware should be available");

    let mut write_buffer = Vec::new();
    write_buffer.extend(0x01234567u32.to_le_bytes());
    write_buffer.extend(0xabcdefu32.to_le_bytes());

    axi_write_block(&fixture.raw_device, fixture.aligned_addr, &write_buffer).unwrap();

    let mut readback_buffer = vec![0u8; write_buffer.len()];
    axi_read_block(&fixture.raw_device, fixture.aligned_addr, &mut readback_buffer).unwrap();

    assert_eq!(write_buffer, readback_buffer, "Sequential pattern block write/read failed");

    let reg_readback = axi_read32(&fixture.raw_device, fixture.aligned_addr + 1).unwrap();
    assert_eq!(
        reg_readback, 0xef012345,
        "Register read at +1 doesn't match expected pattern, got 0x{:x}",
        reg_readback
    );

    let mut readback_buffer = vec![0u8; 4];
    axi_read_block(&fixture.raw_device, fixture.aligned_addr + 1, &mut readback_buffer).unwrap();

    assert_eq!(
        [0x45, 0x23, 0x01, 0xef],
        readback_buffer.as_slice(),
        "Unaligned block read at +1 failed"
    );

    let mut readback_buffer = vec![0u8; 4];
    axi_read_block(&fixture.raw_device, fixture.aligned_addr + 3, &mut readback_buffer).unwrap();

    assert_eq!(
        [0x01, 0xef, 0xcd, 0xab],
        readback_buffer.as_slice(),
        "Unaligned block read at +3 failed"
    );
}

#[test]
fn wormhole_test_large_block_transfers() {
    let fixture = TestFixture::setup().expect("Hardware should be available");

    let mut write_buffer = vec![0; 1024];
    for (index, r) in write_buffer.iter_mut().enumerate() {
        let value = index % 256;
        *r = value as u8;
    }

    axi_write_block(&fixture.raw_device, fixture.aligned_addr, &write_buffer).unwrap();

    let mut readback_buffer = vec![0u8; write_buffer.len()];
    axi_read_block(&fixture.raw_device, fixture.aligned_addr, &mut readback_buffer).unwrap();

    assert_eq!(write_buffer, readback_buffer, "Large (1KB) aligned block transfer failed");

    axi_write_block(&fixture.raw_device, fixture.aligned_addr, &write_buffer).unwrap();

    let mut readback_buffer = vec![0u8; write_buffer.len()];
    axi_read_block(&fixture.raw_device, fixture.aligned_addr + 3, &mut readback_buffer).unwrap();

    assert_eq!(
        write_buffer[3..],
        readback_buffer[..readback_buffer.len() - 3],
        "Large block read with offset +3 failed"
    );

    let mut write_buffer = vec![0; 1024];
    for (index, r) in write_buffer.iter_mut().enumerate() {
        let value = index % 256;
        *r = value as u8;
    }

    axi_write_block(&fixture.raw_device, fixture.aligned_addr + 1, &write_buffer).unwrap();

    let mut readback_buffer = vec![0u8; write_buffer.len()];
    axi_read_block(&fixture.raw_device, fixture.aligned_addr + 1, &mut readback_buffer).unwrap();

    assert_eq!(write_buffer, readback_buffer, "Large block transfer with offset +1 failed");
}

#[test]
fn every_offset_and_width_writes_exactly_its_bytes() {
    for offset in 0..4u32 {
        for width in 1..=8usize {
            let bus = WordBus::new(0, 16);
            let before: Vec<u8> = (0..16).map(|i| 0xa0 + i as u8).collect();
            axi_write_block(&bus, 0, &before).unwrap();
            let data: Vec<u8> = (0..width).map(|i| 0x10 + i as u8).collect();
            axi_write_block(&bus, 4 + offset, &data).unwrap();

            let mut expected = before.clone();
            let at = 4 + offset as usize;
            expected[at..at + width].copy_from_slice(&data);
            assert_eq!(bus.bytes(0, 16), expected, "offset {} width {}", offset, width);
        }
    }
}

#[test]
fn block_read_and_word_read_agree_at_every_offset() {
    let bus = WordBus::new(0x100, 32);
    let pattern: Vec<u8> = (0..32).map(|i| (i * 7 + 3) as u8).collect();
    axi_write_block(&bus, 0x100, &pattern).unwrap();
    for offset in 0..24u32 {
        let word = axi_read32(&bus, 0x100 + offset).unwrap();
        let mut block = [0u8; 4];
        axi_read_block(&bus, 0x100 + offset, &mut block).unwrap();
        assert_eq!(word.to_le_bytes(), block, "offset {}", offset);
    }
}

#[test]
fn unaligned_word_write_reads_both_words_and_writes_both() {
    let bus = WordBus::new(0, 16);
    axi_write32(&bus, 5, 0x1122_3344).unwrap();
    assert_eq!(
        bus.transfers(),
        vec![
            Transfer::Read { addr: 4, len: 4 },
            Transfer::Read { addr: 8, len: 4 },
            Transfer::Write { addr: 4, len: 4 },
            Transfer::Write { addr: 8, len: 4 },
        ]
    );
    assert_eq!(bus.bytes(4, 8), vec![0, 0x44, 0x33, 0x22, 0x11, 0, 0, 0]);
}

#[test]
fn aligned_word_access_is_one_transfer() {
    let bus = WordBus::new(0, 16);
    axi_write32(&bus, 8, 7).unwrap();
    assert_eq!(axi_read32(&bus, 8), Ok(7));
    assert_eq!(
        bus.transfers(),
        vec![Transfer::Write { addr: 8, len: 4 }, Transfer::Read { addr: 8, len: 4 }]
    );
}

#[test]
fn narrow_write_reads_only_the_word_it_shares() {
    let bus = WordBus::new(0, 16);
    axi_write_block(&bus, 5, &[1, 2]).unwrap();
    assert_eq!(
        bus.transfers(),
        vec![Transfer::Read { addr: 4, len: 4 }, Transfer::Write { addr: 4, len: 4 }]
    );
}

#[test]
fn spanning_write_reads_first_and_last_word_only() {
    let bus = WordBus::new(0, 32);
    axi_write_block(&bus, 3, &[9; 14]).unwrap();
    assert_eq!(
        bus.transfers(),
        vec![
            Transfer::Read { addr: 0, len: 4 },
            Transfer::Read { addr: 16, len: 4 },
            Transfer::Write { addr: 0, len: 20 },
        ]
    );
}

#[test]
fn covering_write_reads_nothing() {
    let bus = WordBus::new(0, 32);
    axi_write_block(&bus, 8, &[9; 12]).unwrap();
    assert_eq!(bus.transfers(), vec![Transfer::Write { addr: 8, len: 12 }]);
}

#[test]
fn empty_transfers_reach_no_transport() {
    let bus = WordBus::new(0, 16);
    let mut none: [u8; 0] = [];
    assert_eq!(axi_write_block(&bus, 3, &[]), Ok(()));
    assert_eq!(axi_read_block(&bus, 3, &mut none), Ok(()));
    assert_eq!(bus.transfers(), vec![]);
}

#[test]
fn range_past_the_bus_is_refused_and_nothing_moves() {
    let bus = WordBus::new(0, 16);
    let refused = |e| Err(LuwenError::PlatformError(PlatformError::AxiError(e)));
    let mut out = [0x55u8; 8];
    assert_eq!(
        axi_read_block(&bus, 0xffff_fffc, &mut out),
        refused(AxiError::RangeOverflow { addr: 0xffff_fffc, len: 8 })
    );
    assert_eq!(out, [0x55; 8]);
    assert_eq!(
        axi_write_block(&bus, 0xffff_fffe, &[1, 2, 3]),
        refused(AxiError::RangeOverflow { addr: 0xffff_fffe, len: 3 })
    );
    assert_eq!(
        axi_read32(&bus, 0xffff_fffd),
        Err(LuwenError::PlatformError(PlatformError::AxiError(AxiError::RangeOverflow {
            addr: 0xffff_fffd,
            len: 4
        })))
    );
    assert_eq!(
        axi_write32(&bus, 0xffff_ffff, 1),
        refused(AxiError::RangeOverflow { addr: 0xffff_ffff, len: 4 })
    );
    assert_eq!(bus.transfers(), vec![]);
}

#[test]
fn transport_failure_is_returned_and_not_retried() {
    let bus = WordBus::failing_from(0, 16, 0);
    let failure = PciError { failure: TransportFailure::BusTimeout, addr: 4, code: -110 };
    assert_eq!(axi_read32(&bus, 4), Err(LuwenError::PciError(failure)));
    assert_eq!(axi_write32(&bus, 4, 1), Err(LuwenError::PciError(failure)));
    let mut out = [0u8; 4];
    assert_eq!(axi_read_block(&bus, 5, &mut out), Err(LuwenError::PciError(failure)));
    assert_eq!(axi_write_block(&bus, 5, &[1]), Err(LuwenError::PciError(failure)));
    assert_eq!(bus.transfers(), vec![]);
}

#[test]
fn transport_failure_midway_stops_the_write() {
    let bus = WordBus::failing_from(0, 16, 3);
    let failure = PciError { failure: TransportFailure::BusTimeout, addr: 8, code: -110 };
    assert_eq!(axi_write32(&bus, 6, 0xaabb_ccdd), Err(LuwenError::PciError(failure)));
    assert_eq!(
        bus.transfers(),
        vec![
            Transfer::Read { addr: 4, len: 4 },
            Transfer::Read { addr: 8, len: 4 },
            Transfer::Write { addr: 4, len: 4 },
        ]
    );
    assert_eq!(bus.bytes(4, 8), vec![0, 0, 0xdd, 0xcc, 0, 0, 0, 0]);
}

#[test]
fn shared_transport_forwards_every_call() {
    let bus = std::sync::Arc::new(WordBus::new(0, 16));
    axi_write32(&bus, 4, 0x0bad_cafe).unwrap();
    assert_eq!(axi_read32(&bus, 4), Ok(0x0bad_cafe));
    assert_eq!(bus.bytes(4, 4), vec![0xfe, 0xca, 0xad, 0x0b]);
    assert_eq!(bus.get_device_info(), None);
    let dynamic: std::sync::Arc<dyn ChipInterface + Send + Sync> =
        std::sync::Arc::new(SilentBus);
    assert_eq!(axi_read32(&dynamic, 0), Ok(0));
    assert_eq!(dynamic.noc_broadcast(0, 0, &[]), Ok(()));
}

/// A transport that accepts everything and holds nothing.
struct SilentBus;

impl ChipInterface for SilentBus {
    fn get_device_info(&self) -> Option<DeviceInfo> {
        None
    }

    fn axi_read(&self, _: u32, data: &mut [u8]) -> Result<(), PciError> {
        data.fill(0);
        Ok(())
    }

    fn axi_write(&self, _: u32, _: &[u8]) -> Result<(), PciError> {
        Ok(())
    }

    fn noc_read(&self, _: u8, _: u8, _: u8, _: u64, _: &mut [u8]) -> Result<(), PciError> {
        Ok(())
    }

    fn noc_write(&self, _: u8, _: u8, _: u8, _: u64, _: &[u8]) -> Result<(), PciError> {
        Ok(())
    }

    fn noc_broadcast(&self, _: u8, _: u64, _: &[u8]) -> Result<(), PciError> {
        Ok(())
    }

    fn eth_noc_read(
        &self,
        _: EthAddr,
        _: u8,
        _: u8,
        _: u8,
        _: u64,
        _: &mut [u8],
    ) -> Result<(), PciError> {
        Ok(())
    }

    fn eth_noc_write(
        &self,
        _: EthAddr,
        _: u8,
        _: u8,
        _: u8,
        _: u64,
        _: &[u8],
    ) -> Result<(), PciError> {
        Ok(())
    }

    fn eth_noc_broadcast(&self, _: EthAddr, _: u8, _: u64, _: &[u8]) -> Result<(), PciError> {
        Ok(())
    }
}
