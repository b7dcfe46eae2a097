use std::cell::RefCell;
use std::collections::HashMap;
use std::sync::Arc;

use ttchip::address::{AxiAddress, EthAddr, GridSize, NocId};
use ttchip::arch::Arch;
use ttchip::chip::{create_chip, ArchProfile, DetectConfig};
use ttchip::chip_interface::{ChipInterface, DeviceInfo};
use ttchip::error::{AxiError, PciError, TTError, TransportFailure};
use ttchip::mesh::MeshWalk;
use ttchip::transport::{Gateway, Route, Transport, GATEWAY_BASE_MAX};

const TAG: u32 = 0x1ff3_0000;
const GATE_BASE: u64 = 0x8_0000_0000;

#[derive(Clone, Debug, PartialEq, Eq)]
enum Call {
    AxiRead(u32),
    AxiWrite(u32, Vec<u8>),
    NocRead(u8, u8, u8, u64),
    NocWrite(u8, u8, u8, u64, Vec<u8>),
    NocBroadcast(u8, u64, Vec<u8>),
    EthNocRead(EthAddr, u8, u8, u8, u64),
    EthNocWrite(EthAddr, u8, u8, u8, u64, Vec<u8>),
    EthNocBroadcast(EthAddr, u8, u64, Vec<u8>),
}

/// The local bus of one chip of a mesh. Reads of the tag register answer with the tag of
/// the chip they are aimed at; a chip that is not in the mesh cannot be reached.
struct MeshBus {
    local_tag: u32,
    remote_tags: HashMap<EthAddr, u32>,
    calls: RefCell<Vec<Call>>,
}

impl MeshBus {
    fn new(local_tag: u32) -> MeshBus {
        MeshBus { local_tag, remote_tags: HashMap::new(), calls: RefCell::new(Vec::new()) }
    }

    fn calls(&self) -> Vec<Call> {
        self.calls.borrow().clone()
    }
}

impl ChipInterface for MeshBus {
    fn get_device_info(&self) -> Option<DeviceInfo> {
        Some(DeviceInfo {
            interface_id: 0,
            domain: 0,
            bus: 4,
            slot: 0,
            function: 0,
            vendor: 0x1e52,
            device_id: self.local_tag as u16,
            board_id: 0,
        })
    }

    fn axi_read(&self, addr: u32, data: &mut [u8]) -> Result<(), PciError> {
        self.calls.borrow_mut().push(Call::AxiRead(addr));
        data.copy_from_slice(&self.local_tag.to_le_bytes()[..data.len()]);
        Ok(())
    }

    fn axi_write(&self, addr: u32, data: &[u8]) -> Result<(), PciError> {
        self.calls.borrow_mut().push(Call::AxiWrite(addr, data.to_vec()));
        Ok(())
    }

    fn noc_read(&self, noc_id: u8, x: u8, y: u8, addr: u64, data: &mut [u8]) -> Result<(), PciError> {
        self.calls.borrow_mut().push(Call::NocRead(noc_id, x, y, addr));
        data.copy_from_slice(&self.local_tag.to_le_bytes()[..data.len()]);
        Ok(())
    }

    fn noc_write(&self, noc_id: u8, x: u8, y: u8, addr: u64, data: &[u8]) -> Result<(), PciError> {
        self.calls.borrow_mut().push(Call::NocWrite(noc_id, x, y, addr, data.to_vec()));
        Ok(())
    }

    fn noc_broadcast(&self, noc_id: u8, addr: u64, data: &[u8]) -> Result<(), PciError> {
        self.calls.borrow_mut().push(Call::NocBroadcast(noc_id, addr, data.to_vec()));
        Ok(())
    }

    fn eth_noc_read(
        &self,
        eth_addr: EthAddr,
        noc_id: u8,
        x: u8,
        y: u8,
        addr: u64,
        data: &mut [u8],
    ) -> Result<(), PciError> {
        self.calls.borrow_mut().push(Call::EthNocRead(eth_addr, noc_id, x, y, addr));
        match self.remote_tags.get(&eth_addr) {
            Some(tag) => {
                data.copy_from_slice(&tag.to_le_bytes()[..data.len()]);
                Ok(())
            }
            None => Err(PciError { failure: TransportFailure::LinkDown, addr, code: -67 }),
        }
    }

    fn eth_noc_write(
        &self,
        eth_addr: EthAddr,
        noc_id: u8,
        x: u8,
        y: u8,
        addr: u64,
        data: &[u8],
    ) -> Result<(), PciError> {
        self.calls.borrow_mut().push(Call::EthNocWrite(eth_addr, noc_id, x, y, addr, data.to_vec()));
        Ok(())
    }

    fn eth_noc_broadcast(
        &self,
        eth_addr: EthAddr,
        noc_id: u8,
        addr: u64,
        data: &[u8],
    ) -> Result<(), PciError> {
        self.calls.borrow_mut().push(Call::EthNocBroadcast(eth_addr, noc_id, addr, data.to_vec()));
        Ok(())
    }
}

fn gateway() -> Gateway {
    Gateway::new(NocId::Noc0, 0, 10, GATE_BASE).unwrap()
}

fn at(x: u8, y: u8) -> EthAddr {
    EthAddr { shelf_x: x, shelf_y: y, rack_x: 0, rack_y: 0 }
}

fn config() -> DetectConfig {
    let profile = ArchProfile { grid: GridSize { width: 10, height: 12 }, firmware: None };
    DetectConfig {
        tag_register: AxiAddress { addr: TAG },
        grayskull: profile,
        wormhole: profile,
        blackhole: profile,
    }
}

#[test]
fn gateway_base_has_to_leave_room_for_the_bus() {
    assert!(Gateway::new(NocId::Noc1, 1, 2, 0).is_ok());
    assert!(Gateway::new(NocId::Noc1, 1, 2, GATEWAY_BASE_MAX).is_ok());
    assert_eq!(
        Gateway::new(NocId::Noc1, 1, 2, GATEWAY_BASE_MAX + 4),
        Err(AxiError::OffsetTooWide { offset: GATEWAY_BASE_MAX + 4 })
    );
    assert_eq!(
        Gateway::new(NocId::Noc1, 1, 2, 0x8_0000_0002),
        Err(AxiError::Unaligned { offset: 0x8_0000_0002 })
    );
    assert_eq!(
        Gateway::new(NocId::Noc1, 1, 2, u64::MAX),
        Err(AxiError::OffsetTooWide { offset: u64::MAX })
    );
    assert_eq!(gateway().translate(0), GATE_BASE);
    assert_eq!(gateway().translate(0xffff_ffff), GATE_BASE + 0xffff_ffff);
    let top = Gateway::new(NocId::Noc0, 0, 0, GATEWAY_BASE_MAX).unwrap();
    assert_eq!(top.translate(0xffff_ffff), u64::MAX);
}

#[test]
fn local_route_passes_every_call_on() {
    let chip = Transport::local(MeshBus::new(0x401e));
    assert_eq!(chip.route(), Route::Local);
    assert!(!chip.is_remote());
    let mut out = [0u8; 4];
    chip.axi_read(0x10, &mut out).unwrap();
    chip.axi_write(0x14, &[1, 2, 3, 4]).unwrap();
    chip.noc_read(1, 2, 3, 0x20, &mut out).unwrap();
    chip.noc_write(1, 2, 3, 0x24, &[5]).unwrap();
    chip.noc_broadcast(0, 0x28, &[6]).unwrap();
    chip.eth_noc_write(at(1, 0), 0, 2, 3, 0x30, &[7]).unwrap();
    chip.eth_noc_broadcast(at(1, 0), 0, 0x34, &[8]).unwrap();
    assert!(chip.eth_noc_read(at(1, 0), 0, 2, 3, 0x38, &mut out).is_err());
    assert_eq!(chip.get_device_info().map(|i| i.device_id), Some(0x401e));
}

#[test]
fn grid_route_reaches_the_local_bus_through_the_gateway() {
    let base = Arc::new(MeshBus::new(0xb140));
    let chip = Transport::noc(Arc::clone(&base), gateway());
    assert_eq!(chip.route(), Route::Noc(gateway()));
    assert!(!chip.is_remote());
    let mut out = [0u8; 4];
    chip.axi_read(0x1ff3_0060, &mut out).unwrap();
    chip.axi_write(0x1ff3_0064, &[1, 2, 3, 4]).unwrap();
    chip.noc_read(1, 2, 3, 0x20, &mut out).unwrap();
    chip.noc_broadcast(1, 0x28, &[6]).unwrap();
    assert_eq!(
        base.calls(),
        vec![
            Call::NocRead(0, 0, 10, GATE_BASE + 0x1ff3_0060),
            Call::NocWrite(0, 0, 10, GATE_BASE + 0x1ff3_0064, vec![1, 2, 3, 4]),
            Call::NocRead(1, 2, 3, 0x20),
            Call::NocBroadcast(1, 0x28, vec![6]),
        ]
    );
    assert_eq!(chip.get_device_info().map(|i| i.bus), Some(4));
}

#[test]
fn mesh_route_tunnels_every_call_to_its_chip() {
    let mut bus = MeshBus::new(0x401e);
    bus.remote_tags.insert(at(1, 0), 0x401e);
    let base = Arc::new(bus);
    let chip = Transport::eth(Arc::clone(&base), at(1, 0), gateway());
    assert_eq!(chip.route(), Route::Eth(at(1, 0), gateway()));
    assert!(chip.is_remote());
    let mut out = [0u8; 4];
    chip.axi_read(0x60, &mut out).unwrap();
    chip.axi_write(0x64, &[1, 2, 3, 4]).unwrap();
    chip.noc_read(1, 2, 3, 0x20, &mut out).unwrap();
    chip.noc_write(1, 2, 3, 0x24, &[5]).unwrap();
    chip.noc_broadcast(1, 0x28, &[6]).unwrap();
    chip.eth_noc_write(at(2, 0), 0, 4, 5, 0x30, &[7]).unwrap();
    assert_eq!(
        base.calls(),
        vec![
            Call::EthNocRead(at(1, 0), 0, 0, 10, GATE_BASE + 0x60),
            Call::EthNocWrite(at(1, 0), 0, 0, 10, GATE_BASE + 0x64, vec![1, 2, 3, 4]),
            Call::EthNocRead(at(1, 0), 1, 2, 3, 0x20),
            Call::EthNocWrite(at(1, 0), 1, 2, 3, 0x24, vec![5]),
            Call::EthNocBroadcast(at(1, 0), 1, 0x28, vec![6]),
            Call::EthNocWrite(at(2, 0), 0, 4, 5, 0x30, vec![7]),
        ]
    );
    assert_eq!(chip.get_device_info(), None);
}

#[test]
fn chips_of_a_ring_are_each_detected_once() {
    let size: u8 = 5;
    let mut bus = MeshBus::new(0x401e);
    for x in 1..size {
        bus.remote_tags.insert(at(x, 0), 0x401e);
    }
    let base = Arc::new(bus);
    let neighbours = |a: EthAddr| [at((a.shelf_x + 1) % size, 0), at((a.shelf_x + size - 1) % size, 0)];

    let local = create_chip(0, Ok(Transport::local(Arc::clone(&base))), &config()).ok().unwrap();
    assert_eq!(local.arch(), Arch::Wormhole);

    let mut walk = MeshWalk::new(at(0, 0));
    walk.discover(&neighbours(at(0, 0)));
    let mut remote = Vec::new();
    while let Some(eth) = walk.next() {
        let transport = Transport::eth(Arc::clone(&base), eth, gateway());
        let chip = create_chip(0, Ok(transport), &config()).ok().unwrap();
        assert!(chip.chip().transport().is_remote());
        assert_eq!(chip.chip().transport().route(), Route::Eth(eth, gateway()));
        remote.push(eth);
        walk.discover(&neighbours(eth));
    }
    assert_eq!(remote, vec![at(1, 0), at(4, 0), at(2, 0), at(3, 0)]);
    let tag_reads = base
        .calls()
        .iter()
        .filter(|c| matches!(c, Call::EthNocRead(_, 0, 0, 10, a) if *a == GATE_BASE + u64::from(TAG)))
        .count();
    assert_eq!(tag_reads, 4);
}

#[test]
fn chip_behind_a_dead_link_is_a_transport_failure() {
    let base = Arc::new(MeshBus::new(0x401e));
    let transport = Transport::eth(Arc::clone(&base), at(9, 9), gateway());
    let r = create_chip(0, Ok(transport), &config());
    let expected = PciError {
        failure: TransportFailure::LinkDown,
        addr: GATE_BASE + u64::from(TAG),
        code: -67,
    };
    assert_eq!(r.err(), Some(TTError::PciError(expected)));
}
