//! The capability through which every chip is reached, whatever carries the traffic.

use vstd::prelude::*;
use std::sync::Arc;
use crate::address::EthAddr;
use crate::error::PciError;

verus! {

/// What a transport can say about the device behind it.
#[derive(Clone, Copy, Debug, PartialEq, Eq, Structural)]
pub struct DeviceInfo {
    pub interface_id: u32,
    pub domain: u16,
    pub bus: u16,
    pub slot: u16,
    pub function: u16,
    pub vendor: u16,
    pub device_id: u16,
    pub board_id: u16,
}

/// One operation of the capability and where it is aimed, without the bytes it moves.
#[derive(Clone, Copy, Debug, PartialEq, Eq, Structural)]
pub enum Call {
    AxiRead { addr: u32 },
    AxiWrite { addr: u32 },
    NocRead { noc_id: u8, x: u8, y: u8, offset: u64 },
    NocWrite { noc_id: u8, x: u8, y: u8, offset: u64 },
    NocBroadcast { noc_id: u8, offset: u64 },
    EthNocRead { eth_addr: EthAddr, noc_id: u8, x: u8, y: u8, offset: u64 },
    EthNocWrite { eth_addr: EthAddr, noc_id: u8, x: u8, y: u8, offset: u64 },
    EthNocBroadcast { eth_addr: EthAddr, noc_id: u8, offset: u64 },
}

/// The lowest level of chip communication. A chip is a resource that needs exclusive access
/// to be used safely; this trait does not enforce that, since its implementors are often
/// foreign code. Whoever holds an implementation serialises the calls into it.
///
/// Every operation moves exactly the bytes of `data` or fails: a transport never retries,
/// never corrects an alignment and never reports a partial transfer as success. What a read
/// returns is whatever the hardware holds at that moment, so nothing is promised of it here:
/// `answers` and `describes` name what a transport gave, and say no more of it than the
/// transport's own definition does. A transport that is made of another defines them by
/// that other's, which is how it states where its calls go.
pub trait ChipInterface {
    /// Whether `info` is what this transport says of its device. A transport that does not
    /// say otherwise may say anything.
    open spec fn describes(&self, info: Option<DeviceInfo>) -> bool {
        true
    }

    /// Whether this transport answers `call` with `result` when it is handed the buffer
    /// `data`, and hands the buffer back as `back`. A write hands its buffer back as it
    /// was. A transport that does not say otherwise may give any answer.
    open spec fn answers(&self, call: Call, data: Seq<u8>, back: Seq<u8>, result: Result<(), PciError>) -> bool {
        true
    }

    /// Information about the underlying device, where the transport can tell.
    fn get_device_info(&self) -> (info: Option<DeviceInfo>)
        ensures
            self.describes(info),
    ;

    /// Reads `data.len()` bytes from the local bus at `addr`.
    fn axi_read(&self, addr: u32, data: &mut [u8]) -> (r: Result<(), PciError>)
        ensures
            final(data)@.len() == old(data)@.len(),
            self.answers(Call::AxiRead { addr }, old(data)@, final(data)@, r),
    ;

    /// Writes `data` to the local bus at `addr`.
    fn axi_write(&self, addr: u32, data: &[u8]) -> (r: Result<(), PciError>)
        ensures
            self.answers(Call::AxiWrite { addr }, data@, data@, r),
    ;

    /// Reads from the core at (`x`, `y`) over router plane `noc_id`.
    fn noc_read(&self, noc_id: u8, x: u8, y: u8, addr: u64, data: &mut [u8]) -> (r: Result<
        (),
        PciError,
    >)
        ensures
            final(data)@.len() == old(data)@.len(),
            self.answers(Call::NocRead { noc_id, x, y, offset: addr }, old(data)@, final(data)@, r),
    ;

    /// Writes to the core at (`x`, `y`) over router plane `noc_id`.
    fn noc_write(&self, noc_id: u8, x: u8, y: u8, addr: u64, data: &[u8]) -> (r: Result<
        (),
        PciError,
    >)
        ensures
            self.answers(Call::NocWrite { noc_id, x, y, offset: addr }, data@, data@, r),
    ;

    /// Writes to every core of router plane `noc_id` at once. There is no broadcast read.
    fn noc_broadcast(&self, noc_id: u8, addr: u64, data: &[u8]) -> (r: Result<(), PciError>)
        ensures
            self.answers(Call::NocBroadcast { noc_id, offset: addr }, data@, data@, r),
    ;

    /// As `noc_read`, on the chip at `eth_addr`, reached through the Ethernet mesh.
    fn eth_noc_read(
        &self,
        eth_addr: EthAddr,
        noc_id: u8,
        x: u8,
        y: u8,
        addr: u64,
        data: &mut [u8],
    ) -> (r: Result<(), PciError>)
        ensures
            final(data)@.len() == old(data)@.len(),
            self.answers(
                Call::EthNocRead { eth_addr, noc_id, x, y, offset: addr },
                old(data)@,
                final(data)@,
                r,
            ),
    ;

    /// As `noc_write`, on the chip at `eth_addr`, reached through the Ethernet mesh.
    fn eth_noc_write(
        &self,
        eth_addr: EthAddr,
        noc_id: u8,
        x: u8,
        y: u8,
        addr: u64,
        data: &[u8],
    ) -> (r: Result<(), PciError>)
        ensures
            self.answers(Call::EthNocWrite { eth_addr, noc_id, x, y, offset: addr }, data@, data@, r),
    ;

    /// As `noc_broadcast`, on the chip at `eth_addr`, reached through the Ethernet mesh.
    fn eth_noc_broadcast(&self, eth_addr: EthAddr, noc_id: u8, addr: u64, data: &[u8]) -> (r:
        Result<(), PciError>)
        ensures
            self.answers(Call::EthNocBroadcast { eth_addr, noc_id, offset: addr }, data@, data@, r),
    ;
}

/// A shared transport is a transport: each call goes to the one behind the pointer, as it
/// is, and what that one gives is handed back as it is.
impl<T: ChipInterface + ?Sized> ChipInterface for Arc<T> {
    fn get_device_info(&self) -> (info: Option<DeviceInfo>) {
        (**self).get_device_info()
    }

    fn axi_read(&self, addr: u32, data: &mut [u8]) -> (r: Result<(), PciError>) {
        (**self).axi_read(addr, data)
    }

    fn axi_write(&self, addr: u32, data: &[u8]) -> (r: Result<(), PciError>) {
        (**self).axi_write(addr, data)
    }

    fn noc_read(&self, noc_id: u8, x: u8, y: u8, addr: u64, data: &mut [u8]) -> (r: Result<
        (),
        PciError,
    >) {
        (**self).noc_read(noc_id, x, y, addr, data)
    }

    fn noc_write(&self, noc_id: u8, x: u8, y: u8, addr: u64, data: &[u8]) -> (r: Result<
        (),
        PciError,
    >) {
        (**self).noc_write(noc_id, x, y, addr, data)
    }

    fn noc_broadcast(&self, noc_id: u8, addr: u64, data: &[u8]) -> (r: Result<(), PciError>) {
        (**self).noc_broadcast(noc_id, addr, data)
    }

    fn eth_noc_read(
        &self,
        eth_addr: EthAddr,
        noc_id: u8,
        x: u8,
        y: u8,
        addr: u64,
        data: &mut [u8],
    ) -> (r: Result<(), PciError>) {
        (**self).eth_noc_read(eth_addr, noc_id, x, y, addr, data)
    }

    fn eth_noc_write(
        &self,
        eth_addr: EthAddr,
        noc_id: u8,
        x: u8,
        y: u8,
        addr: u64,
        data: &[u8],
    ) -> (r: Result<(), PciError>) {
        (**self).eth_noc_write(eth_addr, noc_id, x, y, addr, data)
    }

    fn eth_noc_broadcast(&self, eth_addr: EthAddr, noc_id: u8, addr: u64, data: &[u8]) -> (r:
        Result<(), PciError>) {
        (**self).eth_noc_broadcast(eth_addr, noc_id, addr, data)
    }

    /// What the transport behind the pointer says of its device.
    open spec fn describes(&self, info: Option<DeviceInfo>) -> bool {
        (**self).describes(info)
    }

    /// What the transport behind the pointer answers.
    open spec fn answers(&self, call: Call, data: Seq<u8>, back: Seq<u8>, result: Result<(), PciError>) -> bool {
        (**self).answers(call, data, back, result)
    }
}

/// A borrowed transport is a transport: each call goes to the one that was borrowed, as it
/// is, and what that one gives is handed back as it is.
impl<T: ChipInterface + ?Sized> ChipInterface for &T {
    fn get_device_info(&self) -> (info: Option<DeviceInfo>) {
        (**self).get_device_info()
    }

    fn axi_read(&self, addr: u32, data: &mut [u8]) -> (r: Result<(), PciError>) {
        (**self).axi_read(addr, data)
    }

    fn axi_write(&self, addr: u32, data: &[u8]) -> (r: Result<(), PciError>) {
        (**self).axi_write(addr, data)
    }

    fn noc_read(&self, noc_id: u8, x: u8, y: u8, addr: u64, data: &mut [u8]) -> (r: Result<
        (),
        PciError,
    >) {
        (**self).noc_read(noc_id, x, y, addr, data)
    }

    fn noc_write(&self, noc_id: u8, x: u8, y: u8, addr: u64, data: &[u8]) -> (r: Result<
        (),
        PciError,
    >) {
        (**self).noc_write(noc_id, x, y, addr, data)
    }

    fn noc_broadcast(&self, noc_id: u8, addr: u64, data: &[u8]) -> (r: Result<(), PciError>) {
        (**self).noc_broadcast(noc_id, addr, data)
    }

    fn eth_noc_read(
        &self,
        eth_addr: EthAddr,
        noc_id: u8,
        x: u8,
        y: u8,
        addr: u64,
        data: &mut [u8],
    ) -> (r: Result<(), PciError>) {
        (**self).eth_noc_read(eth_addr, noc_id, x, y, addr, data)
    }

    fn eth_noc_write(
        &self,
        eth_addr: EthAddr,
        noc_id: u8,
        x: u8,
        y: u8,
        addr: u64,
        data: &[u8],
    ) -> (r: Result<(), PciError>) {
        (**self).eth_noc_write(eth_addr, noc_id, x, y, addr, data)
    }

    fn eth_noc_broadcast(&self, eth_addr: EthAddr, noc_id: u8, addr: u64, data: &[u8]) -> (r:
        Result<(), PciError>) {
        (**self).eth_noc_broadcast(eth_addr, noc_id, addr, data)
    }

    /// What the borrowed transport says of its device.
    open spec fn describes(&self, info: Option<DeviceInfo>) -> bool {
        (**self).describes(info)
    }

    /// What the borrowed transport answers.
    open spec fn answers(&self, call: Call, data: Seq<u8>, back: Seq<u8>, result: Result<(), PciError>) -> bool {
        (**self).answers(call, data, back, result)
    }
}

} // verus!
