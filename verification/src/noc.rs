//! Byte-exact access to the cores of a chip's grid, on the chip itself or across the
//! Ethernet mesh.
//!
//! The destination is checked first: one that does not exist is refused with an addressing
//! error before anything reaches the transport, and is never brought into range. A read or
//! a write then goes the way of the local bus: the word in which its first byte lies becomes
//! the base of a gateway into the core, and the block is read or written through that
//! gateway, in whole words. A broadcast cannot read, so it takes whole words only.

use vstd::prelude::*;
use vstd::pervasive::unreached;
use crate::access::{axi_read_block, axi_write_block, block_read_by, block_refusal,
    block_written_by, done_or_transport, refused};
use crate::address::{EthAddr, GridSize, NocAddress, NocId, header_refusal};
use crate::chip_interface::{Call, ChipInterface};
use crate::error::{AxiError, LuwenError, PciError};
use crate::transport::{GATEWAY_BASE_MAX, Gateway, Route, Transport};

verus! {

/// How far into its word byte `offset` of a core lies.
pub open spec fn in_word(offset: u64) -> u32 {
    (offset % 4) as u32
}

/// Why `len` bytes at byte `offset` of a core cannot be accessed, if they cannot: the word
/// in which the first byte lies is too high to be the base of a gateway, or the block is too
/// long.
pub open spec fn core_refusal(offset: u64, len: nat) -> Option<AxiError> {
    if offset - offset % 4 > GATEWAY_BASE_MAX {
        Some(AxiError::OffsetTooWide { offset })
    } else {
        block_refusal(in_word(offset), len)
    }
}

/// Why `len` bytes at `at` cannot be accessed on a chip whose grid is `grid`, if they
/// cannot: the core is off the grid, or the bytes cannot be accessed in it.
pub open spec fn noc_refusal(grid: GridSize, at: NocAddress, len: nat) -> Option<AxiError> {
    if !grid.spec_contains(at.x, at.y) {
        Some(AxiError::NocOutOfGrid { x: at.x, y: at.y, width: grid.width, height: grid.height })
    } else {
        core_refusal(at.offset, len)
    }
}

/// Why `len` bytes at `at` cannot be accessed on the chip at `eth`, if they cannot: the
/// core is off the grid, the tunnel header has no room for the destination, or the bytes
/// cannot be accessed in the core.
pub open spec fn eth_refusal(eth: EthAddr, grid: GridSize, at: NocAddress, len: nat) -> Option<
    AxiError,
> {
    if !grid.spec_contains(at.x, at.y) {
        Some(AxiError::NocOutOfGrid { x: at.x, y: at.y, width: grid.width, height: grid.height })
    } else if header_refusal(eth, at.x, at.y, at.offset) is Some {
        header_refusal(eth, at.x, at.y, at.offset)
    } else {
        core_refusal(at.offset, len)
    }
}

/// The gateway into the core that `at` names, based at the word in which byte `at.offset`
/// lies.
pub open spec fn core_gateway(at: NocAddress) -> Gateway {
    Gateway::spec_new(at.noc_id, at.x, at.y, (at.offset - at.offset % 4) as u64)
}

/// The way from `chip` into the core that `at` names on the chip itself: bus address `a`
/// of this port is byte `a` from the word in which byte `at.offset` lies.
pub open spec fn core_port<T: ChipInterface>(chip: &T, at: NocAddress) -> Transport<&T> {
    Transport::spec_new(chip, Route::Noc(core_gateway(at)))
}

/// The way from `chip` into the core that `at` names on the chip at `eth`.
pub open spec fn remote_port<T: ChipInterface>(chip: &T, eth: EthAddr, at: NocAddress) -> Transport<&T> {
    Transport::spec_new(chip, Route::Eth(eth, core_gateway(at)))
}

/// The byte of the core that stands for bus address `addr` of a port into the core at
/// `at`.
pub open spec fn port_offset(at: NocAddress, addr: u32) -> u64 {
    (at.offset - at.offset % 4 + addr) as u64
}

/// A read or a write on a port into a core is that read or write on the core: on the plane
/// and at the coordinate that `at` names, at the byte that stands for the bus address; and
/// across the mesh, on the chip at `eth`.
pub proof fn lemma_port_answers<T: ChipInterface>(
    chip: &T,
    eth: EthAddr,
    at: NocAddress,
    addr: u32,
    data: Seq<u8>,
    back: Seq<u8>,
    result: Result<(), PciError>,
)
    ensures
        core_port(chip, at).answers(Call::AxiRead { addr }, data, back, result) == chip.answers(
            Call::NocRead {
                noc_id: at.noc_id.spec_index(),
                x: at.x,
                y: at.y,
                offset: port_offset(at, addr),
            },
            data,
            back,
            result,
        ),
        core_port(chip, at).answers(Call::AxiWrite { addr }, data, back, result) == chip.answers(
            Call::NocWrite {
                noc_id: at.noc_id.spec_index(),
                x: at.x,
                y: at.y,
                offset: port_offset(at, addr),
            },
            data,
            back,
            result,
        ),
        remote_port(chip, eth, at).answers(Call::AxiRead { addr }, data, back, result)
            == chip.answers(
            Call::EthNocRead {
                eth_addr: eth,
                noc_id: at.noc_id.spec_index(),
                x: at.x,
                y: at.y,
                offset: port_offset(at, addr),
            },
            data,
            back,
            result,
        ),
        remote_port(chip, eth, at).answers(Call::AxiWrite { addr }, data, back, result)
            == chip.answers(
            Call::EthNocWrite {
                eth_addr: eth,
                noc_id: at.noc_id.spec_index(),
                x: at.x,
                y: at.y,
                offset: port_offset(at, addr),
            },
            data,
            back,
            result,
        ),
{
    let gateway = core_gateway(at);
    Gateway::lemma_spec_new(at.noc_id, at.x, at.y, (at.offset - at.offset % 4) as u64);
    Transport::<&T>::lemma_spec_new(chip, Route::Noc(gateway));
    Transport::<&T>::lemma_spec_new(chip, Route::Eth(eth, gateway));
}

/// The gateway into the core that `at` names, based at the word in which byte `at.offset`
/// lies.
fn gateway_at(at: &NocAddress) -> (r: Result<Gateway, AxiError>)
    ensures
        r is Ok <==> at.offset - at.offset % 4 <= GATEWAY_BASE_MAX,
        r matches Ok(g) ==> g == core_gateway(*at),
        r matches Err(e) ==> e == (AxiError::OffsetTooWide { offset: at.offset }),
{
    let base: u64 = at.offset - at.offset % 4;
    if base > GATEWAY_BASE_MAX {
        return Err(AxiError::OffsetTooWide { offset: at.offset });
    }
    match Gateway::new(at.noc_id, at.x, at.y, base) {
        Ok(g) => Ok(g),
        Err(_) => unreached(),
    }
}

/// Reads `data.len()` bytes from the core that `at` names: as `axi_read_block` reads them
/// through the port into that core, from the byte of the port at which `at.offset` lies. A
/// refused destination and a failed transfer leave `data` as it was.
pub fn noc_read<T: ChipInterface>(chip: &T, grid: &GridSize, at: &NocAddress, data: &mut [u8]) -> (r:
    Result<(), LuwenError>)
    ensures
        final(data)@.len() == old(data)@.len(),
        noc_refusal(*grid, *at, old(data)@.len()) matches Some(e) ==> r == Err::<(), LuwenError>(
            refused(e),
        ) && final(data)@ == old(data)@,
        noc_refusal(*grid, *at, old(data)@.len()) is None ==> done_or_transport(r),
        noc_refusal(*grid, *at, old(data)@.len()) is None ==> block_read_by(
            &core_port(chip, *at),
            in_word(at.offset),
            old(data)@,
            r,
            final(data)@,
        ),
{
    match at.validate(grid) {
        Ok(()) => {},
        Err(e) => {
            return Err(LuwenError::from(e));
        },
    }
    let gateway = match gateway_at(at) {
        Ok(g) => g,
        Err(e) => {
            return Err(LuwenError::from(e));
        },
    };
    let port = Transport::noc(chip, gateway);
    axi_read_block(&port, (at.offset % 4) as u32, data)
}

/// Writes `data` to the core that `at` names: as `axi_write_block` writes it through the
/// port into that core, from the byte of the port at which `at.offset` lies.
pub fn noc_write<T: ChipInterface>(chip: &T, grid: &GridSize, at: &NocAddress, data: &[u8]) -> (r:
    Result<(), LuwenError>)
    ensures
        noc_refusal(*grid, *at, data@.len()) matches Some(e) ==> r == Err::<(), LuwenError>(
            refused(e),
        ),
        noc_refusal(*grid, *at, data@.len()) is None ==> done_or_transport(r),
        noc_refusal(*grid, *at, data@.len()) is None ==> block_written_by(
            &core_port(chip, *at),
            in_word(at.offset),
            data,
            r,
        ),
{
    match at.validate(grid) {
        Ok(()) => {},
        Err(e) => {
            return Err(LuwenError::from(e));
        },
    }
    let gateway = match gateway_at(at) {
        Ok(g) => g,
        Err(e) => {
            return Err(LuwenError::from(e));
        },
    };
    let port = Transport::noc(chip, gateway);
    axi_write_block(&port, (at.offset % 4) as u32, data)
}

/// Why `len` bytes cannot be broadcast at `addr`, if they cannot: they would cover some
/// word only in part, or run off the end of a core's address space. No bytes always can.
///
/// A write that covers a word in part is carried out by reading the word first. A
/// broadcast goes to every core at once and no read does, so there is no one word to read:
/// such a broadcast cannot be carried out byte-exactly and is refused.
pub open spec fn broadcast_refusal(addr: u64, len: nat) -> Option<AxiError> {
    if len == 0 {
        None
    } else if addr % 4 != 0 || len % 4 != 0 {
        Some(AxiError::PartialBroadcast { offset: addr, len: len as usize })
    } else if addr + len > u64::MAX + 1 {
        Some(AxiError::OffsetTooWide { offset: addr })
    } else {
        None
    }
}

/// Checks that `len` bytes can be broadcast at `addr`.
fn check_broadcast(addr: u64, len: usize) -> (r: Result<(), AxiError>)
    ensures
        r is Ok <==> broadcast_refusal(addr, len as nat) is None,
        r matches Err(e) ==> broadcast_refusal(addr, len as nat) == Some(e),
{
    if len == 0 {
        Ok(())
    } else if addr % 4 != 0 || len % 4 != 0 {
        Err(AxiError::PartialBroadcast { offset: addr, len })
    } else if len as u64 - 1 > u64::MAX - addr {
        Err(AxiError::OffsetTooWide { offset: addr })
    } else {
        Ok(())
    }
}

/// Whether `r` is what handing the broadcast `call` of `data` to `chip` gave: the transport
/// answered that very call with that very data, `r` is success if its answer was, and the
/// failure it answered with if not.
pub open spec fn broadcast_by<T: ChipInterface>(
    chip: &T,
    call: Call,
    data: Seq<u8>,
    r: Result<(), LuwenError>,
) -> bool {
    exists|answer: Result<(), PciError>|
        #[trigger] chip.answers(call, data, data, answer) && (answer is Ok <==> r is Ok)
            && (answer matches Err(e) ==> r == Err::<(), LuwenError>(LuwenError::PciError(e)))
}

/// Writes `data` at `addr` in every core of router plane `noc_id`. A broadcast names no
/// coordinate, so there is none to refuse; but it has to be of whole words, since nothing
/// can be read to fill a word that it covers in part. A broadcast of no bytes issues no
/// transfer; any other that is not refused is handed to the transport as it is, once.
pub fn noc_broadcast<T: ChipInterface>(chip: &T, noc_id: NocId, addr: u64, data: &[u8]) -> (r:
    Result<(), LuwenError>)
    ensures
        broadcast_refusal(addr, data@.len()) matches Some(e) ==> r == Err::<(), LuwenError>(
            refused(e),
        ),
        broadcast_refusal(addr, data@.len()) is None ==> done_or_transport(r),
        data@.len() == 0 ==> r is Ok,
        broadcast_refusal(addr, data@.len()) is None && data@.len() > 0 ==> broadcast_by(
            chip,
            Call::NocBroadcast { noc_id: noc_id.spec_index(), offset: addr },
            data@,
            r,
        ),
{
    match check_broadcast(addr, data.len()) {
        Ok(()) => {},
        Err(e) => {
            return Err(LuwenError::from(e));
        },
    }
    if data.len() == 0 {
        return Ok(());
    }
    let answer = chip.noc_broadcast(noc_id.index(), addr, data);
    match answer {
        Ok(_) => Ok(()),
        Err(e) => Err(LuwenError::PciError(e)),
    }
}

/// Reads `data.len()` bytes from the core that `at` names on the chip at `eth`: as
/// `axi_read_block` reads them through the port into that core. A refused destination and
/// a failed transfer leave `data` as it was.
pub fn eth_noc_read<T: ChipInterface>(
    chip: &T,
    eth: EthAddr,
    grid: &GridSize,
    at: &NocAddress,
    data: &mut [u8],
) -> (r: Result<(), LuwenError>)
    ensures
        final(data)@.len() == old(data)@.len(),
        eth_refusal(eth, *grid, *at, old(data)@.len()) matches Some(e) ==> r == Err::<
            (),
            LuwenError,
        >(refused(e)) && final(data)@ == old(data)@,
        eth_refusal(eth, *grid, *at, old(data)@.len()) is None ==> done_or_transport(r),
        eth_refusal(eth, *grid, *at, old(data)@.len()) is None ==> block_read_by(
            &remote_port(chip, eth, *at),
            in_word(at.offset),
            old(data)@,
            r,
            final(data)@,
        ),
{
    match at.validate(grid) {
        Ok(()) => {},
        Err(e) => {
            return Err(LuwenError::from(e));
        },
    }
    match eth.header(at.x, at.y, at.offset) {
        Ok(_) => {},
        Err(e) => {
            return Err(LuwenError::from(e));
        },
    }
    let gateway = match gateway_at(at) {
        Ok(g) => g,
        Err(e) => {
            return Err(LuwenError::from(e));
        },
    };
    let port = Transport::eth(chip, eth, gateway);
    axi_read_block(&port, (at.offset % 4) as u32, data)
}

/// Writes `data` to the core that `at` names on the chip at `eth`: as `axi_write_block`
/// writes it through the port into that core.
pub fn eth_noc_write<T: ChipInterface>(
    chip: &T,
    eth: EthAddr,
    grid: &GridSize,
    at: &NocAddress,
    data: &[u8],
) -> (r: Result<(), LuwenError>)
    ensures
        eth_refusal(eth, *grid, *at, data@.len()) matches Some(e) ==> r == Err::<(), LuwenError>(
            refused(e),
        ),
        eth_refusal(eth, *grid, *at, data@.len()) is None ==> done_or_transport(r),
        eth_refusal(eth, *grid, *at, data@.len()) is None ==> block_written_by(
            &remote_port(chip, eth, *at),
            in_word(at.offset),
            data,
            r,
        ),
{
    match at.validate(grid) {
        Ok(()) => {},
        Err(e) => {
            return Err(LuwenError::from(e));
        },
    }
    match eth.header(at.x, at.y, at.offset) {
        Ok(_) => {},
        Err(e) => {
            return Err(LuwenError::from(e));
        },
    }
    let gateway = match gateway_at(at) {
        Ok(g) => g,
        Err(e) => {
            return Err(LuwenError::from(e));
        },
    };
    let port = Transport::eth(chip, eth, gateway);
    axi_write_block(&port, (at.offset % 4) as u32, data)
}

/// Why `len` bytes cannot be broadcast at `addr` on the chip at `eth`, if they cannot: the
/// tunnel header has no room for the chip's shelf or for the offset, or the broadcast
/// would cover some word only in part.
pub open spec fn eth_broadcast_refusal(eth: EthAddr, addr: u64, len: nat) -> Option<AxiError> {
    if header_refusal(eth, 0, 0, addr) is Some {
        header_refusal(eth, 0, 0, addr)
    } else {
        broadcast_refusal(addr, len)
    }
}

/// Writes `data` at `addr` in every core of router plane `noc_id` on the chip at `eth`; of
/// whole words only, as every broadcast. A broadcast of no bytes issues no transfer; any
/// other that is not refused is handed to the transport as it is, once.
pub fn eth_noc_broadcast<T: ChipInterface>(
    chip: &T,
    eth: EthAddr,
    noc_id: NocId,
    addr: u64,
    data: &[u8],
) -> (r: Result<(), LuwenError>)
    ensures
        eth_broadcast_refusal(eth, addr, data@.len()) matches Some(e) ==> r == Err::<
            (),
            LuwenError,
        >(refused(e)),
        eth_broadcast_refusal(eth, addr, data@.len()) is None ==> done_or_transport(r),
        eth_broadcast_refusal(eth, addr, data@.len()) is None && data@.len() == 0 ==> r is Ok,
        eth_broadcast_refusal(eth, addr, data@.len()) is None && data@.len() > 0 ==> broadcast_by(
            chip,
            Call::EthNocBroadcast { eth_addr: eth, noc_id: noc_id.spec_index(), offset: addr },
            data@,
            r,
        ),
{
    match eth.header(0, 0, addr) {
        Ok(_) => {},
        Err(e) => {
            return Err(LuwenError::from(e));
        },
    }
    match check_broadcast(addr, data.len()) {
        Ok(()) => {},
        Err(e) => {
            return Err(LuwenError::from(e));
        },
    }
    if data.len() == 0 {
        return Ok(());
    }
    let answer = chip.eth_noc_broadcast(eth, noc_id.index(), addr, data);
    match answer {
        Ok(_) => Ok(()),
        Err(e) => Err(LuwenError::PciError(e)),
    }
}

} // verus!
