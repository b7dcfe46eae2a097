//! The three ways in which a chip is reached, behind the one capability.
//!
//! A chip is reached over its own local bus, over the grid of a chip whose local bus is at
//! hand, or over the Ethernet mesh from such a chip. Which of the three it is, is settled
//! when the transport is made and never changes. Whoever holds the transport sees the same
//! operations in each case.

use vstd::prelude::*;
use crate::address::{EthAddr, NocId};
use crate::chip_interface::{Call, ChipInterface, DeviceInfo};
use crate::error::{AxiError, PciError};

verus! {

/// The core through which a chip's local bus is reached from its grid: bus address `a` is
/// byte `base + a` of that core. The base lies on a word boundary, so that what is aligned
/// on the bus is aligned in the core.
#[derive(Clone, Copy, Debug, PartialEq, Eq)]
pub struct Gateway {
    noc_id: NocId,
    x: u8,
    y: u8,
    base: u64,
}

/// The highest `base` of a gateway: above it, the last bus address would leave the core's
/// address space.
pub const GATEWAY_BASE_MAX: u64 = 0xffff_ffff_0000_0000;

impl Gateway {
    #[verifier::type_invariant]
    spec fn in_range(self) -> bool {
        self.base <= GATEWAY_BASE_MAX && self.base % 4 == 0
    }

    /// Why no gateway can have this base, if none can: some bus address would run off the
    /// end of the core's address space, or the base is not on a word boundary.
    pub open spec fn refusal(base: u64) -> Option<AxiError> {
        if base > GATEWAY_BASE_MAX {
            Some(AxiError::OffsetTooWide { offset: base })
        } else if base % 4 != 0 {
            Some(AxiError::Unaligned { offset: base })
        } else {
            None
        }
    }

    /// The router plane on which the gateway core is addressed.
    pub closed spec fn spec_noc_id(&self) -> NocId {
        self.noc_id
    }

    /// The gateway core's column and row.
    pub closed spec fn spec_at(&self) -> (u8, u8) {
        (self.x, self.y)
    }

    /// Where in the gateway core the local bus starts.
    pub closed spec fn spec_base(&self) -> u64 {
        self.base
    }

    /// The byte of the gateway core that stands for bus address `addr`.
    pub open spec fn spec_translate(&self, addr: u32) -> u64 {
        (self.spec_base() + addr) as u64
    }

    /// The gateway on plane `noc_id` at (`x`, `y`) with this base.
    pub closed spec fn spec_new(noc_id: NocId, x: u8, y: u8, base: u64) -> Gateway {
        Gateway { noc_id, x, y, base }
    }

    /// A gateway is the plane, the core and the base it was named with.
    pub proof fn lemma_spec_new(noc_id: NocId, x: u8, y: u8, base: u64)
        ensures
            Self::spec_new(noc_id, x, y, base).spec_noc_id() == noc_id,
            Self::spec_new(noc_id, x, y, base).spec_at() == (x, y),
            Self::spec_new(noc_id, x, y, base).spec_base() == base,
    {
    }

    /// Names the gateway. A base so high that some bus address would run off the end of the
    /// core's address space, or one that is not on a word boundary, is refused.
    pub fn new(noc_id: NocId, x: u8, y: u8, base: u64) -> (r: Result<Gateway, AxiError>)
        ensures
            r is Ok <==> Self::refusal(base) is None,
            r matches Ok(g) ==> g == Self::spec_new(noc_id, x, y, base) && g.spec_noc_id() == noc_id
                && g.spec_at() == (x, y) && g.spec_base() == base,
            r matches Err(e) ==> Self::refusal(base) == Some(e),
    {
        if base > GATEWAY_BASE_MAX {
            Err(AxiError::OffsetTooWide { offset: base })
        } else if base % 4 != 0 {
            Err(AxiError::Unaligned { offset: base })
        } else {
            Ok(Gateway { noc_id, x, y, base })
        }
    }

    /// The byte of the gateway core that stands for bus address `addr`.
    pub fn translate(&self, addr: u32) -> (at: u64)
        ensures
            at == self.spec_translate(addr),
            at == self.spec_base() + addr,
            at % 4 == addr % 4,
    {
        proof {
            use_type_invariant(self);
        }
        self.base + addr as u64
    }
}

/// How a chip is reached from the transport at hand.
#[derive(Clone, Copy, Debug, PartialEq, Eq)]
pub enum Route {
    /// It is the chip whose local bus the transport drives.
    Local,
    /// It is that chip, reached over its grid.
    Noc(Gateway),
    /// It is the chip at this coordinate of the Ethernet mesh.
    Eth(EthAddr, Gateway),
}

impl Route {
    /// The call on the transport at hand that carries out `call` on the chip at the end of
    /// this route.
    ///
    /// On the chip that the transport drives, every call is itself, but that over a gateway
    /// a call on the local bus is the same call on the gateway core, at the byte that
    /// stands for the bus address. Across the mesh, a call on the local bus is that call on
    /// the gateway core of the chip at the coordinate, and a call on the grid is the same
    /// call on the grid of that chip. A call that names a chip of the mesh itself goes to
    /// the chip it names, whatever the route.
    pub open spec fn carries(self, call: Call) -> Call {
        match self {
            Route::Local => call,
            Route::Noc(gateway) => match call {
                Call::AxiRead { addr } => Call::NocRead {
                    noc_id: gateway.spec_noc_id().spec_index(),
                    x: gateway.spec_at().0,
                    y: gateway.spec_at().1,
                    offset: gateway.spec_translate(addr),
                },
                Call::AxiWrite { addr } => Call::NocWrite {
                    noc_id: gateway.spec_noc_id().spec_index(),
                    x: gateway.spec_at().0,
                    y: gateway.spec_at().1,
                    offset: gateway.spec_translate(addr),
                },
                other => other,
            },
            Route::Eth(eth_addr, gateway) => match call {
                Call::AxiRead { addr } => Call::EthNocRead {
                    eth_addr,
                    noc_id: gateway.spec_noc_id().spec_index(),
                    x: gateway.spec_at().0,
                    y: gateway.spec_at().1,
                    offset: gateway.spec_translate(addr),
                },
                Call::AxiWrite { addr } => Call::EthNocWrite {
                    eth_addr,
                    noc_id: gateway.spec_noc_id().spec_index(),
                    x: gateway.spec_at().0,
                    y: gateway.spec_at().1,
                    offset: gateway.spec_translate(addr),
                },
                Call::NocRead { noc_id, x, y, offset } => Call::EthNocRead {
                    eth_addr,
                    noc_id,
                    x,
                    y,
                    offset,
                },
                Call::NocWrite { noc_id, x, y, offset } => Call::EthNocWrite {
                    eth_addr,
                    noc_id,
                    x,
                    y,
                    offset,
                },
                Call::NocBroadcast { noc_id, offset } => Call::EthNocBroadcast {
                    eth_addr,
                    noc_id,
                    offset,
                },
                other => other,
            },
        }
    }
}

/// A chip's transport: the one at hand, and the route from it to the chip.
pub struct Transport<T> {
    base: T,
    route: Route,
}

impl<T> Transport<T> {
    /// The transport at hand.
    pub closed spec fn spec_base(&self) -> T {
        self.base
    }

    /// The route from the transport at hand to the chip.
    pub closed spec fn spec_route(&self) -> Route {
        self.route
    }

    /// The transport that reaches a chip from `base` over `route`.
    pub closed spec fn spec_new(base: T, route: Route) -> Transport<T> {
        Transport { base, route }
    }

    /// A transport is the transport at hand and the route it was made with.
    pub proof fn lemma_spec_new(base: T, route: Route)
        ensures
            Self::spec_new(base, route).spec_base() == base,
            Self::spec_new(base, route).spec_route() == route,
    {
    }

    /// The transport of the chip whose local bus `base` drives.
    pub fn local(base: T) -> (t: Transport<T>)
        ensures
            t == Self::spec_new(base, Route::Local),
            t.spec_base() == base,
            t.spec_route() == Route::Local,
    {
        Transport { base, route: Route::Local }
    }

    /// The transport of the chip that `base` drives, with its local bus reached through
    /// `gateway`.
    pub fn noc(base: T, gateway: Gateway) -> (t: Transport<T>)
        ensures
            t == Self::spec_new(base, Route::Noc(gateway)),
            t.spec_base() == base,
            t.spec_route() == Route::Noc(gateway),
    {
        Transport { base, route: Route::Noc(gateway) }
    }

    /// The transport of the chip at `eth`, reached through the mesh from the chip that
    /// `base` drives, with its local bus reached through `gateway`.
    pub fn eth(base: T, eth: EthAddr, gateway: Gateway) -> (t: Transport<T>)
        ensures
            t == Self::spec_new(base, Route::Eth(eth, gateway)),
            t.spec_base() == base,
            t.spec_route() == Route::Eth(eth, gateway),
    {
        Transport { base, route: Route::Eth(eth, gateway) }
    }

    /// The route from the transport at hand to the chip.
    #[verifier::when_used_as_spec(spec_route)]
    pub fn route(&self) -> (r: Route)
        ensures
            r == self.spec_route(),
    {
        self.route
    }

    /// Whether the chip is another one than the transport at hand drives.
    pub fn is_remote(&self) -> (b: bool)
        ensures
            b == (self.spec_route() is Eth),
    {
        match self.route {
            Route::Eth(_, _) => true,
            _ => false,
        }
    }
}

/// Every call on a chip's transport is carried out by one call on the transport at hand:
/// the one that the route says, with the buffer as it is. What that call gives is handed
/// back as it is.
impl<T: ChipInterface> ChipInterface for Transport<T> {
    /// What the transport at hand says of its device; nothing for a chip across the mesh,
    /// which that device is not.
    fn get_device_info(&self) -> (info: Option<DeviceInfo>) {
        match self.route {
            Route::Eth(_, _) => None,
            _ => self.base.get_device_info(),
        }
    }

    fn axi_read(&self, addr: u32, data: &mut [u8]) -> (r: Result<(), PciError>) {
        match self.route {
            Route::Local => self.base.axi_read(addr, data),
            Route::Noc(g) => self.base.noc_read(g.noc_id.index(), g.x, g.y, g.translate(addr), data),
            Route::Eth(eth, g) => self.base.eth_noc_read(
                eth,
                g.noc_id.index(),
                g.x,
                g.y,
                g.translate(addr),
                data,
            ),
        }
    }

    fn axi_write(&self, addr: u32, data: &[u8]) -> (r: Result<(), PciError>) {
        match self.route {
            Route::Local => self.base.axi_write(addr, data),
            Route::Noc(g) => self.base.noc_write(g.noc_id.index(), g.x, g.y, g.translate(addr), data),
            Route::Eth(eth, g) => self.base.eth_noc_write(
                eth,
                g.noc_id.index(),
                g.x,
                g.y,
                g.translate(addr),
                data,
            ),
        }
    }

    fn noc_read(&self, noc_id: u8, x: u8, y: u8, addr: u64, data: &mut [u8]) -> (r: Result<
        (),
        PciError,
    >) {
        match self.route {
            Route::Eth(eth, _) => self.base.eth_noc_read(eth, noc_id, x, y, addr, data),
            _ => self.base.noc_read(noc_id, x, y, addr, data),
        }
    }

    fn noc_write(&self, noc_id: u8, x: u8, y: u8, addr: u64, data: &[u8]) -> (r: Result<
        (),
        PciError,
    >) {
        match self.route {
            Route::Eth(eth, _) => self.base.eth_noc_write(eth, noc_id, x, y, addr, data),
            _ => self.base.noc_write(noc_id, x, y, addr, data),
        }
    }

    fn noc_broadcast(&self, noc_id: u8, addr: u64, data: &[u8]) -> (r: Result<(), PciError>) {
        match self.route {
            Route::Eth(eth, _) => self.base.eth_noc_broadcast(eth, noc_id, addr, data),
            _ => self.base.noc_broadcast(noc_id, addr, data),
        }
    }

    fn eth_noc_read(
        &self,
        eth_addr: EthAddr,
        noc_id: u8,
        x: u8,
        y: u8,
        addr: u64,
        data: &mut [u8],
    ) -> (r: Result<(), PciError>) {
        self.base.eth_noc_read(eth_addr, noc_id, x, y, addr, data)
    }

    fn eth_noc_write(
        &self,
        eth_addr: EthAddr,
        noc_id: u8,
        x: u8,
        y: u8,
        addr: u64,
        data: &[u8],
    ) -> (r: Result<(), PciError>) {
        self.base.eth_noc_write(eth_addr, noc_id, x, y, addr, data)
    }

    fn eth_noc_broadcast(&self, eth_addr: EthAddr, noc_id: u8, addr: u64, data: &[u8]) -> (r:
        Result<(), PciError>) {
        self.base.eth_noc_broadcast(eth_addr, noc_id, addr, data)
    }

    /// What the transport at hand says of its device, for the chip that it drives; and
    /// nothing, for a chip across the mesh.
    open spec fn describes(&self, info: Option<DeviceInfo>) -> bool {
        match self.spec_route() {
            Route::Eth(_, _) => info is None,
            _ => self.spec_base().describes(info),
        }
    }

    /// What the transport at hand answers to the call that the route makes of `call`.
    open spec fn answers(&self, call: Call, data: Seq<u8>, back: Seq<u8>, result: Result<(), PciError>) -> bool {
        self.spec_base().answers(self.spec_route().carries(call), data, back, result)
    }
}

} // verus!
