//! The address model: bus offsets, grid coordinates and chips across the Ethernet mesh.
//!
//! These are plain values. None of them owns hardware, and every check in this module is
//! made before a transaction is issued: an address that does not fit is refused with an
//! error and never brought into range.

use vstd::prelude::*;
use crate::error::AxiError;

verus! {

/// A byte offset on the local bus of one chip.
#[derive(Clone, Copy, Debug, PartialEq, Eq, Hash, Structural)]
pub struct AxiAddress {
    pub addr: u32,
}

/// One of the two router planes. The planes are separate fabrics: traffic on one is never
/// seen on the other.
#[derive(Clone, Copy, Debug, PartialEq, Eq, Hash, Structural)]
pub enum NocId {
    Noc0,
    Noc1,
}

impl NocId {
    /// The number by which the transport names this plane.
    pub open spec fn spec_index(self) -> u8 {
        match self {
            NocId::Noc0 => 0,
            NocId::Noc1 => 1,
        }
    }

    /// The number by which the transport names this plane.
    #[verifier::when_used_as_spec(spec_index)]
    pub fn index(self) -> (i: u8)
        ensures
            i == self.spec_index(),
    {
        match self {
            NocId::Noc0 => 0,
            NocId::Noc1 => 1,
        }
    }

    /// The plane that the transport names by `noc_id`; any number but 0 and 1 is refused.
    pub fn from_index(noc_id: u8) -> (r: Result<NocId, AxiError>)
        ensures
            r is Ok <==> noc_id < 2,
            r matches Ok(n) ==> n.spec_index() == noc_id,
            r matches Err(e) ==> e == (AxiError::NocPlane { noc_id }),
    {
        if noc_id == 0 {
            Ok(NocId::Noc0)
        } else if noc_id == 1 {
            Ok(NocId::Noc1)
        } else {
            Err(AxiError::NocPlane { noc_id })
        }
    }
}

/// The extent of a chip's grid of cores.
#[derive(Clone, Copy, Debug, PartialEq, Eq, Hash, Structural)]
pub struct GridSize {
    pub width: u8,
    pub height: u8,
}

impl GridSize {
    /// Whether the grid has a core at column `x`, row `y`.
    pub open spec fn spec_contains(&self, x: u8, y: u8) -> bool {
        x < self.width && y < self.height
    }

    /// Whether the grid has a core at column `x`, row `y`.
    #[verifier::when_used_as_spec(spec_contains)]
    pub fn contains(&self, x: u8, y: u8) -> (b: bool)
        ensures
            b == self.spec_contains(x, y),
    {
        x < self.width && y < self.height
    }
}

/// A byte in the local memory of one core, reached over one router plane.
#[derive(Clone, Copy, Debug, PartialEq, Eq, Hash, Structural)]
pub struct NocAddress {
    pub noc_id: NocId,
    pub x: u8,
    pub y: u8,
    /// Byte address within the core's local memory.
    pub offset: u64,
}

impl NocAddress {
    /// Checks that the addressed core exists on a chip whose grid is `grid`.
    pub fn validate(&self, grid: &GridSize) -> (r: Result<(), AxiError>)
        ensures
            r is Ok <==> grid.spec_contains(self.x, self.y),
            r matches Err(e) ==> e == (AxiError::NocOutOfGrid {
                x: self.x,
                y: self.y,
                width: grid.width,
                height: grid.height,
            }),
    {
        if grid.contains(self.x, self.y) {
            Ok(())
        } else {
            Err(
                AxiError::NocOutOfGrid {
                    x: self.x,
                    y: self.y,
                    width: grid.width,
                    height: grid.height,
                },
            )
        }
    }
}

/// Coordinates and offsets that the tunnel header has six bits for are below this.
pub const HEADER_COORD_LIMIT: u8 = 64;

/// Offsets that the tunnel header has room for are below this: 36 bits.
pub const HEADER_OFFSET_LIMIT: u64 = 0x10_0000_0000;

/// A chip elsewhere in the Ethernet mesh, named by the rack and the shelf it sits in. The
/// mesh routes by these coordinates one dimension after the other, so they are all a sender
/// needs to reach the chip.
#[derive(Clone, Copy, Debug, PartialEq, Eq, Hash, Structural)]
pub struct EthAddr {
    pub shelf_x: u8,
    pub shelf_y: u8,
    pub rack_x: u8,
    pub rack_y: u8,
}

/// What the Ethernet tunnel carries in front of a transaction to say where it goes.
#[derive(Clone, Copy, Debug, PartialEq, Eq, Hash, Structural)]
pub struct EthHeader {
    /// The rack: `rack_y` in the upper byte, `rack_x` in the lower.
    pub rack: u16,
    /// From the top: six bits each of `shelf_y`, `shelf_x`, the core's `y` and `x`, then 36
    /// bits of offset.
    pub sys_addr: u64,
}

/// The rack word of the header for `eth`.
pub open spec fn spec_rack(eth: EthAddr) -> u16 {
    (eth.rack_y * 256 + eth.rack_x) as u16
}

/// The address word of the header for the byte `offset` of core (`x`, `y`) on the chip at
/// `eth`.
pub open spec fn spec_sys_addr(eth: EthAddr, x: u8, y: u8, offset: u64) -> u64 {
    ((((eth.shelf_y * 64 + eth.shelf_x) * 64 + y) * 64 + x) * HEADER_OFFSET_LIMIT
        + offset) as u64
}

/// Why the header for this destination cannot be written, if it cannot: the first of
/// `shelf_x`, `shelf_y`, `x`, `y` that does not fit six bits, or else an offset that does not
/// fit 36.
pub open spec fn header_refusal(eth: EthAddr, x: u8, y: u8, offset: u64) -> Option<AxiError> {
    if eth.shelf_x >= HEADER_COORD_LIMIT {
        Some(AxiError::EthOutOfRange { coordinate: eth.shelf_x })
    } else if eth.shelf_y >= HEADER_COORD_LIMIT {
        Some(AxiError::EthOutOfRange { coordinate: eth.shelf_y })
    } else if x >= HEADER_COORD_LIMIT {
        Some(AxiError::EthOutOfRange { coordinate: x })
    } else if y >= HEADER_COORD_LIMIT {
        Some(AxiError::EthOutOfRange { coordinate: y })
    } else if offset >= HEADER_OFFSET_LIMIT {
        Some(AxiError::OffsetTooWide { offset })
    } else {
        None
    }
}

impl EthAddr {
    /// The rack word of the tunnel header.
    pub fn rack_addr(&self) -> (rack: u16)
        ensures
            rack == spec_rack(*self),
            rack / 256 == self.rack_y,
            rack % 256 == self.rack_x,
    {
        self.rack_y as u16 * 256 + self.rack_x as u16
    }

    /// Writes the tunnel header for the byte `offset` of core (`x`, `y`) on this chip. A
    /// coordinate or offset that the header has no room for is refused.
    pub fn header(&self, x: u8, y: u8, offset: u64) -> (r: Result<EthHeader, AxiError>)
        ensures
            r is Ok <==> header_refusal(*self, x, y, offset) is None,
            r matches Ok(h) ==> h.rack == spec_rack(*self) && h.sys_addr == spec_sys_addr(
                *self,
                x,
                y,
                offset,
            ),
            r matches Err(e) ==> header_refusal(*self, x, y, offset) == Some(e),
    {
        if self.shelf_x >= HEADER_COORD_LIMIT {
            return Err(AxiError::EthOutOfRange { coordinate: self.shelf_x });
        }
        if self.shelf_y >= HEADER_COORD_LIMIT {
            return Err(AxiError::EthOutOfRange { coordinate: self.shelf_y });
        }
        if x >= HEADER_COORD_LIMIT {
            return Err(AxiError::EthOutOfRange { coordinate: x });
        }
        if y >= HEADER_COORD_LIMIT {
            return Err(AxiError::EthOutOfRange { coordinate: y });
        }
        if offset >= HEADER_OFFSET_LIMIT {
            return Err(AxiError::OffsetTooWide { offset });
        }
        let shelf: u64 = self.shelf_y as u64 * 64 + self.shelf_x as u64;
        let core: u64 = (shelf * 64 + y as u64) * 64 + x as u64;
        Ok(EthHeader { rack: self.rack_addr(), sys_addr: core * HEADER_OFFSET_LIMIT + offset })
    }
}

/// Where a tunnel header points: the chip, the core on it, and the byte in the core.
#[derive(Clone, Copy, Debug, PartialEq, Eq, Hash, Structural)]
pub struct EthTarget {
    pub eth: EthAddr,
    pub x: u8,
    pub y: u8,
    pub offset: u64,
}

impl EthHeader {
    /// Reads back where this header points.
    pub open spec fn spec_target(&self) -> EthTarget {
        let tile = self.sys_addr / HEADER_OFFSET_LIMIT;
        let row = tile / 64;
        let shelf = row / 64;
        EthTarget {
            eth: EthAddr {
                shelf_x: (shelf % 64) as u8,
                shelf_y: (shelf / 64 % 64) as u8,
                rack_x: (self.rack % 256) as u8,
                rack_y: (self.rack / 256) as u8,
            },
            x: (tile % 64) as u8,
            y: (row % 64) as u8,
            offset: self.sys_addr % HEADER_OFFSET_LIMIT,
        }
    }

    /// Reads back where this header points.
    pub fn target(&self) -> (t: EthTarget)
        ensures
            t == self.spec_target(),
            t.eth.shelf_x < HEADER_COORD_LIMIT,
            t.eth.shelf_y < HEADER_COORD_LIMIT,
            t.x < HEADER_COORD_LIMIT,
            t.y < HEADER_COORD_LIMIT,
            t.offset < HEADER_OFFSET_LIMIT,
    {
        let tile: u64 = self.sys_addr / HEADER_OFFSET_LIMIT;
        let row: u64 = tile / 64;
        let shelf: u64 = row / 64;
        EthTarget {
            eth: EthAddr {
                shelf_x: (shelf % 64) as u8,
                shelf_y: (shelf / 64 % 64) as u8,
                rack_x: (self.rack % 256) as u8,
                rack_y: (self.rack / 256) as u8,
            },
            x: (tile % 64) as u8,
            y: (row % 64) as u8,
            offset: self.sys_addr % HEADER_OFFSET_LIMIT,
        }
    }
}

/// A number put together from a quotient and a remainder comes apart into them again.
proof fn lemma_unpack(q: int, r: int, d: int)
    requires
        d > 0,
        0 <= r < d,
        0 <= q,
    ensures
        (q * d + r) / d == q,
        (q * d + r) % d == r,
{
    vstd::arithmetic::div_mod::lemma_fundamental_div_mod_converse(q * d + r, d, q, r);
}

/// A header that could be written reads back as the destination it was written for.
pub proof fn lemma_header_round_trip(eth: EthAddr, x: u8, y: u8, offset: u64)
    requires
        header_refusal(eth, x, y, offset) is None,
    ensures
        (EthHeader {
            rack: spec_rack(eth),
            sys_addr: spec_sys_addr(eth, x, y, offset),
        }).spec_target() == (EthTarget { eth, x, y, offset }),
{
    let shelf: int = eth.shelf_y * 64 + eth.shelf_x;
    let row: int = shelf * 64 + y;
    let tile: int = row * 64 + x;
    let sys: int = tile * 0x10_0000_0000 + offset;
    assert(0 <= shelf < 0x1000);
    assert(0 <= row < 0x4_0000);
    assert(0 <= tile < 0x100_0000);
    assert(0 <= sys < 0x1000_0000_0000_0000);
    lemma_unpack(tile, offset as int, 0x10_0000_0000);
    lemma_unpack(row, x as int, 64);
    lemma_unpack(shelf, y as int, 64);
    lemma_unpack(eth.shelf_y as int, eth.shelf_x as int, 64);
    lemma_unpack(eth.rack_y as int, eth.rack_x as int, 256);
    let header = EthHeader { rack: spec_rack(eth), sys_addr: spec_sys_addr(eth, x, y, offset) };
    assert(header.sys_addr == sys);
    assert(header.sys_addr / HEADER_OFFSET_LIMIT == tile);
    assert(header.rack == eth.rack_y * 256 + eth.rack_x);
}

/// Two destinations whose headers are equal are the same destination.
pub proof fn lemma_header_injective(a: EthTarget, b: EthTarget)
    requires
        header_refusal(a.eth, a.x, a.y, a.offset) is None,
        header_refusal(b.eth, b.x, b.y, b.offset) is None,
        spec_rack(a.eth) == spec_rack(b.eth),
        spec_sys_addr(a.eth, a.x, a.y, a.offset) == spec_sys_addr(b.eth, b.x, b.y, b.offset),
    ensures
        a == b,
{
    lemma_header_round_trip(a.eth, a.x, a.y, a.offset);
    lemma_header_round_trip(b.eth, b.x, b.y, b.offset);
}

} // verus!
