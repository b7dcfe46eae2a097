//! The error taxonomy: why a device could not be opened, why a bus transaction failed, why
//! an address was refused, why a firmware exchange failed, and the two enums that gather
//! them for callers.

use vstd::prelude::*;
use vstd::std_specs::convert::FromSpecImpl;
use crate::arch::Arch;

verus! {

/// Why an enumerated device could not be opened.
#[derive(Clone, Copy, Debug, PartialEq, Eq, Structural)]
pub enum OpenFailure {
    /// The device node is gone.
    Missing,
    /// The caller may not open the device.
    PermissionDenied,
    /// Another owner holds the device.
    AlreadyClaimed,
    /// The driver refused for another reason.
    Other,
}

/// An enumerated device could not be opened.
#[derive(Clone, Copy, Debug, PartialEq, Eq, Structural)]
pub struct PciOpenError {
    /// The device that was being opened.
    pub device_id: usize,
    pub failure: OpenFailure,
    /// The code the operating system or driver gave.
    pub code: i32,
}

/// How a bus transaction failed.
#[derive(Clone, Copy, Debug, PartialEq, Eq, Structural)]
pub enum TransportFailure {
    /// The bus did not answer in time.
    BusTimeout,
    /// A link on the path to the endpoint is down.
    LinkDown,
    /// The response carried `actual` bytes where `expected` were asked for.
    BadLength { expected: usize, actual: usize },
}

/// A bus transaction failed.
#[derive(Clone, Copy, Debug, PartialEq, Eq, Structural)]
pub struct PciError {
    pub failure: TransportFailure,
    /// The address the transaction was aimed at.
    pub addr: u64,
    /// The code the transport gave.
    pub code: i32,
}

/// An address was refused before any transaction was issued.
#[derive(Clone, Copy, Debug, PartialEq, Eq, Structural)]
pub enum AxiError {
    /// The router plane is neither of the two that exist.
    NocPlane { noc_id: u8 },
    /// The coordinate lies outside the chip's grid.
    NocOutOfGrid { x: u8, y: u8, width: u8, height: u8 },
    /// The offset does not fit the width the tunnel header leaves for it.
    OffsetTooWide { offset: u64 },
    /// A coordinate does not fit the width the tunnel header leaves for it.
    EthOutOfRange { coordinate: u8 },
    /// The byte range runs past the end of the 32-bit bus.
    RangeOverflow { addr: u32, len: usize },
    /// An address that must lie on a word boundary does not.
    Unaligned { offset: u64 },
    /// The register map knows no register of the name that was asked for.
    UnknownRegister,
    /// A broadcast would cover some word only in part. There is no broadcast read to take
    /// the rest of the word from.
    PartialBroadcast { offset: u64, len: usize },
}

/// A firmware exchange failed without the transport failing.
#[derive(Clone, Copy, Debug, PartialEq, Eq, Structural)]
pub enum ArcMsgError {
    /// The doorbell was still raised by an earlier exchange.
    Busy,
    /// The firmware posted no response within the given number of polls.
    Timeout { polls: u32 },
    /// The firmware answered with a return code other than zero.
    Rejected { code: u16 },
}

/// A failure above the transport: addressing or firmware protocol.
#[derive(Clone, Copy, Debug, PartialEq, Eq, Structural)]
pub enum PlatformError {
    ArcMsgError(ArcMsgError),
    AxiError(AxiError),
}

/// Everything that a chip operation can report.
#[derive(Clone, Copy, Debug, PartialEq, Eq, Structural)]
pub enum LuwenError {
    PlatformError(PlatformError),
    PciOpenError(PciOpenError),
    PciError(PciError),
}

/// Everything that creating a chip handle can report.
#[derive(Clone, Copy, Debug, PartialEq, Eq, Structural)]
pub enum TTError {
    PciOpenError(PciOpenError),
    PciError(PciError),
    AxiError(AxiError),
    /// A typed handle was asked for a chip of another generation.
    ArchMismatch { expected: Arch, actual: Arch },
    /// The device reported a tag that no known generation reports.
    UnknownArch(u16),
}

impl From<ArcMsgError> for PlatformError {
    fn from(value: ArcMsgError) -> (r: PlatformError) {
        PlatformError::ArcMsgError(value)
    }
}

impl FromSpecImpl<ArcMsgError> for PlatformError {
    open spec fn obeys_from_spec() -> bool {
        true
    }

    open spec fn from_spec(value: ArcMsgError) -> PlatformError {
        PlatformError::ArcMsgError(value)
    }
}

impl From<AxiError> for PlatformError {
    fn from(value: AxiError) -> (r: PlatformError) {
        PlatformError::AxiError(value)
    }
}

impl FromSpecImpl<AxiError> for PlatformError {
    open spec fn obeys_from_spec() -> bool {
        true
    }

    open spec fn from_spec(value: AxiError) -> PlatformError {
        PlatformError::AxiError(value)
    }
}

impl From<PlatformError> for LuwenError {
    fn from(value: PlatformError) -> (r: LuwenError) {
        LuwenError::PlatformError(value)
    }
}

impl FromSpecImpl<PlatformError> for LuwenError {
    open spec fn obeys_from_spec() -> bool {
        true
    }

    open spec fn from_spec(value: PlatformError) -> LuwenError {
        LuwenError::PlatformError(value)
    }
}

impl From<PciOpenError> for LuwenError {
    fn from(value: PciOpenError) -> (r: LuwenError) {
        LuwenError::PciOpenError(value)
    }
}

impl FromSpecImpl<PciOpenError> for LuwenError {
    open spec fn obeys_from_spec() -> bool {
        true
    }

    open spec fn from_spec(value: PciOpenError) -> LuwenError {
        LuwenError::PciOpenError(value)
    }
}

impl From<PciError> for LuwenError {
    fn from(value: PciError) -> (r: LuwenError) {
        LuwenError::PciError(value)
    }
}

impl FromSpecImpl<PciError> for LuwenError {
    open spec fn obeys_from_spec() -> bool {
        true
    }

    open spec fn from_spec(value: PciError) -> LuwenError {
        LuwenError::PciError(value)
    }
}

impl From<ArcMsgError> for LuwenError {
    fn from(value: ArcMsgError) -> (r: LuwenError) {
        LuwenError::PlatformError(PlatformError::from(value))
    }
}

impl FromSpecImpl<ArcMsgError> for LuwenError {
    open spec fn obeys_from_spec() -> bool {
        true
    }

    open spec fn from_spec(value: ArcMsgError) -> LuwenError {
        LuwenError::PlatformError(PlatformError::ArcMsgError(value))
    }
}

impl From<AxiError> for LuwenError {
    fn from(value: AxiError) -> (r: LuwenError) {
        LuwenError::PlatformError(PlatformError::from(value))
    }
}

impl FromSpecImpl<AxiError> for LuwenError {
    open spec fn obeys_from_spec() -> bool {
        true
    }

    open spec fn from_spec(value: AxiError) -> LuwenError {
        LuwenError::PlatformError(PlatformError::AxiError(value))
    }
}

impl From<PciOpenError> for TTError {
    fn from(value: PciOpenError) -> (r: TTError) {
        TTError::PciOpenError(value)
    }
}

impl FromSpecImpl<PciOpenError> for TTError {
    open spec fn obeys_from_spec() -> bool {
        true
    }

    open spec fn from_spec(value: PciOpenError) -> TTError {
        TTError::PciOpenError(value)
    }
}

impl From<PciError> for TTError {
    fn from(value: PciError) -> (r: TTError) {
        TTError::PciError(value)
    }
}

impl FromSpecImpl<PciError> for TTError {
    open spec fn obeys_from_spec() -> bool {
        true
    }

    open spec fn from_spec(value: PciError) -> TTError {
        TTError::PciError(value)
    }
}

impl From<AxiError> for TTError {
    fn from(value: AxiError) -> (r: TTError) {
        TTError::AxiError(value)
    }
}

impl FromSpecImpl<AxiError> for TTError {
    open spec fn obeys_from_spec() -> bool {
        true
    }

    open spec fn from_spec(value: AxiError) -> TTError {
        TTError::AxiError(value)
    }
}

} // verus!
