use ttchip::arch::Arch;
use ttchip::error::{
    ArcMsgError, AxiError, LuwenError, OpenFailure, PciError, PciOpenError, PlatformError,
    TTError, TransportFailure,
};

fn open_error() -> PciOpenError {
    PciOpenError { device_id: 3, failure: OpenFailure::PermissionDenied, code: 13 }
}

fn bus_error() -> PciError {
    PciError { failure: TransportFailure::LinkDown, addr: 0x1000, code: -5 }
}

#[test]
fn protocol_errors_become_platform_errors() {
    let timeout = ArcMsgError::Timeout { polls: 100 };
    assert_eq!(PlatformError::from(timeout), PlatformError::ArcMsgError(timeout));
    assert_eq!(
        LuwenError::from(timeout),
        LuwenError::PlatformError(PlatformError::ArcMsgError(timeout))
    );
    let rejected = ArcMsgError::Rejected { code: 7 };
    assert_eq!(
        LuwenError::from(rejected),
        LuwenError::PlatformError(PlatformError::ArcMsgError(rejected))
    );
    assert_eq!(
        LuwenError::from(ArcMsgError::Busy),
        LuwenError::PlatformError(PlatformError::ArcMsgError(ArcMsgError::Busy))
    );
}

#[test]
fn addressing_errors_become_platform_errors() {
    let off_grid = AxiError::NocOutOfGrid { x: 10, y: 0, width: 10, height: 12 };
    assert_eq!(PlatformError::from(off_grid), PlatformError::AxiError(off_grid));
    assert_eq!(LuwenError::from(off_grid), LuwenError::PlatformError(PlatformError::AxiError(off_grid)));
    assert_eq!(TTError::from(off_grid), TTError::AxiError(off_grid));
}

#[test]
fn open_and_transport_errors_keep_their_kind() {
    assert_eq!(LuwenError::from(open_error()), LuwenError::PciOpenError(open_error()));
    assert_eq!(LuwenError::from(bus_error()), LuwenError::PciError(bus_error()));
    assert_eq!(TTError::from(open_error()), TTError::PciOpenError(open_error()));
    assert_eq!(TTError::from(bus_error()), TTError::PciError(bus_error()));
    assert_eq!(
        LuwenError::from(PlatformError::AxiError(AxiError::UnknownRegister)),
        LuwenError::PlatformError(PlatformError::AxiError(AxiError::UnknownRegister))
    );
}

#[test]
fn errors_carry_their_context() {
    let e = open_error();
    assert_eq!((e.device_id, e.failure, e.code), (3, OpenFailure::PermissionDenied, 13));
    let e = PciError {
        failure: TransportFailure::BadLength { expected: 8, actual: 4 },
        addr: 0x20,
        code: 0,
    };
    assert_eq!(e.addr, 0x20);
    assert_ne!(e, bus_error());
    let e = TTError::ArchMismatch { expected: Arch::Wormhole, actual: Arch::Grayskull };
    assert_ne!(e, TTError::UnknownArch(0x401e));
}
