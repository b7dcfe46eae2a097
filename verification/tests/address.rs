use ttchip::address::{
    AxiAddress, EthAddr, EthHeader, EthTarget, GridSize, NocAddress, NocId, HEADER_COORD_LIMIT,
    HEADER_OFFSET_LIMIT,
};
use ttchip::error::AxiError;

#[test]
fn two_planes_and_no_third() {
    assert_eq!(NocId::from_index(0), Ok(NocId::Noc0));
    assert_eq!(NocId::from_index(1), Ok(NocId::Noc1));
    assert_eq!(NocId::from_index(2), Err(AxiError::NocPlane { noc_id: 2 }));
    assert_eq!(NocId::from_index(255), Err(AxiError::NocPlane { noc_id: 255 }));
    assert_eq!(NocId::Noc0.index(), 0);
    assert_eq!(NocId::Noc1.index(), 1);
}

#[test]
fn grid_holds_what_is_below_its_extent() {
    let grid = GridSize { width: 10, height: 12 };
    assert!(grid.contains(0, 0));
    assert!(grid.contains(9, 11));
    assert!(!grid.contains(10, 0));
    assert!(!grid.contains(0, 12));
    assert!(!GridSize { width: 0, height: 0 }.contains(0, 0));
}

#[test]
fn coordinate_on_the_grid_is_accepted() {
    let grid = GridSize { width: 10, height: 12 };
    let at = NocAddress { noc_id: NocId::Noc0, x: 9, y: 11, offset: 0xffb2_0148 };
    assert_eq!(at.validate(&grid), Ok(()));
}

#[test]
fn coordinate_off_the_grid_is_refused_not_clamped() {
    let grid = GridSize { width: 10, height: 12 };
    let at = NocAddress { noc_id: NocId::Noc1, x: 10, y: 3, offset: 0 };
    assert_eq!(
        at.validate(&grid),
        Err(AxiError::NocOutOfGrid { x: 10, y: 3, width: 10, height: 12 })
    );
    let at = NocAddress { noc_id: NocId::Noc1, x: 3, y: 12, offset: 0 };
    assert_eq!(
        at.validate(&grid),
        Err(AxiError::NocOutOfGrid { x: 3, y: 12, width: 10, height: 12 })
    );
}

#[test]
fn rack_word_packs_y_above_x() {
    let eth = EthAddr { shelf_x: 0, shelf_y: 0, rack_x: 0x12, rack_y: 0x34 };
    assert_eq!(eth.rack_addr(), 0x3412);
    let eth = EthAddr { shelf_x: 0, shelf_y: 0, rack_x: 0xff, rack_y: 0xff };
    assert_eq!(eth.rack_addr(), 0xffff);
}

#[test]
fn header_packs_the_destination() {
    let eth = EthAddr { shelf_x: 1, shelf_y: 2, rack_x: 3, rack_y: 4 };
    let header = eth.header(5, 6, 0x1234).unwrap();
    assert_eq!(header.rack, 0x0403);
    let expected = (2u64 << 54) | (1u64 << 48) | (6u64 << 42) | (5u64 << 36) | 0x1234;
    assert_eq!(header.sys_addr, expected);
}

#[test]
fn header_of_the_largest_destination() {
    let eth = EthAddr { shelf_x: 63, shelf_y: 63, rack_x: 255, rack_y: 255 };
    let header = eth.header(63, 63, 0xf_ffff_ffff).unwrap();
    assert_eq!(header, EthHeader { rack: 0xffff, sys_addr: 0x0fff_ffff_ffff_ffff });
    assert_eq!(HEADER_COORD_LIMIT, 64);
    assert_eq!(HEADER_OFFSET_LIMIT, 1 << 36);
}

#[test]
fn header_refuses_what_does_not_fit() {
    let eth = EthAddr { shelf_x: 1, shelf_y: 2, rack_x: 3, rack_y: 4 };
    assert_eq!(eth.header(64, 0, 0), Err(AxiError::EthOutOfRange { coordinate: 64 }));
    assert_eq!(eth.header(0, 200, 0), Err(AxiError::EthOutOfRange { coordinate: 200 }));
    assert_eq!(
        eth.header(0, 0, 1 << 36),
        Err(AxiError::OffsetTooWide { offset: 1 << 36 })
    );
    let far = EthAddr { shelf_x: 64, shelf_y: 99, rack_x: 0, rack_y: 0 };
    assert_eq!(far.header(70, 70, u64::MAX), Err(AxiError::EthOutOfRange { coordinate: 64 }));
    let far = EthAddr { shelf_x: 0, shelf_y: 99, rack_x: 0, rack_y: 0 };
    assert_eq!(far.header(70, 70, u64::MAX), Err(AxiError::EthOutOfRange { coordinate: 99 }));
}

#[test]
fn header_reads_back_as_its_destination() {
    let destinations = [
        (EthAddr { shelf_x: 0, shelf_y: 0, rack_x: 0, rack_y: 0 }, 0u8, 0u8, 0u64),
        (EthAddr { shelf_x: 1, shelf_y: 2, rack_x: 3, rack_y: 4 }, 5, 6, 0x1234),
        (EthAddr { shelf_x: 63, shelf_y: 63, rack_x: 255, rack_y: 255 }, 63, 63, 0xf_ffff_ffff),
        (EthAddr { shelf_x: 17, shelf_y: 0, rack_x: 9, rack_y: 0 }, 0, 31, 0x8_0000_0000),
    ];
    for (eth, x, y, offset) in destinations {
        let header = eth.header(x, y, offset).unwrap();
        assert_eq!(header.target(), EthTarget { eth, x, y, offset });
    }
}

#[test]
fn axi_address_is_a_plain_value() {
    let a = AxiAddress { addr: 0x1ff3_0060 };
    let b = a;
    assert_eq!(a, b);
    assert_eq!(a.addr, 0x1ff3_0060);
}
