use ttchip::arch::{Arch, BLACKHOLE_TAG, GRAYSKULL_TAG, WORMHOLE_TAG};

#[test]
fn known_tags_classify_to_their_generation() {
    assert_eq!(Arch::from_tag(0xfaca), Ok(Arch::Grayskull));
    assert_eq!(Arch::from_tag(0x401e), Ok(Arch::Wormhole));
    assert_eq!(Arch::from_tag(0xb140), Ok(Arch::Blackhole));
    assert_eq!(GRAYSKULL_TAG, 0xfaca);
    assert_eq!(WORMHOLE_TAG, 0x401e);
    assert_eq!(BLACKHOLE_TAG, 0xb140);
}

#[test]
fn unknown_tags_come_back_unchanged() {
    assert_eq!(Arch::from_tag(0), Err(0));
    assert_eq!(Arch::from_tag(0xffff), Err(0xffff));
    assert_eq!(Arch::from_tag(0x401f), Err(0x401f));
}

#[test]
fn tag_round_trips_through_classification() {
    for arch in [Arch::Grayskull, Arch::Wormhole, Arch::Blackhole] {
        assert_eq!(Arch::from_tag(arch.tag()), Ok(arch));
    }
}
