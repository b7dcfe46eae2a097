//! Silicon generations and the identification tag each one reports.

use vstd::prelude::*;

verus! {

/// Tag reported by a Grayskull device.
pub const GRAYSKULL_TAG: u16 = 0xfaca;

/// Tag reported by a Wormhole device.
pub const WORMHOLE_TAG: u16 = 0x401e;

/// Tag reported by a Blackhole device.
pub const BLACKHOLE_TAG: u16 = 0xb140;

/// One of the three silicon generations this layer can drive.
#[derive(Clone, Copy, Debug, PartialEq, Eq, Hash, Structural)]
pub enum Arch {
    Grayskull,
    Wormhole,
    Blackhole,
}

/// The generation that answers to `tag`, or the tag itself when no generation does.
pub open spec fn arch_of_tag(tag: u16) -> Result<Arch, u16> {
    if tag == GRAYSKULL_TAG {
        Ok(Arch::Grayskull)
    } else if tag == WORMHOLE_TAG {
        Ok(Arch::Wormhole)
    } else if tag == BLACKHOLE_TAG {
        Ok(Arch::Blackhole)
    } else {
        Err(tag)
    }
}

/// Calls `luwen_core::Arch::try_from`, as the crate `ttkmd_if` implements it for a reference
/// to its `ioctl::GetDeviceInfoOut`, on a device record whose `device_id` is `tag` and whose
/// other fields are their defaults. That conversion looks at `device_id` alone, in one match
/// of four arms, which the contract restates: the three known ids give their generation, and
/// every other id comes back as the error. Nothing here is proved; the contract is taken
/// from the source of `ttkmd_if`.
#[verifier::external_body]
fn driver_arch_of_tag(tag: u16) -> (r: Result<Arch, u16>)
    ensures
        r == arch_of_tag(tag),
{
    let info = ttkmd_if::ioctl::GetDeviceInfoOut { device_id: tag, ..Default::default() };
    match luwen_core::Arch::try_from(&info) {
        Ok(luwen_core::Arch::Grayskull) => Ok(Arch::Grayskull),
        Ok(luwen_core::Arch::Wormhole) => Ok(Arch::Wormhole),
        Ok(luwen_core::Arch::Blackhole) => Ok(Arch::Blackhole),
        Err(id) => Err(id),
    }
}

impl Arch {
    /// The tag a device of this generation reports.
    pub open spec fn spec_tag(self) -> u16 {
        match self {
            Arch::Grayskull => GRAYSKULL_TAG,
            Arch::Wormhole => WORMHOLE_TAG,
            Arch::Blackhole => BLACKHOLE_TAG,
        }
    }

    /// Classifies an identification tag read from a device.
    pub fn from_tag(tag: u16) -> (r: Result<Arch, u16>)
        ensures
            r == arch_of_tag(tag),
            r is Ok <==> (tag == GRAYSKULL_TAG || tag == WORMHOLE_TAG || tag == BLACKHOLE_TAG),
            r matches Ok(a) ==> a.spec_tag() == tag,
            r matches Err(t) ==> t == tag,
    {
        driver_arch_of_tag(tag)
    }

    /// The tag a device of this generation reports.
    #[verifier::when_used_as_spec(spec_tag)]
    pub fn tag(self) -> (t: u16)
        ensures
            t == self.spec_tag(),
            arch_of_tag(t) == Ok::<Arch, u16>(self),
    {
        match self {
            Arch::Grayskull => GRAYSKULL_TAG,
            Arch::Wormhole => WORMHOLE_TAG,
            Arch::Blackhole => BLACKHOLE_TAG,
        }
    }

    pub fn is_grayskull(&self) -> (b: bool)
        ensures
            b == (*self == Arch::Grayskull),
    {
        matches!(self, Arch::Grayskull)
    }

    pub fn is_wormhole(&self) -> (b: bool)
        ensures
            b == (*self == Arch::Wormhole),
    {
        matches!(self, Arch::Wormhole)
    }

    pub fn is_blackhole(&self) -> (b: bool)
        ensures
            b == (*self == Arch::Blackhole),
    {
        matches!(self, Arch::Blackhole)
    }
}

} // verus!
