//! Chip handles: one per physical chip, each owning the transport it was opened with.

use vstd::prelude::*;
use vstd::pervasive::unreached;
use crate::access::{axi_read32, lemma_word_read_of, read_fails_as, reads_as, word_read_by,
    word_refusal};
use crate::address::{AxiAddress, GridSize};
use crate::arc_msg::{ArcMsg, ArcMsgOk, Mailbox, arc_msg, exchange_with};
use crate::arch::{Arch, arch_of_tag};
use crate::chip_interface::ChipInterface;
use crate::detect::{DetectEvent, DetectState, FirmwareStatus};
use crate::error::{LuwenError, PciError, PciOpenError, PlatformError, TTError};

verus! {

/// The request that shows a chip's firmware alive, and where to send it.
#[derive(Clone, Copy, Debug, PartialEq, Eq, Structural)]
pub struct LivenessProbe {
    pub mailbox: Mailbox,
    pub msg: ArcMsg,
    /// How often the response is polled for before the firmware counts as silent.
    pub max_polls: u32,
}

/// What detection has to know of one generation. It comes from that generation's register
/// map, which this layer does not read.
#[derive(Clone, Copy, Debug, PartialEq, Eq, Structural)]
pub struct ArchProfile {
    pub grid: GridSize,
    /// The liveness probe, for a generation whose firmware can be probed.
    pub firmware: Option<LivenessProbe>,
}

/// What detection has to know of the hardware.
#[derive(Clone, Copy, Debug, PartialEq, Eq, Structural)]
pub struct DetectConfig {
    /// The register whose lower half holds the tag that identifies the generation.
    pub tag_register: AxiAddress,
    pub grayskull: ArchProfile,
    pub wormhole: ArchProfile,
    pub blackhole: ArchProfile,
}

impl DetectConfig {
    /// The profile of `arch`.
    pub open spec fn spec_profile(&self, arch: Arch) -> ArchProfile {
        match arch {
            Arch::Grayskull => self.grayskull,
            Arch::Wormhole => self.wormhole,
            Arch::Blackhole => self.blackhole,
        }
    }

    /// The profile of `arch`.
    #[verifier::when_used_as_spec(spec_profile)]
    pub fn profile(&self, arch: Arch) -> (p: ArchProfile)
        ensures
            p == self.spec_profile(arch),
    {
        match arch {
            Arch::Grayskull => self.grayskull,
            Arch::Wormhole => self.wormhole,
            Arch::Blackhole => self.blackhole,
        }
    }
}

/// The handle of one physical chip. It owns the transport that it was opened with, and
/// keeps it for as long as it lives.
pub struct Chip<T> {
    device_id: usize,
    transport: T,
    arch: Arch,
    firmware: Option<FirmwareStatus>,
}

/// Whether `e` is a reason for which a device that was opened can fail to become a handle
/// under `cfg`: its tag register cannot be addressed, the transport failed, or the tag it
/// reports is no generation's.
pub open spec fn creation_failure(cfg: DetectConfig, e: TTError) -> bool {
    match e {
        TTError::AxiError(x) => word_refusal(cfg.tag_register.addr) == Some(x),
        TTError::PciError(_) => word_refusal(cfg.tag_register.addr) is None,
        TTError::UnknownArch(tag) => word_refusal(cfg.tag_register.addr) is None && arch_of_tag(
            tag,
        ) is Err,
        _ => false,
    }
}

/// The tag in a word read from the tag register: its lower half.
pub open spec fn tag_of(word: u32) -> u16 {
    (word % 0x1_0000) as u16
}

/// Whether `r` is what is made of device `device_id`, opened as `transport`, once reading
/// its tag register gave `word`: the `Partial` handle of the generation that reports the
/// tag in the word, for that device and with that transport; no handle but `UnknownArch`
/// with the tag, where no generation reports it; and no handle but the failure of the
/// transport, where the reading failed.
pub open spec fn made_of<T>(
    device_id: usize,
    transport: T,
    word: Result<u32, LuwenError>,
    r: Result<Chip<T>, TTError>,
) -> bool {
    match word {
        Ok(w) => match arch_of_tag(tag_of(w)) {
            Ok(arch) => {
                &&& r matches Ok(chip)
                &&& chip.spec_device_id() == device_id
                &&& chip.spec_transport() == transport
                &&& chip.spec_arch() == arch
                &&& chip.spec_firmware() is None
            },
            Err(tag) => r matches Err(reason) && reason == TTError::UnknownArch(tag),
        },
        Err(LuwenError::PciError(e)) => r matches Err(reason) && reason == TTError::PciError(e),
        Err(_) => false,
    }
}

/// Whether `r` is what creating the handle of device `device_id`, opened as `transport`,
/// gave under `cfg`: the refusal of the tag register, where it cannot be addressed; and
/// else what is made of the word that was read from the tag register over `transport`, or
/// of the failure with which the transport answered that reading.
pub open spec fn created<T: ChipInterface>(
    device_id: usize,
    transport: T,
    cfg: DetectConfig,
    r: Result<Chip<T>, TTError>,
) -> bool {
    match word_refusal(cfg.tag_register.addr) {
        Some(x) => r matches Err(reason) && reason == TTError::AxiError(x),
        None => exists|word: Result<u32, LuwenError>|
            #[trigger] word_read_by(&transport, cfg.tag_register.addr, word) && made_of(
                device_id,
                transport,
                word,
                r,
            ),
    }
}

/// Whether `r` is what becomes of the handle `before` on `event`: the handle in the state
/// that follows its own, for the same device and with the same transport; or, where that
/// state is `Failed`, no handle but the reason of the failure.
pub open spec fn moved_by<T>(before: Chip<T>, event: DetectEvent, r: Result<Chip<T>, TTError>) -> bool {
    match before.spec_state().spec_step(event) {
        DetectState::Failed(reason) => r matches Err(e) && e == reason,
        next => r matches Ok(chip) && chip.spec_state() == next && chip.spec_device_id()
            == before.spec_device_id() && chip.spec_transport() == before.spec_transport(),
    }
}

/// Whether `probe` is what sending the liveness probe `sent` over the transport of `chip`
/// gave: the refusal of its mailbox, or the result of the exchange that was carried out on
/// that transport.
pub open spec fn probed<T: ChipInterface>(
    chip: Chip<T>,
    sent: LivenessProbe,
    probe: Result<ArcMsgOk, LuwenError>,
) -> bool {
    match sent.mailbox.refusal() {
        Some(e) => probe == Err::<ArcMsgOk, LuwenError>(
            LuwenError::PlatformError(PlatformError::AxiError(e)),
        ),
        None => exists|values: Seq<u32>|
            values.len() <= sent.max_polls + 6 && #[trigger] exchange_with(
                &chip.spec_transport(),
                sent.mailbox,
                sent.msg,
                sent.max_polls,
                values,
                probe,
            ),
    }
}

/// Whether `r` is what upgrading the handle `before` under `cfg` gave: the handle as it
/// was, if it was verified already; what becomes of it on `FirmwareSilent`, if its
/// generation has no probe; and else what becomes of it on what the result of the probe
/// says, the probe having been sent over its transport.
pub open spec fn upgraded<T: ChipInterface>(
    before: Chip<T>,
    cfg: DetectConfig,
    r: Result<Chip<T>, TTError>,
) -> bool {
    if before.spec_firmware() is Some {
        r == Ok::<Chip<T>, TTError>(before)
    } else {
        match cfg.spec_profile(before.spec_arch()).firmware {
            None => moved_by(before, DetectEvent::FirmwareSilent, r),
            Some(sent) => exists|probe: Result<ArcMsgOk, LuwenError>|
                #[trigger] probed(before, sent, probe) && moved_by(
                    before,
                    DetectEvent::spec_of_probe(probe),
                    r,
                ),
        }
    }
}

/// What creating a handle gives is settled by what the device's transport answers when the
/// tag register is read. Of a device that reports a word, it is what is made of that word:
/// the handle of the generation whose tag the word holds, or `UnknownArch` with the tag. Of
/// a device whose transport fails, it is that failure, and never `UnknownArch`.
pub proof fn lemma_created_of<T: ChipInterface>(
    device_id: usize,
    transport: T,
    cfg: DetectConfig,
    r: Result<Chip<T>, TTError>,
)
    requires
        cfg.tag_register.addr % 4 == 0,
        created(device_id, transport, cfg, r),
    ensures
        forall|word: u32|
            #[trigger] reads_as(&transport, cfg.tag_register.addr, word) ==> made_of(
                device_id,
                transport,
                Ok(word),
                r,
            ),
        forall|failure: PciError|
            #[trigger] read_fails_as(&transport, cfg.tag_register.addr, failure) ==> (r matches Err(
                reason,
            )
                && reason == TTError::PciError(failure)),
{
    let addr = cfg.tag_register.addr;
    let word = choose|word: Result<u32, LuwenError>|
        #[trigger] word_read_by(&transport, addr, word) && made_of(device_id, transport, word, r);
    lemma_word_read_of(&transport, addr, word);
}

impl<T> Chip<T> {
    /// The device that this handle was made for.
    pub closed spec fn spec_device_id(&self) -> usize {
        self.device_id
    }

    /// The transport that this handle owns.
    pub closed spec fn spec_transport(&self) -> T {
        self.transport
    }

    /// The generation of the chip.
    pub closed spec fn spec_arch(&self) -> Arch {
        self.arch
    }

    /// Whether the chip's firmware answered, once that was checked.
    pub closed spec fn spec_firmware(&self) -> Option<FirmwareStatus> {
        self.firmware
    }

    /// How far detection has come: `Partial` until the firmware was checked, `Verified`
    /// after.
    pub open spec fn spec_state(&self) -> DetectState {
        match self.spec_firmware() {
            None => DetectState::Partial { arch: self.spec_arch() },
            Some(firmware) => DetectState::Verified { arch: self.spec_arch(), firmware },
        }
    }

    /// The device that this handle was made for.
    #[verifier::when_used_as_spec(spec_device_id)]
    pub fn device_id(&self) -> (id: usize)
        ensures
            id == self.spec_device_id(),
    {
        self.device_id
    }

    /// The transport that this handle owns.
    pub fn transport(&self) -> (t: &T)
        ensures
            *t == self.spec_transport(),
    {
        &self.transport
    }

    /// Gives up the handle and hands its transport back.
    pub fn into_transport(self) -> (t: T)
        ensures
            t == self.spec_transport(),
    {
        self.transport
    }

    /// The generation of the chip.
    #[verifier::when_used_as_spec(spec_arch)]
    pub fn arch(&self) -> (a: Arch)
        ensures
            a == self.spec_arch(),
    {
        self.arch
    }

    /// How far detection has come.
    #[verifier::when_used_as_spec(spec_state)]
    pub fn state(&self) -> (s: DetectState)
        ensures
            s == self.spec_state(),
            s is Partial || s is Verified,
            s.spec_arch() == Some(self.spec_arch()),
    {
        match self.firmware {
            None => DetectState::Partial { arch: self.arch },
            Some(firmware) => DetectState::Verified { arch: self.arch, firmware },
        }
    }

    /// Whether the firmware answered the liveness probe. False until the chip is verified.
    pub fn arc_alive(&self) -> (alive: bool)
        ensures
            alive <==> self.spec_firmware() == Some(FirmwareStatus::Alive),
    {
        match self.firmware {
            Some(FirmwareStatus::Alive) => true,
            _ => false,
        }
    }
}

impl<T> Chip<T> {
    /// Makes the handle of device `device_id`, opened as `transport`, from the tag that the
    /// device reports. A tag that no generation reports gives no handle.
    pub fn from_tag(device_id: usize, transport: T, tag: u16) -> (r: Result<Chip<T>, TTError>)
        ensures
            r is Ok <==> arch_of_tag(tag) is Ok,
            r matches Ok(chip) ==> {
                &&& chip.spec_device_id() == device_id
                &&& chip.spec_transport() == transport
                &&& chip.spec_firmware() is None
                &&& arch_of_tag(tag) == Ok::<Arch, u16>(chip.spec_arch())
                &&& chip.spec_state() == DetectState::Enumerated.spec_step(DetectEvent::TagRead(tag))
            },
            r matches Err(reason) ==> reason == TTError::UnknownArch(tag) && DetectState::Failed(
                reason,
            ) == DetectState::Enumerated.spec_step(DetectEvent::TagRead(tag)),
    {
        match Arch::from_tag(tag) {
            Ok(arch) => Ok(Chip { device_id, transport, arch, firmware: None }),
            Err(unknown) => Err(TTError::UnknownArch(unknown)),
        }
    }

    /// Applies what was learned of the chip to its handle: the handle moves to the state
    /// that follows its own on `event`, and is given up, for the reason of the failure, where
    /// that state is `Failed`.
    pub fn on_event(self, event: DetectEvent) -> (r: Result<Chip<T>, TTError>)
        ensures
            moved_by(self, event, r),
    {
        match self.state().step(event) {
            DetectState::Failed(reason) => Err(reason),
            DetectState::Partial { arch } => Ok(
                Chip { device_id: self.device_id, transport: self.transport, arch, firmware: None },
            ),
            DetectState::Verified { arch, firmware } => Ok(
                Chip {
                    device_id: self.device_id,
                    transport: self.transport,
                    arch,
                    firmware: Some(firmware),
                },
            ),
            DetectState::Enumerated => unreached(),
        }
    }
}

impl<T: ChipInterface> Chip<T> {
    /// Makes the handle of device `device_id` from the result of opening it.
    ///
    /// Where the device was opened, its tag register is read over the transport and the
    /// handle is the one that `from_tag` makes of the lower half of the word read. The handle
    /// is `Partial`. A device that could not be opened, whose tag could not be read or whose
    /// tag is no generation's gives no handle but the reason.
    pub fn create(device_id: usize, opened: Result<T, PciOpenError>, cfg: &DetectConfig) -> (r:
        Result<Chip<T>, TTError>)
        ensures
            opened matches Err(e) ==> r matches Err(reason) && reason == TTError::PciOpenError(e),
            opened matches Ok(t) ==> match r {
                Ok(chip) => {
                    &&& chip.spec_device_id() == device_id
                    &&& chip.spec_transport() == t
                    &&& chip.spec_state() is Partial
                    &&& word_refusal(cfg.tag_register.addr) is None
                },
                Err(reason) => creation_failure(*cfg, reason),
            },
            opened matches Ok(t) ==> created(device_id, t, *cfg, r),
    {
        let transport = match opened {
            Ok(t) => t,
            Err(e) => {
                return Err(TTError::PciOpenError(e));
            },
        };
        let word = axi_read32(&transport, cfg.tag_register.addr);
        let ghost opened_as = transport;
        let r = match word {
            Ok(w) => Chip::from_tag(device_id, transport, (w % 0x1_0000) as u16),
            Err(LuwenError::PciError(e)) => Err(TTError::PciError(e)),
            Err(LuwenError::PlatformError(PlatformError::AxiError(e))) => Err(TTError::AxiError(e)),
            Err(_) => unreached(),
        };
        proof {
            if word_refusal(cfg.tag_register.addr) is None {
                assert(word_read_by(&opened_as, cfg.tag_register.addr, word));
                assert(made_of(device_id, opened_as, word, r));
            }
        }
        r
    }

    /// Takes a `Partial` handle to `Verified`; a handle that is verified already comes back
    /// as it is, and nothing is sent.
    ///
    /// Where the profile of the chip's generation names a liveness probe, the probe is sent
    /// and the handle is what `on_event` makes of the probe's result. A result that is no
    /// error marks the firmware alive. Any error but one of the transport, or no probe to
    /// send, marks it unavailable, and the handle is verified all the same, since bus access
    /// does not need the firmware. Only a failure of the transport gives the handle up.
    pub fn upgrade(self, cfg: &DetectConfig) -> (r: Result<Chip<T>, TTError>)
        ensures
            match r {
                Ok(chip) => {
                    &&& chip.spec_device_id() == self.spec_device_id()
                    &&& chip.spec_transport() == self.spec_transport()
                    &&& chip.spec_arch() == self.spec_arch()
                    &&& chip.spec_state() is Verified
                },
                Err(reason) => {
                    &&& reason is PciError
                    &&& self.spec_state() is Partial
                    &&& cfg.spec_profile(self.spec_arch()).firmware is Some
                },
            },
            self.spec_state() is Verified ==> (r matches Ok(chip) && chip.spec_firmware()
                == self.spec_firmware()),
            self.spec_state() is Partial && cfg.spec_profile(self.spec_arch()).firmware is None
                ==> (r matches Ok(chip) && chip.spec_firmware() == Some(
                FirmwareStatus::Unavailable,
            )),
            upgraded(self, *cfg, r),
    {
        if self.firmware.is_some() {
            return Ok(self);
        }
        match cfg.profile(self.arch).firmware {
            None => self.on_event(DetectEvent::FirmwareSilent),
            Some(sent) => {
                let probe = arc_msg(&self.transport, &sent.mailbox, &sent.msg, sent.max_polls);
                proof {
                    assert(self.spec_transport() == self.transport);
                    if sent.mailbox.refusal() is None {
                        let values = choose|values: Seq<u32>|
                            values.len() <= sent.max_polls + 6 && #[trigger] exchange_with(
                                &self.transport,
                                sent.mailbox,
                                sent.msg,
                                sent.max_polls,
                                values,
                                probe,
                            );
                        assert(exchange_with(
                            &self.spec_transport(),
                            sent.mailbox,
                            sent.msg,
                            sent.max_polls,
                            values,
                            probe,
                        ));
                    }
                    assert(probed(self, sent, probe));
                }
                self.on_event(DetectEvent::of_probe(probe))
            },
        }
    }
}

/// A chip that is known to be a Grayskull.
pub struct Grayskull<T> {
    chip: Chip<T>,
}

/// A chip that is known to be a Wormhole.
pub struct Wormhole<T> {
    chip: Chip<T>,
}

/// A chip that is known to be a Blackhole.
pub struct Blackhole<T> {
    chip: Chip<T>,
}

/// What a typed handle answers when it is asked to wrap `chip` as an `expected`: the chip
/// if it is one, and the mismatch if it is not.
pub open spec fn narrowed<T>(chip: Chip<T>, expected: Arch) -> Result<Chip<T>, TTError> {
    if chip.spec_arch() == expected {
        Ok(chip)
    } else {
        Err(TTError::ArchMismatch { expected, actual: chip.spec_arch() })
    }
}

impl<T> Grayskull<T> {
    #[verifier::type_invariant]
    spec fn is_grayskull(self) -> bool {
        self.chip.spec_arch() == Arch::Grayskull
    }

    /// The handle underneath.
    pub closed spec fn spec_chip(&self) -> Chip<T> {
        self.chip
    }

    /// Wraps `chip`, which has to be a Grayskull.
    pub fn new(chip: Chip<T>) -> (r: Result<Grayskull<T>, TTError>)
        ensures
            r is Ok <==> chip.spec_arch() == Arch::Grayskull,
            r matches Ok(g) ==> g.spec_chip() == chip,
            r matches Err(e) ==> narrowed(chip, Arch::Grayskull) == Err::<Chip<T>, TTError>(e),
    {
        let actual = chip.arch();
        match actual {
            Arch::Grayskull => Ok(Grayskull { chip }),
            _ => Err(TTError::ArchMismatch { expected: Arch::Grayskull, actual }),
        }
    }

    /// The handle underneath.
    pub fn chip(&self) -> (c: &Chip<T>)
        ensures
            *c == self.spec_chip(),
            c.spec_arch() == Arch::Grayskull,
    {
        proof {
            use_type_invariant(self);
        }
        &self.chip
    }

    /// Gives up the typed handle for the one underneath.
    pub fn into_chip(self) -> (c: Chip<T>)
        ensures
            c == self.spec_chip(),
            c.spec_arch() == Arch::Grayskull,
    {
        proof {
            use_type_invariant(&self);
        }
        self.chip
    }
}

impl<T> Wormhole<T> {
    #[verifier::type_invariant]
    spec fn is_wormhole(self) -> bool {
        self.chip.spec_arch() == Arch::Wormhole
    }

    /// The handle underneath.
    pub closed spec fn spec_chip(&self) -> Chip<T> {
        self.chip
    }

    /// Wraps `chip`, which has to be a Wormhole.
    pub fn new(chip: Chip<T>) -> (r: Result<Wormhole<T>, TTError>)
        ensures
            r is Ok <==> chip.spec_arch() == Arch::Wormhole,
            r matches Ok(w) ==> w.spec_chip() == chip,
            r matches Err(e) ==> narrowed(chip, Arch::Wormhole) == Err::<Chip<T>, TTError>(e),
    {
        let actual = chip.arch();
        match actual {
            Arch::Wormhole => Ok(Wormhole { chip }),
            _ => Err(TTError::ArchMismatch { expected: Arch::Wormhole, actual }),
        }
    }

    /// The handle underneath.
    pub fn chip(&self) -> (c: &Chip<T>)
        ensures
            *c == self.spec_chip(),
            c.spec_arch() == Arch::Wormhole,
    {
        proof {
            use_type_invariant(self);
        }
        &self.chip
    }

    /// Gives up the typed handle for the one underneath.
    pub fn into_chip(self) -> (c: Chip<T>)
        ensures
            c == self.spec_chip(),
            c.spec_arch() == Arch::Wormhole,
    {
        proof {
            use_type_invariant(&self);
        }
        self.chip
    }
}

impl<T> Blackhole<T> {
    #[verifier::type_invariant]
    spec fn is_blackhole(self) -> bool {
        self.chip.spec_arch() == Arch::Blackhole
    }

    /// The handle underneath.
    pub closed spec fn spec_chip(&self) -> Chip<T> {
        self.chip
    }

    /// Wraps `chip`, which has to be a Blackhole.
    pub fn new(chip: Chip<T>) -> (r: Result<Blackhole<T>, TTError>)
        ensures
            r is Ok <==> chip.spec_arch() == Arch::Blackhole,
            r matches Ok(b) ==> b.spec_chip() == chip,
            r matches Err(e) ==> narrowed(chip, Arch::Blackhole) == Err::<Chip<T>, TTError>(e),
    {
        let actual = chip.arch();
        match actual {
            Arch::Blackhole => Ok(Blackhole { chip }),
            _ => Err(TTError::ArchMismatch { expected: Arch::Blackhole, actual }),
        }
    }

    /// The handle underneath.
    pub fn chip(&self) -> (c: &Chip<T>)
        ensures
            *c == self.spec_chip(),
            c.spec_arch() == Arch::Blackhole,
    {
        proof {
            use_type_invariant(self);
        }
        &self.chip
    }

    /// Gives up the typed handle for the one underneath.
    pub fn into_chip(self) -> (c: Chip<T>)
        ensures
            c == self.spec_chip(),
            c.spec_arch() == Arch::Blackhole,
    {
        proof {
            use_type_invariant(&self);
        }
        self.chip
    }
}

/// A chip of any of the generations, as detection hands it out.
pub enum AllChips<T> {
    Wormhole(Wormhole<T>),
    Grayskull(Grayskull<T>),
    Blackhole(Blackhole<T>),
}

impl<T> AllChips<T> {
    /// The generation of the chip: the one its variant names.
    pub open spec fn spec_arch(&self) -> Arch {
        match self {
            AllChips::Wormhole(_) => Arch::Wormhole,
            AllChips::Grayskull(_) => Arch::Grayskull,
            AllChips::Blackhole(_) => Arch::Blackhole,
        }
    }

    /// The handle underneath.
    pub open spec fn spec_chip(&self) -> Chip<T> {
        match self {
            AllChips::Wormhole(w) => w.spec_chip(),
            AllChips::Grayskull(g) => g.spec_chip(),
            AllChips::Blackhole(b) => b.spec_chip(),
        }
    }

    /// Wraps `chip` in the variant of its generation.
    pub fn new(chip: Chip<T>) -> (all: AllChips<T>)
        ensures
            all.spec_chip() == chip,
            all.spec_arch() == chip.spec_arch(),
    {
        match chip.arch() {
            Arch::Grayskull => match Grayskull::new(chip) {
                Ok(g) => AllChips::Grayskull(g),
                Err(_) => unreached(),
            },
            Arch::Wormhole => match Wormhole::new(chip) {
                Ok(w) => AllChips::Wormhole(w),
                Err(_) => unreached(),
            },
            Arch::Blackhole => match Blackhole::new(chip) {
                Ok(b) => AllChips::Blackhole(b),
                Err(_) => unreached(),
            },
        }
    }

    /// The generation of the chip.
    #[verifier::when_used_as_spec(spec_arch)]
    pub fn arch(&self) -> (a: Arch)
        ensures
            a == self.spec_arch(),
    {
        match self {
            AllChips::Wormhole(_) => Arch::Wormhole,
            AllChips::Grayskull(_) => Arch::Grayskull,
            AllChips::Blackhole(_) => Arch::Blackhole,
        }
    }

    /// The handle underneath. Its generation is the one that the variant names.
    pub fn chip(&self) -> (c: &Chip<T>)
        ensures
            *c == self.spec_chip(),
            c.spec_arch() == self.spec_arch(),
    {
        match self {
            AllChips::Wormhole(w) => w.chip(),
            AllChips::Grayskull(g) => g.chip(),
            AllChips::Blackhole(b) => b.chip(),
        }
    }

    /// Gives up the typed handle for the one underneath.
    pub fn into_chip(self) -> (c: Chip<T>)
        ensures
            c == self.spec_chip(),
            c.spec_arch() == self.spec_arch(),
    {
        match self {
            AllChips::Wormhole(w) => w.into_chip(),
            AllChips::Grayskull(g) => g.into_chip(),
            AllChips::Blackhole(b) => b.into_chip(),
        }
    }

    /// The Wormhole view of this chip: there if and only if the chip is a Wormhole.
    pub fn as_wh(&self) -> (view: Option<&Wormhole<T>>)
        ensures
            view is Some <==> self.spec_arch() == Arch::Wormhole,
            view matches Some(w) ==> *self == AllChips::Wormhole(*w),
    {
        match self {
            AllChips::Wormhole(w) => Some(w),
            _ => None,
        }
    }

    /// The Grayskull view of this chip: there if and only if the chip is a Grayskull.
    pub fn as_gs(&self) -> (view: Option<&Grayskull<T>>)
        ensures
            view is Some <==> self.spec_arch() == Arch::Grayskull,
            view matches Some(g) ==> *self == AllChips::Grayskull(*g),
    {
        match self {
            AllChips::Grayskull(g) => Some(g),
            _ => None,
        }
    }

    /// The Blackhole view of this chip: there if and only if the chip is a Blackhole.
    pub fn as_bh(&self) -> (view: Option<&Blackhole<T>>)
        ensures
            view is Some <==> self.spec_arch() == Arch::Blackhole,
            view matches Some(b) ==> *self == AllChips::Blackhole(*b),
    {
        match self {
            AllChips::Blackhole(b) => Some(b),
            _ => None,
        }
    }
}

impl<T: ChipInterface> AllChips<T> {
    /// Takes the chip to `Verified`, as `Chip::upgrade` does, and keeps its type.
    pub fn upgrade(self, cfg: &DetectConfig) -> (r: Result<AllChips<T>, TTError>)
        ensures
            match r {
                Ok(all) => {
                    &&& all.spec_arch() == self.spec_arch()
                    &&& all.spec_chip().spec_device_id() == self.spec_chip().spec_device_id()
                    &&& all.spec_chip().spec_transport() == self.spec_chip().spec_transport()
                    &&& all.spec_chip().spec_state() is Verified
                },
                Err(reason) => {
                    &&& reason is PciError
                    &&& self.spec_chip().spec_state() is Partial
                    &&& cfg.spec_profile(self.spec_arch()).firmware is Some
                },
            },
            self.spec_chip().spec_state() is Verified ==> (r matches Ok(all)
                && all.spec_chip().spec_firmware() == self.spec_chip().spec_firmware()),
            self.spec_chip().spec_state() is Partial && cfg.spec_profile(self.spec_arch()).firmware
                is None ==> (r matches Ok(all) && all.spec_chip().spec_firmware() == Some(
                FirmwareStatus::Unavailable,
            )),
            upgraded(self.spec_chip(), *cfg, chip_of(r)),
    {
        match self.into_chip().upgrade(cfg) {
            Ok(chip) => Ok(AllChips::new(chip)),
            Err(reason) => Err(reason),
        }
    }
}

/// The handle underneath a typed handle that was made, or the reason why none was.
pub open spec fn chip_of<T>(r: Result<AllChips<T>, TTError>) -> Result<Chip<T>, TTError> {
    match r {
        Ok(all) => Ok(all.spec_chip()),
        Err(reason) => Err(reason),
    }
}

/// Makes the typed handle of device `device_id` from the result of opening it: the handle
/// that `Chip::create` makes, in the variant of the generation it found. So the generation
/// of the handle is the one that reports the tag read from the device, a device whose tag
/// no generation reports gives `UnknownArch` with that tag, and a failure of the transport
/// comes back as that failure and as nothing else.
pub fn create_chip<T: ChipInterface>(
    device_id: usize,
    opened: Result<T, PciOpenError>,
    cfg: &DetectConfig,
) -> (r: Result<AllChips<T>, TTError>)
    ensures
        opened matches Err(e) ==> r matches Err(reason) && reason == TTError::PciOpenError(e),
        opened matches Ok(t) ==> match r {
            Ok(all) => {
                &&& all.spec_chip().spec_device_id() == device_id
                &&& all.spec_chip().spec_transport() == t
                &&& all.spec_chip().spec_state() is Partial
                &&& all.spec_chip().spec_arch() == all.spec_arch()
                &&& word_refusal(cfg.tag_register.addr) is None
            },
            Err(reason) => creation_failure(*cfg, reason),
        },
        opened matches Ok(t) ==> created(device_id, t, *cfg, chip_of(r)),
{
    match Chip::create(device_id, opened, cfg) {
        Ok(chip) => Ok(AllChips::new(chip)),
        Err(reason) => Err(reason),
    }
}

} // verus!
