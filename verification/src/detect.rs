//! Detection: from a device that was merely enumerated to a handle whose generation is
//! confirmed.
//!
//! A device is `Enumerated` when the bus scan named it, `Partial` once it was opened and the
//! tag it reports was recognised, and `Verified` once the checks for its generation have
//! run. `Failed` can follow any of these and is never left. The transitions are plain
//! functions of state and event; the functions that talk to a transport feed them.

use vstd::prelude::*;
use crate::arch::{Arch, arch_of_tag};
use crate::arc_msg::ArcMsgOk;
use crate::error::{AxiError, LuwenError, PciError, PciOpenError, TTError};

verus! {

/// Whether the firmware of a verified chip answered when it was probed.
#[derive(Clone, Copy, Debug, PartialEq, Eq, Structural)]
pub enum FirmwareStatus {
    /// The liveness probe was answered.
    Alive,
    /// The generation has no firmware to probe, or the probe went unanswered. Bus access
    /// still works; firmware requests are not to be expected to.
    Unavailable,
}

/// How far the detection of one device has come.
#[derive(Clone, Copy, Debug, PartialEq, Eq, Structural)]
pub enum DetectState {
    /// Named by the bus scan; nothing is assumed of it.
    Enumerated,
    /// Opened, and its tag is that of `arch`.
    Partial { arch: Arch },
    /// The checks for `arch` have run.
    Verified { arch: Arch, firmware: FirmwareStatus },
    /// Given up, for this reason.
    Failed(TTError),
}

/// What was learned of a device since the last transition.
#[derive(Clone, Copy, Debug, PartialEq, Eq, Structural)]
pub enum DetectEvent {
    /// The device could not be opened.
    OpenFailed(PciOpenError),
    /// The device was opened and reports this tag.
    TagRead(u16),
    /// An address that detection needed was refused.
    AddressRefused(AxiError),
    /// A bus transaction failed.
    TransportFailed(PciError),
    /// The firmware answered the liveness probe.
    FirmwareAnswered,
    /// The firmware was not probed or did not answer.
    FirmwareSilent,
}

impl DetectState {
    /// The state that follows this one on `event`. An event that the state does not wait
    /// for leaves it as it is.
    pub open spec fn spec_step(self, event: DetectEvent) -> DetectState {
        match (self, event) {
            (DetectState::Failed(reason), _) => DetectState::Failed(reason),
            (_, DetectEvent::TransportFailed(e)) => DetectState::Failed(TTError::PciError(e)),
            (DetectState::Enumerated, DetectEvent::OpenFailed(e)) => DetectState::Failed(
                TTError::PciOpenError(e),
            ),
            (DetectState::Enumerated, DetectEvent::AddressRefused(e)) => DetectState::Failed(
                TTError::AxiError(e),
            ),
            (DetectState::Enumerated, DetectEvent::TagRead(tag)) => match arch_of_tag(tag) {
                Ok(arch) => DetectState::Partial { arch },
                Err(unknown) => DetectState::Failed(TTError::UnknownArch(unknown)),
            },
            (DetectState::Partial { arch }, DetectEvent::FirmwareAnswered) => DetectState::Verified {
                arch,
                firmware: FirmwareStatus::Alive,
            },
            (DetectState::Partial { arch }, DetectEvent::FirmwareSilent) => DetectState::Verified {
                arch,
                firmware: FirmwareStatus::Unavailable,
            },
            (state, _) => state,
        }
    }

    /// The generation that detection has confirmed, if it has come that far.
    pub open spec fn spec_arch(self) -> Option<Arch> {
        match self {
            DetectState::Partial { arch } => Some(arch),
            DetectState::Verified { arch, .. } => Some(arch),
            _ => None,
        }
    }

    /// The state that follows this one on `event`.
    pub fn step(self, event: DetectEvent) -> (next: DetectState)
        ensures
            next == self.spec_step(event),
            self is Failed ==> next == self,
            event is TransportFailed ==> next is Failed,
            self.spec_arch() matches Some(arch) ==> next is Failed || next.spec_arch() == Some(arch),
    {
        match self {
            DetectState::Failed(reason) => DetectState::Failed(reason),
            DetectState::Enumerated => match event {
                DetectEvent::TransportFailed(e) => DetectState::Failed(TTError::PciError(e)),
                DetectEvent::OpenFailed(e) => DetectState::Failed(TTError::PciOpenError(e)),
                DetectEvent::AddressRefused(e) => DetectState::Failed(TTError::AxiError(e)),
                DetectEvent::TagRead(tag) => match Arch::from_tag(tag) {
                    Ok(arch) => DetectState::Partial { arch },
                    Err(unknown) => DetectState::Failed(TTError::UnknownArch(unknown)),
                },
                _ => DetectState::Enumerated,
            },
            DetectState::Partial { arch } => match event {
                DetectEvent::TransportFailed(e) => DetectState::Failed(TTError::PciError(e)),
                DetectEvent::FirmwareAnswered => DetectState::Verified {
                    arch,
                    firmware: FirmwareStatus::Alive,
                },
                DetectEvent::FirmwareSilent => DetectState::Verified {
                    arch,
                    firmware: FirmwareStatus::Unavailable,
                },
                _ => DetectState::Partial { arch },
            },
            DetectState::Verified { arch, firmware } => match event {
                DetectEvent::TransportFailed(e) => DetectState::Failed(TTError::PciError(e)),
                _ => DetectState::Verified { arch, firmware },
            },
        }
    }

    /// The generation that detection has confirmed, if it has come that far.
    #[verifier::when_used_as_spec(spec_arch)]
    pub fn arch(self) -> (a: Option<Arch>)
        ensures
            a == self.spec_arch(),
    {
        match self {
            DetectState::Partial { arch } => Some(arch),
            DetectState::Verified { arch, .. } => Some(arch),
            _ => None,
        }
    }
}

impl DetectEvent {
    /// What the result of the liveness probe says: a result that is no error shows the
    /// firmware alive; a failure of the transport is one; every other error leaves the
    /// firmware unavailable.
    pub open spec fn spec_of_probe(probe: Result<ArcMsgOk, LuwenError>) -> DetectEvent {
        match probe {
            Ok(_) => DetectEvent::FirmwareAnswered,
            Err(LuwenError::PciError(e)) => DetectEvent::TransportFailed(e),
            Err(_) => DetectEvent::FirmwareSilent,
        }
    }

    /// What the result of the liveness probe says.
    pub fn of_probe(probe: Result<ArcMsgOk, LuwenError>) -> (event: DetectEvent)
        ensures
            event == Self::spec_of_probe(probe),
    {
        match probe {
            Ok(_) => DetectEvent::FirmwareAnswered,
            Err(LuwenError::PciError(e)) => DetectEvent::TransportFailed(e),
            Err(_) => DetectEvent::FirmwareSilent,
        }
    }
}

/// The state reached from `state` over `events`, in order.
pub open spec fn run_detect(state: DetectState, events: Seq<DetectEvent>) -> DetectState
    decreases events.len(),
{
    if events.len() == 0 {
        state
    } else {
        run_detect(state.spec_step(events[0]), events.drop_first())
    }
}

/// A failed detection stays failed, for the reason it failed.
pub proof fn lemma_failed_absorbs(reason: TTError, events: Seq<DetectEvent>)
    ensures
        run_detect(DetectState::Failed(reason), events) == DetectState::Failed(reason),
    decreases events.len(),
{
    if events.len() > 0 {
        lemma_failed_absorbs(reason, events.drop_first());
    }
}

/// A tag that no generation reports fails the detection, and nothing that follows makes a
/// handle of it.
pub proof fn lemma_unknown_tag_rejected(tag: u16, events: Seq<DetectEvent>)
    requires
        arch_of_tag(tag) is Err,
    ensures
        DetectState::Enumerated.spec_step(DetectEvent::TagRead(tag)) == DetectState::Failed(
            TTError::UnknownArch(tag),
        ),
        run_detect(DetectState::Enumerated.spec_step(DetectEvent::TagRead(tag)), events)
            == DetectState::Failed(TTError::UnknownArch(tag)),
{
    lemma_failed_absorbs(TTError::UnknownArch(tag), events);
}

/// Whether `events` holds the reading of a tag that `arch` reports.
pub open spec fn tag_seen(events: Seq<DetectEvent>, arch: Arch) -> bool {
    exists|i: int|
        0 <= i < events.len() && (#[trigger] events[i] matches DetectEvent::TagRead(tag)
            && arch_of_tag(tag) == Ok::<Arch, u16>(arch))
}

/// A detection confirms a generation only if the device reported that generation's tag:
/// no sequence of events gives a handle a type that the device did not claim.
pub proof fn lemma_arch_comes_from_tag(events: Seq<DetectEvent>, arch: Arch)
    requires
        run_detect(DetectState::Enumerated, events).spec_arch() == Some(arch),
    ensures
        tag_seen(events, arch),
{
    lemma_arch_from(DetectState::Enumerated, events, arch);
}

proof fn lemma_arch_from(state: DetectState, events: Seq<DetectEvent>, arch: Arch)
    requires
        run_detect(state, events).spec_arch() == Some(arch),
    ensures
        state.spec_arch() == Some(arch) || tag_seen(events, arch),
    decreases events.len(),
{
    if events.len() > 0 {
        let next = state.spec_step(events[0]);
        let rest = events.drop_first();
        lemma_arch_from(next, rest, arch);
        if tag_seen(rest, arch) {
            let i = choose|i: int|
                0 <= i < rest.len() && (#[trigger] rest[i] matches DetectEvent::TagRead(tag)
                    && arch_of_tag(tag) == Ok::<Arch, u16>(arch));
            assert(events[i + 1] == rest[i]);
        } else if state.spec_arch() != Some(arch) {
            assert(next.spec_arch() == Some(arch));
            assert(state is Enumerated);
            assert(events[0] is TagRead);
        }
    }
}

} // verus!
