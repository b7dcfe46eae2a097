//! Scanning: handles for all the devices that can be had, and the reason for each that
//! cannot.

use vstd::prelude::*;
use crate::access::{read_fails_as, reads_as};
use crate::arch::{Arch, arch_of_tag};
use crate::chip::{AllChips, DetectConfig, create_chip, created, creation_failure, lemma_created_of,
    made_of, tag_of};
use crate::chip_interface::ChipInterface;
use crate::error::{PciError, PciOpenError, TTError};

verus! {

/// A device that the scan passed over, and why.
#[derive(Clone, Copy, Debug, PartialEq, Eq, Structural)]
pub struct Skipped {
    pub device_id: usize,
    pub reason: TTError,
}

/// What a scan found.
pub struct ScanReport<T> {
    /// A handle for each device that could be opened and identified, in scan order.
    pub chips: Vec<AllChips<T>>,
    /// The devices that gave no handle, in scan order.
    pub skipped: Vec<Skipped>,
}

/// Whether `from` picks positions below `n` in rising order.
pub open spec fn rising(from: Seq<int>, n: int) -> bool {
    &&& forall|i: int| 0 <= i < from.len() ==> 0 <= #[trigger] from[i] < n
    &&& forall|i: int, j: int| 0 <= i < j < from.len() ==> from[i] < from[j]
}

/// Whether `chip` is the handle that device `device` of a scan under `cfg` gave: made for
/// its id, owning the transport it was opened with, not yet verified, and of the generation
/// that reports the tag which was read from the device over that transport.
pub open spec fn handle_of<T: ChipInterface>(
    chip: AllChips<T>,
    device: (usize, Result<T, PciOpenError>),
    cfg: DetectConfig,
) -> bool {
    &&& device.1 matches Ok(t)
    &&& chip.spec_chip().spec_device_id() == device.0
    &&& chip.spec_chip().spec_transport() == t
    &&& chip.spec_chip().spec_state() is Partial
    &&& chip.spec_chip().spec_arch() == chip.spec_arch()
    &&& created(device.0, t, cfg, Ok(chip.spec_chip()))
}

/// Whether `skipped` reports why device `device` of a scan under `cfg` gave no handle: the
/// error of opening it, if that failed; and else the reason that creating its handle gave,
/// which is `UnknownArch` with the tag read from it, the failure with which its transport
/// answered, or the refusal of the tag register.
pub open spec fn skip_of<T: ChipInterface>(
    skipped: Skipped,
    device: (usize, Result<T, PciOpenError>),
    cfg: DetectConfig,
) -> bool {
    &&& skipped.device_id == device.0
    &&& match device.1 {
        Err(e) => skipped.reason == TTError::PciOpenError(e),
        Ok(t) => creation_failure(cfg, skipped.reason) && created(
            device.0,
            t,
            cfg,
            Err(skipped.reason),
        ),
    }
}

/// Whether `report` accounts for `devices`, device by device: the devices at `chip_from`
/// gave the handles, those at `skip_from` were passed over, each list keeps the order of the
/// scan, and every device is in exactly one of them.
pub open spec fn accounts_for<T: ChipInterface>(
    report: ScanReport<T>,
    devices: Seq<(usize, Result<T, PciOpenError>)>,
    cfg: DetectConfig,
    chip_from: Seq<int>,
    skip_from: Seq<int>,
) -> bool {
    &&& chip_from.len() == report.chips@.len()
    &&& skip_from.len() == report.skipped@.len()
    &&& chip_from.len() + skip_from.len() == devices.len()
    &&& rising(chip_from, devices.len() as int)
    &&& rising(skip_from, devices.len() as int)
    &&& forall|i: int, k: int|
        0 <= i < chip_from.len() && 0 <= k < skip_from.len() ==> chip_from[i] != skip_from[k]
    &&& forall|j: int|
        0 <= j < devices.len() ==> chip_from.contains(j) || skip_from.contains(j)
    &&& forall|i: int|
        0 <= i < chip_from.len() ==> handle_of(
            #[trigger] report.chips@[i],
            devices[chip_from[i]],
            cfg,
        )
    &&& forall|k: int|
        0 <= k < skip_from.len() ==> skip_of(
            #[trigger] report.skipped@[k],
            devices[skip_from[k]],
            cfg,
        )
}

/// Whether device `j` of the scan gave a handle of generation `arch`.
pub open spec fn kept_as<T>(report: ScanReport<T>, chip_from: Seq<int>, j: int, arch: Arch) -> bool {
    exists|i: int|
        0 <= i < chip_from.len() && i < report.chips@.len() && #[trigger] chip_from[i] == j
            && report.chips@[i].spec_arch() == arch
}

/// Whether device `j` of the scan was passed over for `reason`.
pub open spec fn skipped_for<T>(report: ScanReport<T>, skip_from: Seq<int>, j: int, reason: TTError) -> bool {
    exists|k: int|
        0 <= k < skip_from.len() && k < report.skipped@.len() && #[trigger] skip_from[k] == j
            && report.skipped@[k].reason == reason
}

/// What a scan makes of each device is settled by the device: one that did not open is
/// passed over for the error of opening it; one that reports a word whose tag is a
/// generation's gives a handle of that generation; one that reports any other word is
/// passed over for `UnknownArch` with its tag; and one whose transport fails is passed over
/// for that failure. What the devices before and after it do changes none of this.
pub proof fn lemma_scanned<T: ChipInterface>(
    report: ScanReport<T>,
    devices: Seq<(usize, Result<T, PciOpenError>)>,
    cfg: DetectConfig,
    chip_from: Seq<int>,
    skip_from: Seq<int>,
    j: int,
)
    requires
        cfg.tag_register.addr % 4 == 0,
        accounts_for(report, devices, cfg, chip_from, skip_from),
        0 <= j < devices.len(),
    ensures
        devices[j].1 matches Err(e) ==> skipped_for(report, skip_from, j, TTError::PciOpenError(e)),
        devices[j].1 matches Ok(t) ==> (forall|word: u32|
            #[trigger] reads_as(&t, cfg.tag_register.addr, word) ==> match arch_of_tag(tag_of(word)) {
                Ok(arch) => kept_as(report, chip_from, j, arch),
                Err(tag) => skipped_for(report, skip_from, j, TTError::UnknownArch(tag)),
            }),
        devices[j].1 matches Ok(t) ==> (forall|failure: PciError|
            #[trigger] read_fails_as(&t, cfg.tag_register.addr, failure) ==> skipped_for(
                report,
                skip_from,
                j,
                TTError::PciError(failure),
            )),
{
    let device = devices[j];
    if chip_from.contains(j) {
        let i = choose|i: int| 0 <= i < chip_from.len() && chip_from[i] == j;
        let chip = report.chips@[i];
        assert(handle_of(chip, device, cfg));
        let t = device.1->Ok_0;
        lemma_created_of(device.0, t, cfg, Ok(chip.spec_chip()));
        assert forall|word: u32| #[trigger]
            reads_as(&t, cfg.tag_register.addr, word) implies match arch_of_tag(
            tag_of(word),
        ) {
            Ok(arch) => kept_as(report, chip_from, j, arch),
            Err(tag) => skipped_for(report, skip_from, j, TTError::UnknownArch(tag)),
        } by {
            assert(made_of(device.0, t, Ok(word), Ok(chip.spec_chip())));
            assert(chip_from[i] == j);
        }
    } else {
        assert(skip_from.contains(j));
        let k = choose|k: int| 0 <= k < skip_from.len() && skip_from[k] == j;
        let skipped = report.skipped@[k];
        assert(skip_of(skipped, device, cfg));
        assert(skip_from[k] == j);
        match device.1 {
            Err(e) => {},
            Ok(t) => {
                lemma_created_of(device.0, t, cfg, Err(skipped.reason));
                assert forall|word: u32| #[trigger]
            reads_as(&t, cfg.tag_register.addr, word) implies match arch_of_tag(
                    tag_of(word),
                ) {
                    Ok(arch) => kept_as(report, chip_from, j, arch),
                    Err(tag) => skipped_for(report, skip_from, j, TTError::UnknownArch(tag)),
                } by {
                    assert(made_of(device.0, t, Ok(word), Err(skipped.reason)));
                }
            },
        }
    }
}

/// Makes a handle for every device of a bus scan that will give one.
///
/// `devices` holds, in scan order, each device's id and the result of opening it. A device
/// that could not be opened, read or identified is passed over and reported with its
/// reason; it never ends the scan, and the devices after it are tried as if it had not been
/// there.
pub fn scan<T: ChipInterface>(devices: Vec<(usize, Result<T, PciOpenError>)>, cfg: &DetectConfig) -> (report:
    ScanReport<T>)
    ensures
        report.chips@.len() + report.skipped@.len() == devices@.len(),
        exists|chip_from: Seq<int>, skip_from: Seq<int>|
            accounts_for(report, devices@, *cfg, chip_from, skip_from),
{
    let ghost all = devices@;
    let mut chips: Vec<AllChips<T>> = Vec::new();
    let mut skipped: Vec<Skipped> = Vec::new();
    let ghost mut chip_from: Seq<int> = Seq::empty();
    let ghost mut skip_from: Seq<int> = Seq::empty();
    for device in it: devices
        invariant
            it.seq() == all,
            chip_from.len() == chips@.len(),
            skip_from.len() == skipped@.len(),
            chip_from.len() + skip_from.len() == it.index(),
            rising(chip_from, it.index() as int),
            rising(skip_from, it.index() as int),
            forall|i: int, k: int|
                0 <= i < chip_from.len() && 0 <= k < skip_from.len() ==> chip_from[i]
                    != skip_from[k],
            forall|j: int|
                0 <= j < it.index() ==> chip_from.contains(j) || skip_from.contains(j),
            forall|i: int|
                0 <= i < chip_from.len() ==> handle_of(#[trigger] chips@[i], all[chip_from[i]], *cfg),
            forall|k: int|
                0 <= k < skip_from.len() ==> skip_of(#[trigger] skipped@[k], all[skip_from[k]], *cfg),
    {
        let ghost at = it.index() as int;
        let (device_id, opened) = device;
        match create_chip(device_id, opened, cfg) {
            Ok(chip) => {
                chips.push(chip);
                proof {
                    let ghost before = chip_from;
                    chip_from = chip_from.push(at);
                    assert(chip_from[before.len() as int] == at);
                    assert forall|j: int| 0 <= j < at + 1 implies chip_from.contains(j)
                        || skip_from.contains(j) by {
                        if j < at && before.contains(j) {
                            let i = choose|i: int| 0 <= i < before.len() && before[i] == j;
                            assert(chip_from[i] == j);
                        }
                    }
                }
            },
            Err(reason) => {
                skipped.push(Skipped { device_id, reason });
                proof {
                    let ghost before = skip_from;
                    skip_from = skip_from.push(at);
                    assert(skip_from[before.len() as int] == at);
                    assert forall|j: int| 0 <= j < at + 1 implies chip_from.contains(j)
                        || skip_from.contains(j) by {
                        if j < at && before.contains(j) {
                            let i = choose|i: int| 0 <= i < before.len() && before[i] == j;
                            assert(skip_from[i] == j);
                        }
                    }
                }
            },
        }
    }
    let report = ScanReport { chips, skipped };
    proof {
        assert(accounts_for(report, all, *cfg, chip_from, skip_from));
    }
    report
}

} // verus!
